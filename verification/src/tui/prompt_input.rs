//! The input line drawn into the prompt frame, wrapped to the terminal width,
//! and where the cursor lands in it.
use crate::text::{chars_of, slice_chars};
use crate::tui::frame::{Frame, FrameView, crlf, spec_row};
use crate::tui::input::{InputBuffer, input_wf};
use vstd::prelude::*;

verus! {

broadcast use vstd::string::group_string_axioms;

/// Where the cursor sits: its column, and its row counted from the input's
/// first row.
pub struct InputCursor {
    pub col: u16,
    pub row_offset: u16,
}

/// Lays out the input from character `idx` on, in rows of `cap` characters
/// (`cont` after the first row), the current row starting at column `base`.
/// Gives the text written (rows joined by line breaks), the cursor (column,
/// row) of the last row whose span holds character index `cur` at either end,
/// and the number of rows added after the current one.
pub open spec fn input_layout(
    cs: Seq<char>,
    cur: int,
    idx: int,
    row: nat,
    cap: nat,
    base: nat,
    cont: nat,
    cursor: (nat, nat),
) -> (Seq<char>, (nat, nat), nat)
    decreases cs.len() - idx,
{
    let end = if idx + cap < cs.len() {
        idx + cap
    } else {
        cs.len() as int
    };
    let chunk = cs.subrange(idx, end);
    let cursor2 = if idx <= cur && cur <= end {
        ((base + cur - idx) as nat, row)
    } else {
        cursor
    };
    if end >= cs.len() || cap == 0 || idx < 0 {
        (chunk, cursor2, 0)
    } else {
        let (t, c, r) = input_layout(cs, cur, end, row + 1, cont, 0, cont, cursor2);
        (chunk + crlf() + t, c, r + 1)
    }
}

/// The row capacities: the first row leaves room for the `> ` prompt, and
/// every row keeps the terminal's last column free; at least one character
/// fits either way.
pub open spec fn first_cap(cols: u16) -> nat {
    if cols > 3 {
        (cols - 3) as nat
    } else {
        1
    }
}

pub open spec fn cont_cap(cols: u16) -> nat {
    if cols > 1 {
        (cols - 1) as nat
    } else {
        1
    }
}

/// The layout of a whole input, after its `> ` prompt.
pub open spec fn full_input_layout(text: Seq<char>, cur: int, cols: u16) -> (Seq<char>, (nat, nat), nat) {
    input_layout(text, cur, 0, 0, first_cap(cols), 2, cont_cap(cols), (2, 0))
}

proof fn lemma_layout_bounds(
    cs: Seq<char>,
    cur: int,
    idx: int,
    row: nat,
    cap: nat,
    base: nat,
    cont: nat,
    cursor: (nat, nat),
)
    requires
        0 <= idx <= cs.len(),
        1 <= cap,
        1 <= cont,
        base + cap <= 65534,
        cont <= 65534,
        cursor.0 <= 65534,
        0 <= cur,
    ensures
        input_layout(cs, cur, idx, row, cap, base, cont, cursor).1.0 <= 65534,
        input_layout(cs, cur, idx, row, cap, base, cont, cursor).1.1 <= row + input_layout(
            cs,
            cur,
            idx,
            row,
            cap,
            base,
            cont,
            cursor,
        ).2 || input_layout(cs, cur, idx, row, cap, base, cont, cursor).1 == cursor,
    decreases cs.len() - idx,
{
    let end = if idx + cap < cs.len() {
        idx + cap
    } else {
        cs.len() as int
    };
    let cursor2 = if idx <= cur && cur <= end {
        ((base + cur - idx) as nat, row)
    } else {
        cursor
    };
    if !(end >= cs.len()) {
        lemma_layout_bounds(cs, cur, end, row + 1, cont, 0, cont, cursor2);
    }
}

/// The frame after writing the input from character `idx` on into rows of
/// `cap` characters (`cont` after the first), starting a new row between
/// them with the frame's own row step.
pub open spec fn frame_input(f: FrameView, cs: Seq<char>, idx: int, cap: nat, cont: nat) -> FrameView
    decreases cs.len() - idx,
{
    let end = if idx + cap < cs.len() {
        idx + cap
    } else {
        cs.len() as int
    };
    let f1 = FrameView { text: f.text + cs.subrange(idx, end), rows: f.rows };
    if end >= cs.len() || cap == 0 || idx < 0 {
        f1
    } else {
        frame_input(spec_row(f1), cs, end, cont, cont)
    }
}

/// The frame after the `> ` prompt and the whole input, on a terminal `cols`
/// wide.
pub open spec fn frame_with_input(f: FrameView, text: Seq<char>, cols: u16) -> FrameView {
    frame_input(
        FrameView { text: f.text + "> "@, rows: f.rows },
        text,
        0,
        first_cap(cols),
        cont_cap(cols),
    )
}

/// Written into a frame, the input adds the layout's rows; once a row is
/// started every break is written, so the text is the layout's.
proof fn lemma_frame_input(
    f: FrameView,
    cs: Seq<char>,
    cur: int,
    idx: int,
    row: nat,
    cap: nat,
    base: nat,
    cont: nat,
    cursor: (nat, nat),
)
    requires
        0 <= idx <= cs.len(),
        f.rows + input_layout(cs, cur, idx, row, cap, base, cont, cursor).2 <= u16::MAX,
    ensures
        frame_input(f, cs, idx, cap, cont).rows == f.rows + input_layout(
            cs,
            cur,
            idx,
            row,
            cap,
            base,
            cont,
            cursor,
        ).2,
        f.rows > 0 ==> frame_input(f, cs, idx, cap, cont).text == f.text + input_layout(
            cs,
            cur,
            idx,
            row,
            cap,
            base,
            cont,
            cursor,
        ).0,
    decreases cs.len() - idx,
{
    let end = if idx + cap < cs.len() {
        idx + cap
    } else {
        cs.len() as int
    };
    let chunk = cs.subrange(idx, end);
    let cursor2 = if idx <= cur && cur <= end {
        ((base + cur - idx) as nat, row)
    } else {
        cursor
    };
    let f1 = FrameView { text: f.text + chunk, rows: f.rows };
    if !(end >= cs.len() || cap == 0 || idx < 0) {
        let next = input_layout(cs, cur, end, row + 1, cont, 0, cont, cursor2);
        lemma_frame_input(spec_row(f1), cs, cur, end, row + 1, cont, 0, cont, cursor2);
        if f.rows > 0 {
            assert(spec_row(f1).text == f.text + chunk + crlf());
            assert(f.text + chunk + crlf() + next.0 == f.text + (chunk + crlf() + next.0));
        }
    }
}

/// Writes the input after a `> ` prompt on the frame's current row, wrapping
/// it into rows with the frame's row step, and tells where the cursor is.
pub fn write_input(frame: &mut Frame, input: &InputBuffer, term_cols: u16) -> (res: InputCursor)
    requires
        input_wf(input@),
        old(frame)@.rows as int + full_input_layout(input@.text, (input@.cursor % 65536) as int, term_cols).2
            <= u16::MAX,
    ensures
        ({
            let (t, c, r) = full_input_layout(input@.text, (input@.cursor % 65536) as int, term_cols);
            &&& final(frame)@ == frame_with_input(old(frame)@, input@.text, term_cols)
            &&& final(frame)@.rows == old(frame)@.rows + r
            &&& old(frame)@.rows > 0 ==> final(frame)@.text == old(frame)@.text + "> "@ + t
            &&& res.col == c.0
            &&& res.row_offset == c.1
            &&& c.0 <= 65534
            &&& c.1 <= r
        }),
{
    frame.write("> ");
    let cs = chars_of(input.as_str());
    let cursor_idx = input.cursor_column() as usize;
    let fc: usize = if term_cols > 3 {
        (term_cols - 3) as usize
    } else {
        1
    };
    let cc: usize = if term_cols > 1 {
        (term_cols - 1) as usize
    } else {
        1
    };
    let ghost target = full_input_layout(cs@, cursor_idx as int, term_cols);
    let ghost goal = frame_with_input(old(frame)@, input@.text, term_cols);
    let ghost rows0 = old(frame)@.rows;
    let mut cursor_col: u16 = 2;
    let mut cursor_row: u16 = 0;
    let mut idx: usize = 0;
    let mut row: u16 = 0;
    let mut cap: usize = fc;
    let mut col_base: u16 = 2;
    proof {
        lemma_layout_bounds(cs@, cursor_idx as int, 0, 0, fc as nat, 2, cc as nat, (2, 0));
        lemma_frame_input(frame@, cs@, cursor_idx as int, 0, 0, fc as nat, 2, cc as nat, (2, 0));
        assert(fc == first_cap(term_cols));
        assert(target.1.1 <= target.2);
        assert(target.1.0 <= 65534);
        if rows0 > 0 {
            assert(old(frame)@.text + "> "@ + target.0 == frame@.text + target.0);
        }
    }
    loop
        invariant
            idx <= cs@.len(),
            cs@ == input@.text,
            1 <= cap <= 65534,
            1 <= cc <= 65534,
            col_base + cap <= 65534,
            cursor_col <= 65534,
            target.1.1 <= target.2,
            target.1.0 <= 65534,
            cc == cont_cap(term_cols),
            cursor_idx == (input@.cursor % 65536),
            rows0 == old(frame)@.rows,
            target == full_input_layout(input@.text, (input@.cursor % 65536) as int, term_cols),
            goal == frame_with_input(old(frame)@, input@.text, term_cols),
            goal.rows == rows0 + target.2,
            rows0 > 0 ==> goal.text == old(frame)@.text + "> "@ + target.0,
            goal == frame_input(frame@, cs@, idx as int, cap as nat, cc as nat),
            ({
                let (t, c, r) = input_layout(
                    cs@,
                    cursor_idx as int,
                    idx as int,
                    row as nat,
                    cap as nat,
                    col_base as nat,
                    cc as nat,
                    (cursor_col as nat, cursor_row as nat),
                );
                &&& c == target.1
                &&& frame@.rows + r == rows0 + target.2
                &&& frame@.rows == rows0 + row
                &&& rows0 + target.2 <= u16::MAX
                &&& c.0 <= 65534
            }),
        decreases cs@.len() - idx,
    {
        let end = if cap < cs.len() - idx {
            idx + cap
        } else {
            cs.len()
        };
        let chunk = slice_chars(cs.as_slice(), idx, end);
        let ghost (t0, c0, r0) = input_layout(
            cs@,
            cursor_idx as int,
            idx as int,
            row as nat,
            cap as nat,
            col_base as nat,
            cc as nat,
            (cursor_col as nat, cursor_row as nat),
        );
        proof {
            lemma_layout_bounds(
                cs@,
                cursor_idx as int,
                idx as int,
                row as nat,
                cap as nat,
                col_base as nat,
                cc as nat,
                (cursor_col as nat, cursor_row as nat),
            );
        }
        let ghost before = frame@;
        frame.write_chars(chunk.as_slice());
        assert(frame@ == FrameView { text: before.text + cs@.subrange(idx as int, end as int), rows: before.rows });
        if idx <= cursor_idx && cursor_idx <= end {
            cursor_row = row;
            cursor_col = col_base + (cursor_idx - idx) as u16;
        }
        if end >= cs.len() {
            assert(r0 == 0);
            assert(frame@ == goal);
            assert(c0 == (cursor_col as nat, cursor_row as nat));
            return InputCursor { col: cursor_col, row_offset: cursor_row };
        }
        let ghost next = input_layout(
            cs@,
            cursor_idx as int,
            end as int,
            row as nat + 1,
            cc as nat,
            0,
            cc as nat,
            (cursor_col as nat, cursor_row as nat),
        );
        assert(r0 == next.2 + 1);
        idx = end;
        let ghost f1 = frame@;
        frame.row();
        assert(goal == frame_input(spec_row(f1), cs@, end as int, cc as nat, cc as nat));
        row = row + 1;
        cap = cc;
        col_base = 0;
        assert(next.1 == c0);
        assert(frame@.rows + next.2 == rows0 + target.2);
    }
}

/// The cursor stays on screen: on a terminal at least four columns wide, its
/// column is left of the last one.
pub proof fn law_cursor_within_width(text: Seq<char>, cur: int, cols: u16)
    requires
        cols >= 4,
        0 <= cur <= text.len(),
    ensures
        full_input_layout(text, cur, cols).1.0 < cols,
{
    lemma_cursor_col(text, cur, 0, 0, first_cap(cols), 2, cont_cap(cols), (2, 0), cols);
}

proof fn lemma_cursor_col(
    cs: Seq<char>,
    cur: int,
    idx: int,
    row: nat,
    cap: nat,
    base: nat,
    cont: nat,
    cursor: (nat, nat),
    cols: u16,
)
    requires
        0 <= idx <= cs.len(),
        cols >= 4,
        cap >= 1,
        base + cap == cols - 1,
        cont == cols - 1,
        cursor.0 < cols,
    ensures
        input_layout(cs, cur, idx, row, cap, base, cont, cursor).1.0 < cols,
    decreases cs.len() - idx,
{
    let end = if idx + cap < cs.len() {
        idx + cap
    } else {
        cs.len() as int
    };
    let cursor2 = if idx <= cur && cur <= end {
        ((base + cur - idx) as nat, row)
    } else {
        cursor
    };
    if !(end >= cs.len()) {
        lemma_cursor_col(cs, cur, end, row + 1, cont, 0, cont, cursor2, cols);
    }
}

/// The rows a layout adds after its current one, from character `idx` on.
pub open spec fn rows_after(cs: Seq<char>, idx: int, cap: nat, cont: nat) -> nat
    decreases cs.len() - idx,
{
    let end = if idx + cap < cs.len() {
        idx + cap
    } else {
        cs.len() as int
    };
    if end >= cs.len() || cap == 0 || idx < 0 {
        0
    } else {
        rows_after(cs, end, cont, cont) + 1
    }
}

proof fn lemma_rows_after(
    cs: Seq<char>,
    cur: int,
    idx: int,
    row: nat,
    cap: nat,
    base: nat,
    cont: nat,
    cursor: (nat, nat),
)
    ensures
        input_layout(cs, cur, idx, row, cap, base, cont, cursor).2 == rows_after(cs, idx, cap, cont),
    decreases cs.len() - idx,
{
    let end = if idx + cap < cs.len() {
        idx + cap
    } else {
        cs.len() as int
    };
    let cursor2 = if idx <= cur && cur <= end {
        ((base + cur - idx) as nat, row)
    } else {
        cursor
    };
    if !(end >= cs.len() || cap == 0 || idx < 0) {
        lemma_rows_after(cs, cur, end, row + 1, cont, 0, cont, cursor2);
    }
}

/// The rows the input takes after its first, on a terminal `cols` wide
/// (saturating at `u64::MAX`).
pub fn input_extra_rows(input: &InputBuffer, cols: u16) -> (res: u64)
    ensures
        res == (if full_input_layout(input@.text, (input@.cursor % 65536) as int, cols).2 <= u64::MAX {
            full_input_layout(input@.text, (input@.cursor % 65536) as int, cols).2
        } else {
            u64::MAX as nat
        }),
{
    let cs = chars_of(input.as_str());
    let first: usize = if cols > 3 {
        (cols - 3) as usize
    } else {
        1
    };
    let cont: usize = if cols > 1 {
        (cols - 1) as usize
    } else {
        1
    };
    proof {
        lemma_rows_after(input@.text, (input@.cursor % 65536) as int, 0, 0, first_cap(cols), 2, cont_cap(cols), (2, 0));
    }
    let n = cs.len();
    let mut idx: usize = 0;
    let mut cap = first;
    let mut rows: u64 = 0;
    let ghost total = rows_after(cs@, 0, first as nat, cont as nat);
    loop
        invariant
            idx <= n == cs@.len(),
            cs@ == input@.text,
            cap >= 1,
            cont >= 1,
            cont == cont_cap(cols),
            total == rows_after(cs@, 0, first_cap(cols), cont as nat),
            rows < u64::MAX ==> total == rows + rows_after(cs@, idx as int, cap as nat, cont as nat),
            rows == u64::MAX ==> total >= u64::MAX,
        ensures
            rows == (if total <= u64::MAX { total } else { u64::MAX as nat }),
        decreases n - idx,
    {
        let end = if cap < n - idx {
            idx + cap
        } else {
            n
        };
        if end >= n {
            break;
        }
        if rows == u64::MAX {
            idx = end;
            cap = cont;
            continue;
        }
        rows = rows + 1;
        idx = end;
        cap = cont;
    }
    rows
}

} // verus!
