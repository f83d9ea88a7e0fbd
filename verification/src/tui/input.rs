//! The line being typed, with a cursor that moves by whole characters.
use crate::text::{
    all_whitespace, all_ws, chars_of, is_control, is_ctrl, push_chars, slice_chars, string_of,
    take_chars,
};
use vstd::prelude::*;

verus! {

/// The text being typed and the cursor, counted in characters.
pub struct InputState {
    pub text: Seq<char>,
    pub cursor: nat,
}

pub struct InputBuffer {
    text: String,
    cursor: usize,
}

impl View for InputBuffer {
    type V = InputState;

    closed spec fn view(&self) -> InputState {
        InputState { text: self.text@, cursor: self.cursor as nat }
    }
}

/// The cursor lies within the text.
pub open spec fn input_wf(v: InputState) -> bool {
    v.cursor <= v.text.len()
}

pub open spec fn spec_insert_char(v: InputState, c: char) -> InputState {
    InputState {
        text: v.text.take(v.cursor as int) + seq![c] + v.text.skip(v.cursor as int),
        cursor: v.cursor + 1,
    }
}

/// Pasted text with every control character (newlines, tabs, ...) turned into
/// a space.
pub open spec fn cleaned(s: Seq<char>) -> Seq<char> {
    s.map_values(|c: char| if is_ctrl(c) { ' ' } else { c })
}

pub open spec fn spec_insert_str(v: InputState, s: Seq<char>) -> InputState {
    InputState {
        text: v.text.take(v.cursor as int) + cleaned(s) + v.text.skip(v.cursor as int),
        cursor: v.cursor + s.len(),
    }
}

pub open spec fn spec_move_left(v: InputState) -> InputState {
    if v.cursor == 0 {
        v
    } else {
        InputState { text: v.text, cursor: (v.cursor - 1) as nat }
    }
}

pub open spec fn spec_move_right(v: InputState) -> InputState {
    if v.cursor >= v.text.len() {
        v
    } else {
        InputState { text: v.text, cursor: v.cursor + 1 }
    }
}

/// Deletes the character before the cursor.
pub open spec fn spec_backspace(v: InputState) -> InputState {
    if v.cursor == 0 {
        v
    } else {
        InputState {
            text: v.text.take(v.cursor - 1) + v.text.skip(v.cursor as int),
            cursor: (v.cursor - 1) as nat,
        }
    }
}

pub open spec fn empty_input() -> InputState {
    InputState { text: seq![], cursor: 0 }
}

/// `text` with the characters `at .. at + remove` replaced by `insert`.
fn splice(text: &String, at: usize, remove: usize, insert: &[char]) -> (res: (String, usize))
    requires
        at as int + remove as int <= text@.len(),
    ensures
        res.0@ == text@.take(at as int) + insert@ + text@.skip(at + remove),
        res.1 == at + insert@.len(),
{
    let cs = chars_of(text.as_str());
    let mut v = take_chars(cs.as_slice(), at);
    let mut i: usize = 0;
    while i < insert.len()
        invariant
            i <= insert@.len(),
            cs@ == text@,
            at as int + remove as int <= cs@.len(),
            v@ == cs@.take(at as int) + insert@.take(i as int),
        decreases insert@.len() - i,
    {
        v.push(insert[i]);
        assert(insert@.take(i + 1) == insert@.take(i as int).push(insert@[i as int]));
        i += 1;
    }
    assert(insert@.take(insert@.len() as int) == insert@);
    let new_cursor = v.len();
    assert(at as int + remove as int <= cs@.len());
    let n = cs.len();
    let rest = slice_chars(cs.as_slice(), at + remove, n);
    let mut s = string_of(v.as_slice());
    push_chars(&mut s, rest.as_slice());
    assert(rest@ == text@.skip(at + remove));
    (s, new_cursor)
}

impl Default for InputBuffer {
    fn default() -> (res: Self)
        ensures
            res@ == empty_input(),
    {
        InputBuffer { text: String::new(), cursor: 0 }
    }
}

impl InputBuffer {
    /// The text being typed.
    pub fn as_str(&self) -> (res: &str)
        ensures
            res@ == self@.text,
    {
        self.text.as_str()
    }

    /// Whether the text holds nothing but whitespace.
    pub fn is_blank(&self) -> (res: bool)
        ensures
            res == all_ws(self@.text),
    {
        let cs = chars_of(self.text.as_str());
        all_whitespace(cs.as_slice())
    }

    /// The number of characters before the cursor, as a terminal column
    /// (wrapping past `u16::MAX`).
    pub fn cursor_column(&self) -> (res: u16)
        ensures
            res as nat == self@.cursor % 65536,
    {
        (self.cursor % 65536) as u16
    }

    /// Empties the input and hands back what it held.
    pub fn clear(&mut self) -> (res: String)
        ensures
            res@ == old(self)@.text,
            final(self)@ == empty_input(),
    {
        self.cursor = 0;
        let mut out = String::new();
        std::mem::swap(&mut out, &mut self.text);
        out
    }

    /// Inserts a character at the cursor and moves past it.
    pub fn insert_char(&mut self, c: char)
        requires
            input_wf(old(self)@),
        ensures
            final(self)@ == spec_insert_char(old(self)@, c),
            input_wf(final(self)@),
    {
        let one = [c];
        assert(one@ == seq![c]);
        let (text, cursor) = splice(&self.text, self.cursor, 0, &one);
        assert(text@ =~= spec_insert_char(old(self)@, c).text);
        self.text = text;
        self.cursor = cursor;
    }

    /// Inserts pasted text at the cursor, with control characters turned into
    /// spaces, and moves past it.
    pub fn insert_str(&mut self, s: &str)
        requires
            input_wf(old(self)@),
        ensures
            final(self)@ == spec_insert_str(old(self)@, s@),
            input_wf(final(self)@),
    {
        let cs = chars_of(s);
        let mut clean: Vec<char> = Vec::new();
        let mut i: usize = 0;
        while i < cs.len()
            invariant
                i <= cs@.len(),
                clean@ == cleaned(cs@.take(i as int)),
            decreases cs@.len() - i,
        {
            let c = cs[i];
            clean.push(if is_control(c) { ' ' } else { c });
            assert(cs@.take(i + 1) == cs@.take(i as int).push(c));
            assert(cleaned(cs@.take(i + 1)) =~= cleaned(cs@.take(i as int)).push(
                if is_ctrl(c) { ' ' } else { c },
            ));
            i += 1;
        }
        assert(cs@.take(cs@.len() as int) == cs@);
        let (text, cursor) = splice(&self.text, self.cursor, 0, clean.as_slice());
        self.text = text;
        self.cursor = cursor;
    }

    /// Deletes the character before the cursor, if any.
    pub fn backspace(&mut self)
        requires
            input_wf(old(self)@),
        ensures
            final(self)@ == spec_backspace(old(self)@),
            input_wf(final(self)@),
    {
        if self.cursor == 0 {
            return;
        }
        self.move_left();
        let none: [char; 0] = [];
        let (text, cursor) = splice(&self.text, self.cursor, 1, &none);
        self.text = text;
        self.cursor = cursor;
        assert(self@.text =~= old(self)@.text.take(old(self)@.cursor - 1) + old(self)@.text.skip(
            old(self)@.cursor as int,
        ));
    }

    /// Moves the cursor one character left, unless it is at the start.
    pub fn move_left(&mut self)
        requires
            input_wf(old(self)@),
        ensures
            final(self)@ == spec_move_left(old(self)@),
            input_wf(final(self)@),
    {
        if self.cursor == 0 {
            return;
        }
        self.cursor -= 1;
    }

    /// Moves the cursor one character right, unless it is at the end.
    pub fn move_right(&mut self)
        requires
            input_wf(old(self)@),
        ensures
            final(self)@ == spec_move_right(old(self)@),
            input_wf(final(self)@),
    {
        let len = chars_of(self.text.as_str()).len();
        if self.cursor >= len {
            return;
        }
        self.cursor += 1;
    }
}

/// Deleting right after typing a character gives back the input as it was.
pub proof fn law_backspace_undoes_insert_char(v: InputState, c: char)
    requires
        input_wf(v),
    ensures
        spec_backspace(spec_insert_char(v, c)) == v,
{
    let w = spec_insert_char(v, c);
    assert(w.text.take(v.cursor as int) =~= v.text.take(v.cursor as int));
    assert(w.text.skip(v.cursor as int + 1) =~= v.text.skip(v.cursor as int));
    assert(v.text.take(v.cursor as int) + v.text.skip(v.cursor as int) =~= v.text);
}

/// Moving right then left returns the cursor to where it was, when there was
/// a character to move over.
pub proof fn law_move_right_then_left(v: InputState)
    requires
        v.cursor < v.text.len(),
    ensures
        spec_move_left(spec_move_right(v)) == v,
{
}

/// Every edit keeps the cursor within the text.
pub proof fn law_edits_keep_cursor_in_text(v: InputState, c: char, s: Seq<char>)
    requires
        input_wf(v),
    ensures
        input_wf(spec_insert_char(v, c)),
        input_wf(spec_insert_str(v, s)),
        input_wf(spec_backspace(v)),
        input_wf(spec_move_left(v)),
        input_wf(spec_move_right(v)),
{
}

} // verus!
