//! Character-level text helpers shared by the renderers: previews that cut a
//! text down to a budget, line splitting, trimming and decimal numbers.
use vstd::prelude::*;

verus! {

broadcast use vstd::string::group_string_axioms;

// ---------------------------------------------------------------------------
// Specifications
// ---------------------------------------------------------------------------

/// `char::is_whitespace`: the Unicode `White_Space` property.
pub open spec fn is_ws(c: char) -> bool {
    let u = c as u32;
    ||| 0x09 <= u <= 0x0d
    ||| u == 0x20
    ||| u == 0x85
    ||| u == 0xa0
    ||| u == 0x1680
    ||| 0x2000 <= u <= 0x200a
    ||| u == 0x2028
    ||| u == 0x2029
    ||| u == 0x202f
    ||| u == 0x205f
    ||| u == 0x3000
}

/// `char::is_control`: the Unicode general category `Cc`.
pub open spec fn is_ctrl(c: char) -> bool {
    let u = c as u32;
    u <= 0x1f || (0x7f <= u && u <= 0x9f)
}

/// Terminal columns a character takes in a wrapped transcript line.
pub open spec fn spec_char_width(c: char) -> nat {
    if c == '\t' {
        4
    } else if is_ctrl(c) {
        0
    } else {
        1
    }
}

/// `text` cut after `limit` characters, with `suffix` appended when
/// something was cut.
pub open spec fn truncated(text: Seq<char>, limit: nat, suffix: Seq<char>) -> Seq<char> {
    if text.len() > limit {
        text.take(limit as int) + suffix
    } else {
        text
    }
}

pub open spec fn three_dots() -> Seq<char> {
    seq!['.', '.', '.']
}

pub open spec fn ellipsis() -> Seq<char> {
    seq!['\u{2026}']
}

/// A text shortened to at most `max` characters, ending in `…` when shortened.
pub open spec fn spec_ellipsize(text: Seq<char>, max: nat) -> Seq<char> {
    if text.len() <= max {
        text
    } else if max == 0 {
        seq![]
    } else if max == 1 {
        ellipsis()
    } else {
        truncated(text, (max - 1) as nat, ellipsis())
    }
}

/// `n` copies of `c`.
pub open spec fn repeat(c: char, n: nat) -> Seq<char> {
    Seq::new(n, |i: int| c)
}

/// A text shortened to at most `max_cols` characters, ending in `...` when
/// shortened and there is room for it.
pub open spec fn spec_preview_fit(text: Seq<char>, max_cols: nat) -> Seq<char> {
    if text.len() <= max_cols {
        text
    } else if max_cols <= 3 {
        repeat('.', max_cols)
    } else {
        text.take(max_cols - 3) + three_dots()
    }
}

/// Subtraction that stops at zero.
pub open spec fn sat_sub(a: int, b: int) -> nat {
    if a > b {
        (a - b) as nat
    } else {
        0
    }
}

/// The characters of a line that fit a terminal `cols` wide, keeping the
/// last column free.
pub open spec fn spec_fit_line(text: Seq<char>, cols: nat) -> Seq<char> {
    let max = sat_sub(cols as int, 1);
    if text.len() <= max {
        text
    } else {
        text.take(max as int)
    }
}

/// The text without its leading whitespace.
pub open spec fn trim_start(s: Seq<char>) -> Seq<char>
    decreases s.len(),
{
    if s.len() > 0 && is_ws(s[0]) {
        trim_start(s.drop_first())
    } else {
        s
    }
}

/// The text without its trailing whitespace.
pub open spec fn trim_end(s: Seq<char>) -> Seq<char>
    decreases s.len(),
{
    if s.len() > 0 && is_ws(s.last()) {
        trim_end(s.drop_last())
    } else {
        s
    }
}

/// Every character is whitespace (the trimmed text is empty).
pub open spec fn all_ws(s: Seq<char>) -> bool {
    forall|i: int| 0 <= i < s.len() ==> is_ws(#[trigger] s[i])
}

pub open spec fn strip_cr(line: Seq<char>) -> Seq<char> {
    if line.len() > 0 && line.last() == '\r' {
        line.drop_last()
    } else {
        line
    }
}

/// Scans the first `i` characters of `s`, collecting the lines completed by a
/// `'\n'` and the text of the line still open. With `strip` set, a `'\r'`
/// ending a completed line is dropped.
pub open spec fn scan_lines(s: Seq<char>, i: int, strip: bool) -> (Seq<Seq<char>>, Seq<char>)
    decreases i,
{
    if i <= 0 {
        (seq![], seq![])
    } else {
        let (done, cur) = scan_lines(s, i - 1, strip);
        if s[i - 1] == '\n' {
            (done.push(if strip { strip_cr(cur) } else { cur }), seq![])
        } else {
            (done, cur.push(s[i - 1]))
        }
    }
}

/// `str::lines`: the lines of a text, without their `\n` or `\r\n` endings;
/// a final line ending adds no empty line.
pub open spec fn text_lines(s: Seq<char>) -> Seq<Seq<char>> {
    let (done, cur) = scan_lines(s, s.len() as int, true);
    if cur.len() == 0 {
        done
    } else {
        done.push(cur)
    }
}

/// `str::split('\n')`: the pieces between newlines, always one more than the
/// number of newlines.
pub open spec fn split_newlines(s: Seq<char>) -> Seq<Seq<char>> {
    let (done, cur) = scan_lines(s, s.len() as int, false);
    done.push(cur)
}

pub open spec fn digit(d: nat) -> char {
    if d == 0 {
        '0'
    } else if d == 1 {
        '1'
    } else if d == 2 {
        '2'
    } else if d == 3 {
        '3'
    } else if d == 4 {
        '4'
    } else if d == 5 {
        '5'
    } else if d == 6 {
        '6'
    } else if d == 7 {
        '7'
    } else if d == 8 {
        '8'
    } else {
        '9'
    }
}

/// The decimal digits of `n`, most significant first.
pub open spec fn decimal(n: nat) -> Seq<char>
    decreases n,
{
    if n < 10 {
        seq![digit(n)]
    } else {
        decimal(n / 10).push(digit(n % 10))
    }
}

/// `prefix` is where `s` starts.
pub open spec fn has_prefix(s: Seq<char>, prefix: Seq<char>) -> bool {
    prefix.len() <= s.len() && s.take(prefix.len() as int) == prefix
}

// ---------------------------------------------------------------------------
// Strings and characters
// ---------------------------------------------------------------------------

/// `String::push`: appends one character.
#[verifier::external_body]
pub(crate) fn push_char(s: &mut String, c: char)
    ensures
        final(s)@ == old(s)@.push(c),
{
    s.push(c);
}

/// Appends every character of `cs` to `s`.
pub fn push_chars(s: &mut String, cs: &[char])
    ensures
        final(s)@ == old(s)@ + cs@,
{
    let ghost start = s@;
    let mut i: usize = 0;
    while i < cs.len()
        invariant
            i <= cs@.len(),
            s@ == start + cs@.take(i as int),
        decreases cs@.len() - i,
    {
        push_char(s, cs[i]);
        assert(cs@.take(i + 1) == cs@.take(i as int).push(cs@[i as int]));
        i += 1;
    }
    assert(cs@.take(cs@.len() as int) == cs@);
}

/// Appends the text of `t` to `s`.
pub fn push_str(s: &mut String, t: &str)
    ensures
        final(s)@ == old(s)@ + t@,
{
    s.append(t);
}

/// The characters of `s`, in order.
pub fn chars_of(s: &str) -> (res: Vec<char>)
    ensures
        res@ == s@,
{
    let mut res: Vec<char> = Vec::new();
    for c in it: s.chars()
        invariant
            res@ == it.seq().take(it.index() as int),
    {
        res.push(c);
    }
    res
}

/// A string holding exactly the characters `cs`.
pub fn string_of(cs: &[char]) -> (res: String)
    ensures
        res@ == cs@,
{
    let mut res = String::new();
    push_chars(&mut res, cs);
    res
}

/// A copy of the first `n` characters of `cs`.
pub fn take_chars(cs: &[char], n: usize) -> (res: Vec<char>)
    requires
        n <= cs@.len(),
    ensures
        res@ == cs@.take(n as int),
{
    let mut res: Vec<char> = Vec::new();
    let mut i: usize = 0;
    while i < n
        invariant
            i <= n <= cs@.len(),
            res@ == cs@.take(i as int),
        decreases n - i,
    {
        res.push(cs[i]);
        assert(cs@.take(i + 1) == cs@.take(i as int).push(cs@[i as int]));
        i += 1;
    }
    res
}

/// A copy of the characters of `cs` from `start` to `end`.
pub fn slice_chars(cs: &[char], start: usize, end: usize) -> (res: Vec<char>)
    requires
        start <= end <= cs@.len(),
    ensures
        res@ == cs@.subrange(start as int, end as int),
{
    let mut res: Vec<char> = Vec::new();
    let mut i: usize = start;
    while i < end
        invariant
            start <= i <= end <= cs@.len(),
            res@ == cs@.subrange(start as int, i as int),
        decreases end - i,
    {
        res.push(cs[i]);
        assert(cs@.subrange(start as int, i + 1) == cs@.subrange(start as int, i as int).push(
            cs@[i as int],
        ));
        i += 1;
    }
    res
}

/// `n` spaces.
pub fn spaces(n: usize) -> (res: String)
    ensures
        res@ == repeat(' ', n as nat),
{
    repeat_char(' ', n)
}

/// `n` copies of `c`.
pub fn repeat_char(c: char, n: usize) -> (res: String)
    ensures
        res@ == repeat(c, n as nat),
{
    let mut res = String::new();
    let mut i: usize = 0;
    while i < n
        invariant
            i <= n,
            res@ == repeat(c, i as nat),
        decreases n - i,
    {
        push_char(&mut res, c);
        assert(repeat(c, (i + 1) as nat) == repeat(c, i as nat).push(c));
        i += 1;
    }
    res
}

/// `char::is_whitespace`.
pub fn is_whitespace(c: char) -> (res: bool)
    ensures
        res == is_ws(c),
{
    let u = c as u32;
    (0x09 <= u && u <= 0x0d) || u == 0x20 || u == 0x85 || u == 0xa0 || u == 0x1680 || (0x2000
        <= u && u <= 0x200a) || u == 0x2028 || u == 0x2029 || u == 0x202f || u == 0x205f || u
        == 0x3000
}

/// `char::is_control`.
pub fn is_control(c: char) -> (res: bool)
    ensures
        res == is_ctrl(c),
{
    let u = c as u32;
    u <= 0x1f || (0x7f <= u && u <= 0x9f)
}

/// Columns a character takes when a transcript line is wrapped: a tab takes
/// four, other control characters none, everything else one.
pub fn char_width(c: char) -> (res: usize)
    ensures
        res == spec_char_width(c),
{
    if c == '\t' {
        4
    } else if is_control(c) {
        0
    } else {
        1
    }
}

/// Whether every character of `cs` is whitespace.
pub fn all_whitespace(cs: &[char]) -> (res: bool)
    ensures
        res == all_ws(cs@),
{
    let mut i: usize = 0;
    while i < cs.len()
        invariant
            i <= cs@.len(),
            forall|j: int| 0 <= j < i ==> is_ws(#[trigger] cs@[j]),
        decreases cs@.len() - i,
    {
        if !is_whitespace(cs[i]) {
            return false;
        }
        i += 1;
    }
    true
}

/// Where `trim_start` begins: the number of leading whitespace characters.
pub fn leading_ws(cs: &[char]) -> (res: usize)
    ensures
        res <= cs@.len(),
        trim_start(cs@) == cs@.skip(res as int),
{
    let mut i: usize = 0;
    assert(cs@.skip(0) == cs@);
    while i < cs.len() && is_whitespace(cs[i])
        invariant
            i <= cs@.len(),
            trim_start(cs@) == trim_start(cs@.skip(i as int)),
        decreases cs@.len() - i,
    {
        assert(cs@.skip(i as int).drop_first() == cs@.skip(i + 1));
        i += 1;
    }
    assert(trim_start(cs@.skip(i as int)) == cs@.skip(i as int));
    i
}

/// Where `trim_end` stops: the length without trailing whitespace.
pub fn trimmed_end_len(cs: &[char]) -> (res: usize)
    ensures
        res <= cs@.len(),
        trim_end(cs@) == cs@.take(res as int),
{
    let mut n: usize = cs.len();
    assert(cs@.take(n as int) == cs@);
    while n > 0 && is_whitespace(cs[n - 1])
        invariant
            n <= cs@.len(),
            trim_end(cs@) == trim_end(cs@.take(n as int)),
        decreases n,
    {
        assert(cs@.take(n as int).drop_last() == cs@.take(n - 1));
        n -= 1;
    }
    n
}

/// Whether `cs` starts with `prefix`.
pub fn starts_with(cs: &[char], prefix: &[char]) -> (res: bool)
    ensures
        res == has_prefix(cs@, prefix@),
{
    if prefix.len() > cs.len() {
        return false;
    }
    let mut i: usize = 0;
    while i < prefix.len()
        invariant
            i <= prefix@.len() <= cs@.len(),
            forall|j: int| 0 <= j < i ==> cs@[j] == prefix@[j],
        decreases prefix@.len() - i,
    {
        if cs[i] != prefix[i] {
            assert(cs@.take(prefix@.len() as int)[i as int] != prefix@[i as int]);
            return false;
        }
        i += 1;
    }
    assert(cs@.take(prefix@.len() as int) =~= prefix@);
    true
}

// ---------------------------------------------------------------------------
// Lines
// ---------------------------------------------------------------------------

proof fn lemma_scan_step(s: Seq<char>, i: int, strip: bool)
    requires
        0 < i,
    ensures
        scan_lines(s, i, strip) == ({
            let (done, cur) = scan_lines(s, i - 1, strip);
            if s[i - 1] == '\n' {
                (done.push(if strip { strip_cr(cur) } else { cur }), seq![])
            } else {
                (done, cur.push(s[i - 1]))
            }
        }),
{
}

/// Scans `cs` into its completed lines and the line still open.
fn scan(cs: &[char], strip: bool) -> (res: (Vec<Vec<char>>, Vec<char>))
    ensures
        res.0@.map_values(|l: Vec<char>| l@) == scan_lines(cs@, cs@.len() as int, strip).0,
        res.1@ == scan_lines(cs@, cs@.len() as int, strip).1,
{
    let mut done: Vec<Vec<char>> = Vec::new();
    let mut cur: Vec<char> = Vec::new();
    let mut i: usize = 0;
    while i < cs.len()
        invariant
            i <= cs@.len(),
            done@.map_values(|l: Vec<char>| l@) == scan_lines(cs@, i as int, strip).0,
            cur@ == scan_lines(cs@, i as int, strip).1,
        decreases cs@.len() - i,
    {
        proof {
            lemma_scan_step(cs@, i + 1, strip);
        }
        if cs[i] == '\n' {
            let ghost before = done@;
            if strip && cur.len() > 0 && cur[cur.len() - 1] == '\r' {
                cur.pop();
            }
            done.push(cur);
            cur = Vec::new();
            assert(done@.map_values(|l: Vec<char>| l@) == before.map_values(|l: Vec<char>| l@).push(
                done@.last()@,
            ));
        } else {
            cur.push(cs[i]);
        }
        i += 1;
    }
    (done, cur)
}

/// `str::lines` over characters.
pub fn lines_of(cs: &[char]) -> (res: Vec<Vec<char>>)
    ensures
        res@.map_values(|l: Vec<char>| l@) == text_lines(cs@),
{
    let (mut done, cur) = scan(cs, true);
    if cur.len() > 0 {
        let ghost before = done@;
        done.push(cur);
        assert(done@.map_values(|l: Vec<char>| l@) == before.map_values(|l: Vec<char>| l@).push(
            done@.last()@,
        ));
    }
    done
}

/// `str::split('\n')` over characters.
pub fn split_lines(cs: &[char]) -> (res: Vec<Vec<char>>)
    ensures
        res@.map_values(|l: Vec<char>| l@) == split_newlines(cs@),
{
    let (mut done, cur) = scan(cs, false);
    let ghost before = done@;
    done.push(cur);
    assert(done@.map_values(|l: Vec<char>| l@) == before.map_values(|l: Vec<char>| l@).push(
        done@.last()@,
    ));
    done
}

// ---------------------------------------------------------------------------
// Numbers
// ---------------------------------------------------------------------------

fn digit_char(d: u64) -> (res: char)
    requires
        d < 10,
    ensures
        res == digit(d as nat),
{
    if d == 0 {
        '0'
    } else if d == 1 {
        '1'
    } else if d == 2 {
        '2'
    } else if d == 3 {
        '3'
    } else if d == 4 {
        '4'
    } else if d == 5 {
        '5'
    } else if d == 6 {
        '6'
    } else if d == 7 {
        '7'
    } else if d == 8 {
        '8'
    } else {
        '9'
    }
}

/// Appends the decimal digits of `n` to `s`.
pub fn push_decimal(s: &mut String, n: u64)
    ensures
        final(s)@ == old(s)@ + decimal(n as nat),
    decreases n,
{
    if n < 10 {
        push_char(s, digit_char(n));
    } else {
        push_decimal(s, n / 10);
        push_char(s, digit_char(n % 10));
    }
}

/// The decimal digits of `n`.
pub fn decimal_string(n: u64) -> (res: String)
    ensures
        res@ == decimal(n as nat),
{
    let mut s = String::new();
    push_decimal(&mut s, n);
    s
}

// ---------------------------------------------------------------------------
// Previews
// ---------------------------------------------------------------------------

/// `text` cut after `limit` characters, followed by `suffix` when anything
/// was cut.
pub fn truncate_after(text: &str, limit: usize, suffix: &str) -> (res: String)
    ensures
        res@ == truncated(text@, limit as nat, suffix@),
{
    let cs = chars_of(text);
    if cs.len() > limit {
        let short = take_chars(cs.as_slice(), limit);
        let mut res = string_of(short.as_slice());
        push_str(&mut res, suffix);
        res
    } else {
        string_of(cs.as_slice())
    }
}

/// `text` cut after `limit` characters, followed by `...` when anything was
/// cut.
pub fn preview(text: &str, limit: usize) -> (res: String)
    ensures
        res@ == truncated(text@, limit as nat, three_dots()),
{
    let dots = "...";
    proof {
        reveal_strlit("...");
    }
    truncate_after(text, limit, dots)
}

/// `text` shortened to at most `max` characters, ending in `…` when shortened.
pub fn ellipsize(text: &str, max: usize) -> (res: String)
    ensures
        res@ == spec_ellipsize(text@, max as nat),
        res@.len() <= max || res@ == text@,
{
    let cs = chars_of(text);
    let mark = "\u{2026}";
    proof {
        reveal_strlit("\u{2026}");
    }
    if cs.len() <= max {
        return string_of(cs.as_slice());
    }
    if max == 0 {
        return String::new();
    }
    if max == 1 {
        return String::from_str(mark);
    }
    truncate_after(text, max - 1, mark)
}

/// `text` shortened to at most `max_cols` characters; a shortened text ends in
/// `...`, or is only dots when three columns or fewer are available.
pub fn preview_fit(text: &str, max_cols: usize) -> (res: String)
    ensures
        res@ == spec_preview_fit(text@, max_cols as nat),
        res@.len() <= max_cols,
{
    let cs = chars_of(text);
    if cs.len() <= max_cols {
        return string_of(cs.as_slice());
    }
    if max_cols <= 3 {
        repeat_char('.', max_cols)
    } else {
        let prefix = take_chars(cs.as_slice(), max_cols - 3);
        let mut res = string_of(prefix.as_slice());
        push_char(&mut res, '.');
        push_char(&mut res, '.');
        push_char(&mut res, '.');
        assert(res@ == prefix@ + three_dots());
        res
    }
}

/// The part of a line that fits a terminal `term_cols` wide, leaving the last
/// column free.
pub fn fit_line(text: &str, term_cols: u16) -> (res: String)
    ensures
        res@ == spec_fit_line(text@, term_cols as nat),
        res@.len() < term_cols || (term_cols == 0 && res@.len() == 0),
{
    let max_cols = term_cols.saturating_sub(1) as usize;
    let cs = chars_of(text);
    if cs.len() <= max_cols {
        string_of(cs.as_slice())
    } else {
        let short = take_chars(cs.as_slice(), max_cols);
        string_of(short.as_slice())
    }
}

} // verus!
