//! Reading a search engine's result page: each result's title, address and
//! snippet, taken from the page's HTML. Positions count characters.
use crate::text::{chars_of, is_whitespace, is_ws, push_char, slice_chars};
use vstd::prelude::*;

verus! {

broadcast use vstd::string::group_string_axioms;

// ---------------------------------------------------------------------------
// Finding text
// ---------------------------------------------------------------------------

/// Whether `n` occurs in `h` at `i`.
pub open spec fn occurs_at(h: Seq<char>, n: Seq<char>, i: int) -> bool {
    0 <= i && i + n.len() <= h.len() && h.subrange(i, i + n.len()) == n
}

/// Where `n` first occurs in `h` at or after `from`.
pub open spec fn find_in(h: Seq<char>, n: Seq<char>, from: int) -> Option<int>
    decreases h.len() + 1 - from,
{
    if from < 0 || from + n.len() > h.len() {
        None
    } else if occurs_at(h, n, from) {
        Some(from)
    } else {
        find_in(h, n, from + 1)
    }
}

/// Where `n` last occurs in `h` at or before `i`.
pub open spec fn rfind_from(h: Seq<char>, n: Seq<char>, i: int) -> Option<int>
    decreases i + 1,
{
    if i < 0 {
        None
    } else if occurs_at(h, n, i) {
        Some(i)
    } else {
        rfind_from(h, n, i - 1)
    }
}

/// Where `n` last occurs within the first `end` characters of `h`.
pub open spec fn rfind_before(h: Seq<char>, n: Seq<char>, end: int) -> Option<int> {
    rfind_from(h, n, end - n.len())
}

/// Whether `pat` occurs in `h` at `i`.
pub fn occurs(h: &[char], i: usize, pat: &[char]) -> (res: bool)
    ensures
        res == occurs_at(h@, pat@, i as int),
{
    if pat.len() > h.len() || i > h.len() - pat.len() {
        return false;
    }
    let end = i + pat.len();
    let mut k: usize = 0;
    while k < pat.len()
        invariant
            k <= pat@.len(),
            i + pat@.len() == end,
            end <= h@.len(),
            forall|j: int| 0 <= j < k ==> h@[i + j] == pat@[j],
        decreases pat@.len() - k,
    {
        if h[i + k] != pat[k] {
            assert(h@.subrange(i as int, i + pat@.len())[k as int] != pat@[k as int]);
            return false;
        }
        k += 1;
    }
    assert(h@.subrange(i as int, i + pat@.len()) =~= pat@);
    true
}

/// Where `needle` first occurs in `haystack` at or after `from`.
pub fn find_from(haystack: &[char], needle: &[char], from: usize) -> (res: Option<usize>)
    requires
        from <= haystack@.len(),
    ensures
        match res {
            Some(p) => find_in(haystack@, needle@, from as int) == Some(p as int) && from <= p
                && occurs_at(haystack@, needle@, p as int),
            None => find_in(haystack@, needle@, from as int) is None,
        },
{
    if needle.len() == 0 {
        assert(haystack@.subrange(from as int, from as int) =~= needle@);
        return Some(from);
    }
    if needle.len() > haystack.len() {
        return None;
    }
    let last = haystack.len() - needle.len();
    let mut i = from;
    while i <= last
        invariant
            from <= i <= haystack@.len(),
            haystack@.len() <= usize::MAX,
            needle@.len() >= 1,
            last + needle@.len() == haystack@.len(),
            find_in(haystack@, needle@, from as int) == find_in(haystack@, needle@, i as int),
        decreases haystack@.len() - i,
    {
        if occurs(haystack, i, needle) {
            return Some(i);
        }
        i += 1;
    }
    None
}

/// Where `needle` last occurs within the first `end` characters of
/// `haystack`.
pub fn rfind_within(haystack: &[char], needle: &[char], end: usize) -> (res: Option<usize>)
    requires
        end <= haystack@.len(),
    ensures
        match res {
            Some(p) => rfind_before(haystack@, needle@, end as int) == Some(p as int) && p
                + needle@.len() <= end && occurs_at(haystack@, needle@, p as int),
            None => rfind_before(haystack@, needle@, end as int) is None,
        },
{
    if needle.len() > end {
        return None;
    }
    let mut i = end - needle.len();
    loop
        invariant
            i + needle@.len() <= end,
            end <= haystack@.len(),
            rfind_before(haystack@, needle@, end as int) == rfind_from(haystack@, needle@, i as int),
        decreases i,
    {
        if occurs(haystack, i, needle) {
            return Some(i);
        }
        if i == 0 {
            assert(rfind_from(haystack@, needle@, -1) is None);
            return None;
        }
        i -= 1;
    }
}

// ---------------------------------------------------------------------------
// Entities
// ---------------------------------------------------------------------------

/// The entity at `i`, if any: the character it stands for and its length.
/// These are the entities the result page writes: `&amp;`, `&lt;`, `&gt;`,
/// `&quot;`, the apostrophe as `&#39;`, `&#x27;` or `&apos;`, the slash as
/// `&#x2F;`, and `&nbsp;`, read as a space.
pub open spec fn entity_at(t: Seq<char>, i: int) -> Option<(char, nat)> {
    if occurs_at(t, seq!['&', 'a', 'm', 'p', ';'], i) {
        Some(('&', 5))
    } else if occurs_at(t, seq!['&', 'l', 't', ';'], i) {
        Some(('<', 4))
    } else if occurs_at(t, seq!['&', 'g', 't', ';'], i) {
        Some(('>', 4))
    } else if occurs_at(t, seq!['&', 'q', 'u', 'o', 't', ';'], i) {
        Some(('"', 6))
    } else if occurs_at(t, seq!['&', '#', '3', '9', ';'], i) {
        Some(('\'', 5))
    } else if occurs_at(t, seq!['&', '#', 'x', '2', '7', ';'], i) {
        Some(('\'', 6))
    } else if occurs_at(t, seq!['&', 'a', 'p', 'o', 's', ';'], i) {
        Some(('\'', 6))
    } else if occurs_at(t, seq!['&', '#', 'x', '2', 'F', ';'], i) {
        Some(('/', 6))
    } else if occurs_at(t, seq!['&', 'n', 'b', 's', 'p', ';'], i) {
        Some((' ', 6))
    } else {
        None
    }
}

/// `t` from `i` on, each entity replaced by its character.
pub open spec fn decode_from(t: Seq<char>, i: int) -> Seq<char>
    decreases t.len() - i,
{
    if i < 0 || i >= t.len() {
        seq![]
    } else {
        match entity_at(t, i) {
            Some((c, n)) => seq![c] + decode_from(t, i + n),
            None => seq![t[i]] + decode_from(t, i + 1),
        }
    }
}

pub open spec fn decoded(t: Seq<char>) -> Seq<char> {
    decode_from(t, 0)
}

fn entity_here(t: &[char], i: usize) -> (res: Option<(char, usize)>)
    ensures
        match entity_at(t@, i as int) {
            Some((c, n)) => res == Some((c, n as usize)),
            None => res is None,
        },
{
    let amp = ['&', 'a', 'm', 'p', ';'];
    let lt = ['&', 'l', 't', ';'];
    let gt = ['&', 'g', 't', ';'];
    let quot = ['&', 'q', 'u', 'o', 't', ';'];
    let dec39 = ['&', '#', '3', '9', ';'];
    let hex27 = ['&', '#', 'x', '2', '7', ';'];
    let apos = ['&', 'a', 'p', 'o', 's', ';'];
    let hex2f = ['&', '#', 'x', '2', 'F', ';'];
    let nbsp = ['&', 'n', 'b', 's', 'p', ';'];
    assert(amp@ == seq!['&', 'a', 'm', 'p', ';']);
    assert(lt@ == seq!['&', 'l', 't', ';']);
    assert(gt@ == seq!['&', 'g', 't', ';']);
    assert(quot@ == seq!['&', 'q', 'u', 'o', 't', ';']);
    assert(dec39@ == seq!['&', '#', '3', '9', ';']);
    assert(hex27@ == seq!['&', '#', 'x', '2', '7', ';']);
    assert(apos@ == seq!['&', 'a', 'p', 'o', 's', ';']);
    assert(hex2f@ == seq!['&', '#', 'x', '2', 'F', ';']);
    assert(nbsp@ == seq!['&', 'n', 'b', 's', 'p', ';']);
    if occurs(t, i, &amp) {
        Some(('&', 5))
    } else if occurs(t, i, &lt) {
        Some(('<', 4))
    } else if occurs(t, i, &gt) {
        Some(('>', 4))
    } else if occurs(t, i, &quot) {
        Some(('"', 6))
    } else if occurs(t, i, &dec39) {
        Some(('\'', 5))
    } else if occurs(t, i, &hex27) {
        Some(('\'', 6))
    } else if occurs(t, i, &apos) {
        Some(('\'', 6))
    } else if occurs(t, i, &hex2f) {
        Some(('/', 6))
    } else if occurs(t, i, &nbsp) {
        Some((' ', 6))
    } else {
        None
    }
}

/// The characters of `t` with each entity replaced by its character.
pub fn decode_chars(t: &[char]) -> (res: String)
    ensures
        res@ == decoded(t@),
{
    let mut out = String::new();
    let mut i: usize = 0;
    while i < t.len()
        invariant
            i <= t@.len(),
            out@ + decode_from(t@, i as int) == decoded(t@),
        decreases t@.len() - i,
    {
        match entity_here(t, i) {
            Some((c, n)) => {
                assert(decode_from(t@, i as int) == seq![c] + decode_from(t@, i + n));
                push_char(&mut out, c);
                assert(out@ + decode_from(t@, i + n) =~= decoded(t@));
                i = i + n;
            },
            None => {
                let c = t[i];
                assert(decode_from(t@, i as int) == seq![c] + decode_from(t@, i + 1));
                push_char(&mut out, c);
                assert(out@ + decode_from(t@, i + 1) =~= decoded(t@));
                i = i + 1;
            },
        }
    }
    assert(out@ =~= decoded(t@));
    out
}

/// `text` with each entity replaced by its character.
pub fn decode_entities(text: &str) -> (res: String)
    ensures
        res@ == decoded(text@),
{
    let cs = chars_of(text);
    decode_chars(cs.as_slice())
}

// ---------------------------------------------------------------------------
// Text of a fragment
// ---------------------------------------------------------------------------

/// The first `n` characters of `f` with tags left out (`<` opens a tag, `>`
/// closes it), and whether a tag is open after them.
pub open spec fn untagged(f: Seq<char>, n: int) -> (Seq<char>, bool)
    decreases n,
{
    if n <= 0 {
        (seq![], false)
    } else {
        let (out, in_tag) = untagged(f, n - 1);
        let c = f[n - 1];
        if c == '<' {
            (out, true)
        } else if c == '>' {
            (out, false)
        } else if in_tag {
            (out, in_tag)
        } else {
            (out.push(c), in_tag)
        }
    }
}

/// The words among the first `n` characters of `s`, joined by single
/// spaces, and whether whitespace followed the last word.
pub open spec fn squeeze(s: Seq<char>, n: int) -> (Seq<char>, bool)
    decreases n,
{
    if n <= 0 {
        (seq![], false)
    } else {
        let (out, gap) = squeeze(s, n - 1);
        let c = s[n - 1];
        if is_ws(c) {
            (out, true)
        } else {
            (
                (if gap && out.len() > 0 {
                    out.push(' ')
                } else {
                    out
                }).push(c),
                false,
            )
        }
    }
}

/// The text of an HTML fragment: tags left out, whitespace runs squeezed to
/// one space and trimmed, entities decoded.
pub open spec fn cleaned_text(f: Seq<char>) -> Seq<char> {
    let plain = untagged(f, f.len() as int).0;
    decoded(squeeze(plain, plain.len() as int).0)
}

/// The text of an HTML fragment.
pub fn clean_text(fragment: &[char]) -> (res: String)
    ensures
        res@ == cleaned_text(fragment@),
{
    let mut plain: Vec<char> = Vec::new();
    let mut in_tag = false;
    let mut i: usize = 0;
    while i < fragment.len()
        invariant
            i <= fragment@.len(),
            (plain@, in_tag) == untagged(fragment@, i as int),
        decreases fragment@.len() - i,
    {
        let c = fragment[i];
        if c == '<' {
            in_tag = true;
        } else if c == '>' {
            in_tag = false;
        } else if !in_tag {
            plain.push(c);
        }
        i += 1;
    }
    let mut words: Vec<char> = Vec::new();
    let mut gap = false;
    let mut j: usize = 0;
    while j < plain.len()
        invariant
            j <= plain@.len(),
            (words@, gap) == squeeze(plain@, j as int),
        decreases plain@.len() - j,
    {
        let c = plain[j];
        if is_whitespace(c) {
            gap = true;
        } else {
            if gap && words.len() > 0 {
                words.push(' ');
            }
            words.push(c);
            gap = false;
        }
        j += 1;
    }
    decode_chars(words.as_slice())
}

// ---------------------------------------------------------------------------
// Attributes and snippets
// ---------------------------------------------------------------------------

/// The value of attribute `name` in a tag: the text between the quotes after
/// the first `name=`, entities decoded; none when the value is not quoted
/// or not closed.
pub open spec fn attr_value(tag: Seq<char>, name: Seq<char>) -> Option<Seq<char>> {
    let key = name.push('=');
    match find_in(tag, key, 0) {
        None => None,
        Some(k) => {
            let rest = tag.skip(k + key.len());
            if rest.len() == 0 || (rest[0] != '"' && rest[0] != '\'') {
                None
            } else {
                let body = rest.skip(1);
                match find_in(body, seq![rest[0]], 0) {
                    None => None,
                    Some(e) => Some(decoded(body.take(e))),
                }
            }
        },
    }
}

/// The value of attribute `name` in a tag.
pub fn extract_attr(tag: &[char], name: &[char]) -> (res: Option<String>)
    ensures
        match attr_value(tag@, name@) {
            Some(v) => res matches Some(s) && s@ == v,
            None => res is None,
        },
{
    let mut key: Vec<char> = Vec::new();
    let mut i: usize = 0;
    while i < name.len()
        invariant
            i <= name@.len(),
            key@ == name@.take(i as int),
        decreases name@.len() - i,
    {
        key.push(name[i]);
        assert(name@.take(i + 1) == name@.take(i as int).push(name@[i as int]));
        i += 1;
    }
    key.push('=');
    assert(name@.take(name@.len() as int) == name@);
    assert(key@ == name@.push('='));
    let k = match find_from(tag, key.as_slice(), 0) {
        Some(k) => k,
        None => {
            return None;
        },
    };
    let tag_len = tag.len();
    assert(k + key@.len() <= tag_len);
    let start = k + key.len();
    let rest = slice_chars(tag, start, tag.len());
    assert(rest@ == tag@.skip(start as int));
    if rest.len() == 0 {
        return None;
    }
    let quote = rest[0];
    if quote != '"' && quote != '\'' {
        return None;
    }
    let body = slice_chars(rest.as_slice(), 1, rest.len());
    assert(body@ == rest@.skip(1));
    let q = [quote];
    assert(q@ == seq![quote]);
    let e = match find_from(body.as_slice(), &q, 0) {
        Some(e) => e,
        None => {
            return None;
        },
    };
    let value = slice_chars(body.as_slice(), 0, e);
    assert(value@ == body@.take(e as int));
    Some(decode_chars(value.as_slice()))
}

pub open spec fn snippet_marker() -> Seq<char> {
    seq!['r', 'e', 's', 'u', 'l', 't', '-', 's', 'n', 'i', 'p', 'p', 'e', 't']
}

pub open spec fn cell_close() -> Seq<char> {
    seq!['<', '/', 't', 'd', '>']
}

/// Where the snippet after `after` would open and close: the marker's
/// position, the tag's end counted from `after` by the distance from the
/// marker to its `>`, and the next `</td>` from there.
pub open spec fn snippet_bounds(h: Seq<char>, after: int) -> Option<(int, int)> {
    match find_in(h, snippet_marker(), after) {
        None => None,
        Some(m) => match find_in(h, seq!['>'], m) {
            None => None,
            Some(g) => {
                let open_end = after + (g - m);
                match find_in(h, cell_close(), open_end) {
                    None => None,
                    Some(close) => Some((open_end, close)),
                }
            },
        },
    }
}

/// Whether the snippet's cell closes right where its text would begin,
/// leaving no room for it.
pub open spec fn snippet_fails(h: Seq<char>, after: int) -> bool {
    snippet_bounds(h, after) matches Some((open_end, close)) && close < open_end + 1
}

/// The snippet following position `after`.
pub open spec fn snippet_at(h: Seq<char>, after: int) -> Option<Seq<char>> {
    match snippet_bounds(h, after) {
        None => None,
        Some((open_end, close)) => Some(cleaned_text(h.subrange(open_end + 1, close))),
    }
}

/// The snippet following position `after`.
pub fn extract_snippet(html: &[char], after: usize) -> (res: Option<String>)
    requires
        after <= html@.len(),
        !snippet_fails(html@, after as int),
    ensures
        match snippet_at(html@, after as int) {
            Some(v) => res matches Some(s) && s@ == v,
            None => res is None,
        },
{
    let marker_text = ['r', 'e', 's', 'u', 'l', 't', '-', 's', 'n', 'i', 'p', 'p', 'e', 't'];
    let gt = ['>'];
    let close_text = ['<', '/', 't', 'd', '>'];
    assert(marker_text@ == snippet_marker());
    assert(gt@ == seq!['>']);
    assert(close_text@ == cell_close());
    let marker = match find_from(html, &marker_text, after) {
        Some(m) => m,
        None => {
            return None;
        },
    };
    let g = match find_from(html, &gt, marker) {
        Some(g) => g,
        None => {
            return None;
        },
    };
    let open_end = after + (g - marker);
    let close = match find_from(html, &close_text, open_end) {
        Some(c) => c,
        None => {
            return None;
        },
    };
    let text = slice_chars(html, open_end + 1, close);
    Some(clean_text(text.as_slice()))
}

// ---------------------------------------------------------------------------
// Results
// ---------------------------------------------------------------------------

/// One search result.
#[derive(Debug)]
pub struct SearchResult {
    pub title: String,
    pub url: String,
    pub snippet: String,
}

pub struct SearchResultView {
    pub title: Seq<char>,
    pub url: Seq<char>,
    pub snippet: Seq<char>,
}

impl View for SearchResult {
    type V = SearchResultView;

    open spec fn view(&self) -> SearchResultView {
        SearchResultView { title: self.title@, url: self.url@, snippet: self.snippet@ }
    }
}

pub open spec fn results_view(rs: Seq<SearchResult>) -> Seq<SearchResultView> {
    rs.map_values(|r: SearchResult| r@)
}

pub open spec fn link_marker() -> Seq<char> {
    seq!['r', 'e', 's', 'u', 'l', 't', '-', 'l', 'i', 'n', 'k']
}

pub open spec fn anchor_open() -> Seq<char> {
    seq!['<', 'a', ' ']
}

pub open spec fn anchor_close() -> Seq<char> {
    seq!['<', '/', 'a', '>']
}

pub open spec fn href() -> Seq<char> {
    seq!['h', 'r', 'e', 'f']
}

/// Where a result's parts lie, scanning from `cursor`: the next
/// `result-link`, the last `<a ` before it, that tag's end, and, when the
/// tag has an `href`, its value and the `</a>` closing the title.
pub enum Scan {
    /// Nothing more to read.
    Done,
    /// No result here; go on from the position given.
    Skip(usize),
    /// A result whose tag ends at `tag_end` and whose title closes at
    /// `body_end`, with its address.
    Found { tag_end: usize, body_end: usize, url: Seq<char> },
}

/// One step of the scan from `cursor`.
pub open spec fn scan_at(h: Seq<char>, cursor: int) -> Scan {
    match find_in(h, link_marker(), cursor) {
        None => Scan::Done,
        Some(p) => match rfind_before(h, anchor_open(), p) {
            None => Scan::Skip((p + 1) as usize),
            Some(t) => match find_in(h, seq!['>'], t) {
                None => Scan::Done,
                Some(e) => match attr_value(h.subrange(t, e), href()) {
                    None => Scan::Skip((e + 1) as usize),
                    Some(url) => match find_in(h, anchor_close(), e) {
                        None => Scan::Done,
                        Some(b) => Scan::Found { tag_end: e as usize, body_end: b as usize, url },
                    },
                },
            },
        },
    }
}

/// The result found by a step: its title between the tag and `</a>`, its
/// address, and the snippet that follows (empty when there is none).
pub open spec fn found_result(h: Seq<char>, tag_end: int, body_end: int, url: Seq<char>) -> SearchResultView {
    SearchResultView {
        title: cleaned_text(h.subrange(tag_end + 1, body_end)),
        url,
        snippet: match snippet_at(h, body_end) {
            Some(s) => s,
            None => seq![],
        },
    }
}

/// The results read from `cursor` on, `acc` already read, at most `limit`
/// in all, within `fuel` steps that go on; none when the steps run out or a
/// snippet's cell leaves no room for its text.
pub open spec fn scan_run(h: Seq<char>, limit: nat, acc: Seq<SearchResultView>, cursor: int, fuel: nat) -> Option<
    Seq<SearchResultView>,
>
    decreases fuel,
{
    if acc.len() >= limit {
        Some(acc)
    } else {
        match scan_at(h, cursor) {
            Scan::Done => Some(acc),
            Scan::Skip(c) => if fuel == 0 {
                None
            } else {
                scan_run(h, limit, acc, c as int, (fuel - 1) as nat)
            },
            Scan::Found { tag_end, body_end, url } => if snippet_fails(h, body_end as int) || fuel
                == 0 {
                None
            } else {
                scan_run(
                    h,
                    limit,
                    acc.push(found_result(h, tag_end as int, body_end as int, url)),
                    body_end + 4,
                    (fuel - 1) as nat,
                )
            },
        }
    }
}

/// The scan of a page comes to an end: it neither runs on forever (as it
/// does when a tag without an `href` sends it back to a link it read
/// before) nor meets a snippet's cell that leaves no room for its text.
pub open spec fn scan_ends(h: Seq<char>, limit: nat) -> bool {
    exists|n: nat| #[trigger] scan_run(h, limit, seq![], 0, n) is Some
}

proof fn lemma_scan_run_fuel(h: Seq<char>, limit: nat, acc: Seq<SearchResultView>, cursor: int, n: nat, m: nat)
    requires
        scan_run(h, limit, acc, cursor, n) is Some,
        n <= m,
    ensures
        scan_run(h, limit, acc, cursor, m) == scan_run(h, limit, acc, cursor, n),
    decreases n,
{
    if acc.len() < limit {
        match scan_at(h, cursor) {
            Scan::Done => {},
            Scan::Skip(c) => {
                lemma_scan_run_fuel(h, limit, acc, c as int, (n - 1) as nat, (m - 1) as nat);
            },
            Scan::Found { tag_end, body_end, url } => {
                lemma_scan_run_fuel(
                    h,
                    limit,
                    acc.push(found_result(h, tag_end as int, body_end as int, url)),
                    body_end + 4,
                    (n - 1) as nat,
                    (m - 1) as nat,
                );
            },
        }
    }
}

/// Reads up to `limit` results from a result page: each `result-link`
/// anchor gives a title and an address, and the `result-snippet` cell after
/// it the snippet.
pub fn parse(html: &str, limit: usize) -> (res: Vec<SearchResult>)
    requires
        scan_ends(html@, limit as nat),
    ensures
        forall|n: nat|
            #[trigger] scan_run(html@, limit as nat, seq![], 0, n) is Some ==> results_view(res@)
                == scan_run(html@, limit as nat, seq![], 0, n)->0,
{
    let h = chars_of(html);
    let ghost hv = html@;
    let ghost fuel0: nat = choose|n: nat| #[trigger] scan_run(hv, limit as nat, seq![], 0, n) is Some;
    let ghost answer = scan_run(hv, limit as nat, seq![], 0, fuel0)->0;
    let ghost mut fuel: nat = fuel0;
    let link = ['r', 'e', 's', 'u', 'l', 't', '-', 'l', 'i', 'n', 'k'];
    let open = ['<', 'a', ' '];
    let gt = ['>'];
    let close = ['<', '/', 'a', '>'];
    let href_name = ['h', 'r', 'e', 'f'];
    assert(link@ == link_marker());
    assert(open@ == anchor_open());
    assert(gt@ == seq!['>']);
    assert(close@ == anchor_close());
    assert(href_name@ == href());
    let total = h.len();
    let mut results: Vec<SearchResult> = Vec::new();
    let mut cursor: usize = 0;
    assert(results_view(results@) =~= Seq::<SearchResultView>::empty());
    loop
        invariant
            h@ == hv,
            hv.len() == total,
            cursor <= hv.len(),
            link@ == link_marker(),
            open@ == anchor_open(),
            gt@ == seq!['>'],
            close@ == anchor_close(),
            href_name@ == href(),
            scan_run(hv, limit as nat, results_view(results@), cursor as int, fuel) == Some(answer),
        ensures
            results_view(results@) == answer,
        decreases fuel,
    {
        if results.len() >= limit {
            break;
        }
        let link_pos = match find_from(h.as_slice(), &link, cursor) {
            Some(p) => p,
            None => {
                break;
            },
        };
        let tag_start = match rfind_within(h.as_slice(), &open, link_pos) {
            Some(t) => t,
            None => {
                cursor = link_pos + 1;
                proof {
                    fuel = (fuel - 1) as nat;
                }
                continue;
            },
        };
        let tag_end = match find_from(h.as_slice(), &gt, tag_start) {
            Some(e) => e,
            None => {
                break;
            },
        };
        let tag = slice_chars(h.as_slice(), tag_start, tag_end);
        assert(tag@ == hv.subrange(tag_start as int, tag_end as int));
        let url = match extract_attr(tag.as_slice(), &href_name) {
            Some(u) => u,
            None => {
                cursor = tag_end + 1;
                proof {
                    fuel = (fuel - 1) as nat;
                }
                continue;
            },
        };
        let body_end = match find_from(h.as_slice(), &close, tag_end) {
            Some(b) => b,
            None => {
                break;
            },
        };
        assert(hv.subrange(tag_end as int, tag_end + 1)[0] == '>');
        assert(hv[tag_end as int] == '>');
        assert(tag_end < body_end) by {
            if body_end == tag_end {
                assert(hv.subrange(body_end as int, body_end + 4)[0] == '<');
            }
        }
        let title_text = slice_chars(h.as_slice(), tag_end + 1, body_end);
        let title = clean_text(title_text.as_slice());
        let snippet = match extract_snippet(h.as_slice(), body_end) {
            Some(s) => s,
            None => String::new(),
        };
        let ghost before = results_view(results@);
        results.push(SearchResult { title, url, snippet });
        assert(results_view(results@) =~= before.push(
            found_result(hv, tag_end as int, body_end as int, url@),
        ));
        cursor = body_end + 4;
        proof {
            fuel = (fuel - 1) as nat;
        }
    }
    proof {
        assert forall|n: nat| #[trigger] scan_run(hv, limit as nat, seq![], 0, n) is Some implies results_view(
            results@,
        ) == scan_run(hv, limit as nat, seq![], 0, n)->0 by {
            if n <= fuel0 {
                lemma_scan_run_fuel(hv, limit as nat, seq![], 0, n, fuel0);
            } else {
                lemma_scan_run_fuel(hv, limit as nat, seq![], 0, fuel0, n);
            }
        }
    }
    results
}

/// Text without `&` decodes to itself.
pub proof fn law_decode_without_ampersand(t: Seq<char>, i: int)
    requires
        0 <= i <= t.len(),
        forall|j: int| 0 <= j < t.len() ==> t[j] != '&',
    ensures
        decode_from(t, i) == t.skip(i),
    decreases t.len() - i,
{
    if i < t.len() {
        assert(t.subrange(i, i + 1)[0] == t[i]);
        assert(entity_at(t, i) is None) by {
            if occurs_at(t, seq!['&', 'a', 'm', 'p', ';'], i) {
                assert(t.subrange(i, i + 5)[0] == t[i]);
            }
            if occurs_at(t, seq!['&', 'l', 't', ';'], i) {
                assert(t.subrange(i, i + 4)[0] == t[i]);
            }
            if occurs_at(t, seq!['&', 'g', 't', ';'], i) {
                assert(t.subrange(i, i + 4)[0] == t[i]);
            }
            if occurs_at(t, seq!['&', 'q', 'u', 'o', 't', ';'], i) {
                assert(t.subrange(i, i + 6)[0] == t[i]);
            }
            if occurs_at(t, seq!['&', '#', '3', '9', ';'], i) {
                assert(t.subrange(i, i + 5)[0] == t[i]);
            }
            if occurs_at(t, seq!['&', '#', 'x', '2', '7', ';'], i) {
                assert(t.subrange(i, i + 6)[0] == t[i]);
            }
            if occurs_at(t, seq!['&', 'a', 'p', 'o', 's', ';'], i) {
                assert(t.subrange(i, i + 6)[0] == t[i]);
            }
            if occurs_at(t, seq!['&', '#', 'x', '2', 'F', ';'], i) {
                assert(t.subrange(i, i + 6)[0] == t[i]);
            }
            if occurs_at(t, seq!['&', 'n', 'b', 's', 'p', ';'], i) {
                assert(t.subrange(i, i + 6)[0] == t[i]);
            }
        }
        law_decode_without_ampersand(t, i + 1);
        assert(t.skip(i) =~= seq![t[i]] + t.skip(i + 1));
    } else {
        assert(t.skip(i) =~= Seq::<char>::empty());
    }
}

proof fn lemma_scan_run_limit(h: Seq<char>, limit: nat, acc: Seq<SearchResultView>, cursor: int, n: nat)
    requires
        acc.len() <= limit,
        scan_run(h, limit, acc, cursor, n) is Some,
    ensures
        scan_run(h, limit, acc, cursor, n)->0.len() <= limit,
    decreases n,
{
    if acc.len() < limit {
        match scan_at(h, cursor) {
            Scan::Done => {},
            Scan::Skip(c) => {
                lemma_scan_run_limit(h, limit, acc, c as int, (n - 1) as nat);
            },
            Scan::Found { tag_end, body_end, url } => {
                lemma_scan_run_limit(
                    h,
                    limit,
                    acc.push(found_result(h, tag_end as int, body_end as int, url)),
                    body_end + 4,
                    (n - 1) as nat,
                );
            },
        }
    }
}

/// A page never yields more results than asked for.
pub proof fn law_parse_respects_limit(h: Seq<char>, limit: nat, n: nat)
    requires
        scan_run(h, limit, seq![], 0, n) is Some,
    ensures
        scan_run(h, limit, seq![], 0, n)->0.len() <= limit,
{
    lemma_scan_run_limit(h, limit, seq![], 0, n);
}

// ---------------------------------------------------------------------------
// Whether a scan comes to an end
// ---------------------------------------------------------------------------

proof fn lemma_find_in(h: Seq<char>, n: Seq<char>, from: int)
    requires
        from >= 0,
    ensures
        match find_in(h, n, from) {
            Some(p) => from <= p && occurs_at(h, n, p) && forall|j: int|
                from <= j < p ==> !occurs_at(h, n, j),
            None => forall|j: int| from <= j ==> !occurs_at(h, n, j),
        },
    decreases h.len() + 1 - from,
{
    if from + n.len() > h.len() {
    } else if occurs_at(h, n, from) {
    } else {
        lemma_find_in(h, n, from + 1);
    }
}

proof fn lemma_rfind_from(h: Seq<char>, n: Seq<char>, i: int)
    ensures
        match rfind_from(h, n, i) {
            Some(t) => 0 <= t <= i && occurs_at(h, n, t) && forall|j: int|
                t < j <= i ==> !occurs_at(h, n, j),
            None => forall|j: int| j <= i ==> !occurs_at(h, n, j),
        },
    decreases i + 1,
{
    if i >= 0 && !occurs_at(h, n, i) {
        lemma_rfind_from(h, n, i - 1);
    }
}

proof fn lemma_rfind_is(h: Seq<char>, n: Seq<char>, t: int, i: int)
    requires
        0 <= t <= i,
        occurs_at(h, n, t),
        forall|j: int| t < j <= i ==> !occurs_at(h, n, j),
    ensures
        rfind_from(h, n, i) == Some(t),
    decreases i - t,
{
    if i > t {
        lemma_rfind_is(h, n, t, i - 1);
    }
}

/// A step that skips a tag without an address back to a position not past
/// the cursor lands on a position from which the same step repeats.
proof fn lemma_stuck(h: Seq<char>, c: int)
    requires
        0 <= c,
        find_in(h, link_marker(), c) matches Some(p) && rfind_before(h, anchor_open(), p) matches Some(
            t,
        ) && find_in(h, seq!['>'], t) matches Some(e) && attr_value(h.subrange(t, e), href())
            is None && e + 1 <= c,
    ensures
        ({
            let p = find_in(h, link_marker(), c)->0;
            let t = rfind_before(h, anchor_open(), p)->0;
            let e = find_in(h, seq!['>'], t)->0;
            scan_at(h, e + 1) == Scan::Skip((e + 1) as usize)
        }),
{
    let p = find_in(h, link_marker(), c)->0;
    let t = rfind_before(h, anchor_open(), p)->0;
    let e = find_in(h, seq!['>'], t)->0;
    let c2 = e + 1;
    lemma_find_in(h, link_marker(), c);
    lemma_rfind_from(h, anchor_open(), p - 3);
    lemma_find_in(h, seq!['>'], t);
    assert(h.subrange(t, t + 3) == anchor_open());
    assert(h.subrange(e, e + 1) == seq!['>']);
    assert(h[e] == '>') by {
        assert(h.subrange(e, e + 1)[0] == h[e]);
    }
    assert(e >= t + 3) by {
        if e < t + 3 {
            assert(h.subrange(t, t + 3)[e - t] == h[e]);
        }
    }
    lemma_find_in(h, link_marker(), c2);
    let p2 = find_in(h, link_marker(), c2)->0;
    assert(find_in(h, link_marker(), c2) is Some);
    assert(p2 <= p);
    assert(t <= p2 - 3);
    lemma_rfind_is(h, anchor_open(), t, p2 - 3);
    assert(rfind_before(h, anchor_open(), p2) == Some(t));
}

proof fn lemma_stuck_runs_forever(h: Seq<char>, limit: nat, acc: Seq<SearchResultView>, c: usize, n: nat)
    requires
        acc.len() < limit,
        scan_at(h, c as int) == Scan::Skip(c),
    ensures
        scan_run(h, limit, acc, c as int, n) is None,
    decreases n,
{
    if n > 0 {
        lemma_stuck_runs_forever(h, limit, acc, c, (n - 1) as nat);
    }
}

/// Whether the snippet's cell after `after` leaves no room for its text.
fn snippet_would_fail(html: &[char], after: usize) -> (res: bool)
    requires
        after <= html@.len(),
    ensures
        res == snippet_fails(html@, after as int),
{
    let marker_text = ['r', 'e', 's', 'u', 'l', 't', '-', 's', 'n', 'i', 'p', 'p', 'e', 't'];
    let gt = ['>'];
    let close_text = ['<', '/', 't', 'd', '>'];
    assert(marker_text@ == snippet_marker());
    assert(gt@ == seq!['>']);
    assert(close_text@ == cell_close());
    let marker = match find_from(html, &marker_text, after) {
        Some(m) => m,
        None => {
            return false;
        },
    };
    let g = match find_from(html, &gt, marker) {
        Some(g) => g,
        None => {
            return false;
        },
    };
    let open_end = after + (g - marker);
    match find_from(html, &close_text, open_end) {
        Some(close) => close < open_end + 1,
        None => false,
    }
}

/// Whether scanning the page for up to `limit` results comes to an end, as
/// `parse` asks.
pub fn scan_ends_on(html: &str, limit: usize) -> (res: bool)
    ensures
        res == scan_ends(html@, limit as nat),
{
    let h = chars_of(html);
    let ghost hv = html@;
    let ghost lim = limit as nat;
    let link = ['r', 'e', 's', 'u', 'l', 't', '-', 'l', 'i', 'n', 'k'];
    let open = ['<', 'a', ' '];
    let gt = ['>'];
    let close = ['<', '/', 'a', '>'];
    let href_name = ['h', 'r', 'e', 'f'];
    assert(link@ == link_marker());
    assert(open@ == anchor_open());
    assert(gt@ == seq!['>']);
    assert(close@ == anchor_close());
    assert(href_name@ == href());
    let total = h.len();
    let mut count: usize = 0;
    let ghost mut acc: Seq<SearchResultView> = seq![];
    let mut cursor: usize = 0;
    loop
        invariant
            h@ == hv,
            hv == html@,
            hv.len() == total,
            cursor <= total,
            count == acc.len(),
            count <= limit,
            lim == limit as nat,
            link@ == link_marker(),
            open@ == anchor_open(),
            gt@ == seq!['>'],
            close@ == anchor_close(),
            href_name@ == href(),
            scan_ends(hv, lim) == (exists|n: nat| #[trigger] scan_run(hv, lim, acc, cursor as int, n) is Some),
        decreases limit - count, total + 1 - cursor,
    {
        let ghost state_acc = acc;
        let ghost state_cursor = cursor as int;
        if count >= limit {
            assert(scan_run(hv, lim, acc, cursor as int, 0) is Some);
            return true;
        }
        let link_pos = match find_from(h.as_slice(), &link, cursor) {
            Some(p) => p,
            None => {
                assert(scan_run(hv, lim, acc, cursor as int, 0) is Some);
                return true;
            },
        };
        let tag_start = match rfind_within(h.as_slice(), &open, link_pos) {
            Some(t) => t,
            None => {
                let next = link_pos + 1;
                proof {
                    assert forall|n: nat| #[trigger] scan_run(hv, lim, acc, state_cursor, n + 1)
                        == scan_run(hv, lim, acc, next as int, n) by {}
                    if exists|n: nat| #[trigger] scan_run(hv, lim, acc, state_cursor, n) is Some {
                        let n = choose|n: nat| #[trigger] scan_run(hv, lim, acc, state_cursor, n) is Some;
                        assert(scan_run(hv, lim, acc, state_cursor, ((n - 1) as nat) + 1) is Some);
                    }
                    if exists|n: nat| #[trigger] scan_run(hv, lim, acc, next as int, n) is Some {
                        let n = choose|n: nat| #[trigger] scan_run(hv, lim, acc, next as int, n) is Some;
                        assert(scan_run(hv, lim, acc, state_cursor, n + 1) is Some);
                    }
                }
                cursor = next;
                continue;
            },
        };
        let tag_end = match find_from(h.as_slice(), &gt, tag_start) {
            Some(e) => e,
            None => {
                assert(scan_run(hv, lim, acc, cursor as int, 0) is Some);
                return true;
            },
        };
        let tag = slice_chars(h.as_slice(), tag_start, tag_end);
        assert(tag@ == hv.subrange(tag_start as int, tag_end as int));
        let url = match extract_attr(tag.as_slice(), &href_name) {
            Some(u) => u,
            None => {
                if tag_end + 1 <= cursor {
                    proof {
                        lemma_stuck(hv, cursor as int);
                        assert forall|n: nat| #[trigger] scan_run(hv, lim, acc, state_cursor, n)
                            is None by {
                            lemma_stuck_runs_forever(hv, lim, acc, (tag_end + 1) as usize, n);
                            if n > 0 {
                                lemma_stuck_runs_forever(hv, lim, acc, (tag_end + 1) as usize, (n - 1) as nat);
                            }
                        }
                    }
                    return false;
                }
                let next = tag_end + 1;
                proof {
                    assert forall|n: nat| #[trigger] scan_run(hv, lim, acc, state_cursor, n + 1)
                        == scan_run(hv, lim, acc, next as int, n) by {}
                    if exists|n: nat| #[trigger] scan_run(hv, lim, acc, state_cursor, n) is Some {
                        let n = choose|n: nat| #[trigger] scan_run(hv, lim, acc, state_cursor, n) is Some;
                        assert(scan_run(hv, lim, acc, state_cursor, ((n - 1) as nat) + 1) is Some);
                    }
                    if exists|n: nat| #[trigger] scan_run(hv, lim, acc, next as int, n) is Some {
                        let n = choose|n: nat| #[trigger] scan_run(hv, lim, acc, next as int, n) is Some;
                        assert(scan_run(hv, lim, acc, state_cursor, n + 1) is Some);
                    }
                }
                cursor = next;
                continue;
            },
        };
        let body_end = match find_from(h.as_slice(), &close, tag_end) {
            Some(b) => b,
            None => {
                assert(scan_run(hv, lim, acc, cursor as int, 0) is Some);
                return true;
            },
        };
        if snippet_would_fail(h.as_slice(), body_end) {
            proof {
                assert forall|n: nat| #[trigger] scan_run(hv, lim, acc, state_cursor, n) is None by {}
            }
            return false;
        }
        let ghost found = found_result(hv, tag_end as int, body_end as int, url@);
        let next = body_end + 4;
        proof {
            let acc2 = acc.push(found);
            assert forall|n: nat| #[trigger] scan_run(hv, lim, acc, state_cursor, n + 1)
                == scan_run(hv, lim, acc2, next as int, n) by {}
            if exists|n: nat| #[trigger] scan_run(hv, lim, acc, state_cursor, n) is Some {
                let n = choose|n: nat| #[trigger] scan_run(hv, lim, acc, state_cursor, n) is Some;
                assert(scan_run(hv, lim, acc, state_cursor, ((n - 1) as nat) + 1) is Some);
            }
            if exists|n: nat| #[trigger] scan_run(hv, lim, acc2, next as int, n) is Some {
                let n = choose|n: nat| #[trigger] scan_run(hv, lim, acc2, next as int, n) is Some;
                assert(scan_run(hv, lim, acc, state_cursor, n + 1) is Some);
            }
            acc = acc2;
        }
        count = count + 1;
        cursor = next;
    }
}


proof fn lemma_find_is(h: Seq<char>, n: Seq<char>, from: int, p: int)
    requires
        0 <= from <= p,
        occurs_at(h, n, p),
        forall|j: int| from <= j < p ==> !occurs_at(h, n, j),
    ensures
        find_in(h, n, from) == Some(p),
    decreases p - from,
{
    if from < p {
        assert(!occurs_at(h, n, from));
        lemma_find_is(h, n, from + 1, p);
    }
}

/// A `result-link` with no `<a ` anywhere before it is passed over and the
/// scan goes on just past it: reading from the cursor gives the same results
/// as reading from the character after that marker.
pub proof fn law_link_without_anchor_is_skipped(
    h: Seq<char>,
    limit: nat,
    acc: Seq<SearchResultView>,
    cursor: int,
    p: int,
    n: nat,
)
    requires
        h.len() <= usize::MAX,
        0 <= cursor <= p,
        occurs_at(h, link_marker(), p),
        forall|j: int| cursor <= j < p ==> !occurs_at(h, link_marker(), j),
        forall|j: int| 0 <= j && j + 3 <= p ==> !occurs_at(h, anchor_open(), j),
    ensures
        scan_run(h, limit, acc, cursor, n + 1) == scan_run(h, limit, acc, p + 1, n),
{
    lemma_find_is(h, link_marker(), cursor, p);
    lemma_rfind_from(h, anchor_open(), p - 3);
    assert(rfind_before(h, anchor_open(), p) is None) by {
        if rfind_from(h, anchor_open(), p - 3) is Some {
            let t = rfind_from(h, anchor_open(), p - 3)->0;
            assert(occurs_at(h, anchor_open(), t));
        }
    }
    assert(scan_at(h, cursor) == Scan::Skip((p + 1) as usize));
    if acc.len() >= limit {
        assert(scan_run(h, limit, acc, p + 1, n) == Some(acc));
    }
}

/// A well-formed result link gives a result: when the next `result-link`
/// from the cursor follows an `<a ` tag with an `href`, closed by `</a>`,
/// the result with that tag's title, address and snippet is added and the
/// scan goes on after the `</a>`.
pub proof fn law_link_with_anchor_gives_result(
    h: Seq<char>,
    limit: nat,
    acc: Seq<SearchResultView>,
    cursor: int,
    p: int,
    t: int,
    e: int,
    b: int,
    url: Seq<char>,
    n: nat,
)
    requires
        h.len() <= usize::MAX,
        acc.len() < limit,
        0 <= cursor <= p,
        occurs_at(h, link_marker(), p),
        forall|j: int| cursor <= j < p ==> !occurs_at(h, link_marker(), j),
        0 <= t,
        t + 3 <= p,
        occurs_at(h, anchor_open(), t),
        forall|j: int| t < j && j + 3 <= p ==> !occurs_at(h, anchor_open(), j),
        t <= e,
        h[e] == '>',
        forall|j: int| t <= j < e ==> h[j] != '>',
        attr_value(h.subrange(t, e), href()) == Some(url),
        e <= b,
        occurs_at(h, anchor_close(), b),
        forall|j: int| e <= j < b ==> !occurs_at(h, anchor_close(), j),
        !snippet_fails(h, b),
    ensures
        scan_run(h, limit, acc, cursor, n + 1) == scan_run(
            h,
            limit,
            acc.push(found_result(h, e, b, url)),
            b + 4,
            n,
        ),
{
    lemma_find_is(h, link_marker(), cursor, p);
    lemma_rfind_is(h, anchor_open(), t, p - 3);
    assert(occurs_at(h, seq!['>'], e)) by {
        assert(h.subrange(e, e + 1) =~= seq!['>']);
    }
    assert forall|j: int| t <= j < e implies !occurs_at(h, seq!['>'], j) by {
        if occurs_at(h, seq!['>'], j) {
            assert(h.subrange(j, j + 1)[0] == h[j]);
        }
    }
    lemma_find_is(h, seq!['>'], t, e);
    lemma_find_is(h, anchor_close(), e, b);
    assert(scan_at(h, cursor) == Scan::Found { tag_end: e as usize, body_end: b as usize, url });
}

} // verus!
