use tiny::web_search::{
    clean_text, decode_entities, extract_attr, extract_snippet, find_from, parse, scan_ends_on,
    SearchResult,
};

fn chars(s: &str) -> Vec<char> {
    s.chars().collect()
}

const PAGE: &str = "<table><tr><td><a rel=\"nofollow\" href=\"https://example.com/a?x=1&amp;y=2\" class='result-link'>Example &amp; <b>Co</b></a></td></tr>\n<tr><td class='result-snippet'>First   snippet\n text</td></tr>\n<tr><td><a href='https://b.test/' class='result-link'>Second</a></td></tr></table>";

#[test]
fn parses_results_in_order() {
    let results: Vec<SearchResult> = parse(PAGE, 10);
    assert_eq!(results.len(), 2);
    assert_eq!(results[0].title, "Example & Co");
    assert_eq!(results[0].url, "https://example.com/a?x=1&y=2");
    // The snippet's text is taken from the end of the title onward by the
    // marker's distance to its `>`, so part of the markup before it shows.
    assert_eq!(results[0].snippet, "trFirst snippet text");
    assert_eq!(results[1].title, "Second");
    assert_eq!(results[1].url, "https://b.test/");
    assert_eq!(results[1].snippet, "");
}

#[test]
fn parse_stops_at_the_limit() {
    let results = parse(PAGE, 1);
    assert_eq!(results.len(), 1);
    assert!(parse(PAGE, 0).is_empty());
}

#[test]
fn parse_of_a_page_without_results_is_empty() {
    assert!(parse("<html><body>nothing here</body></html>", 5).is_empty());
}

#[test]
fn snippet_is_read_from_the_marker_distance_after_the_title() {
    // The cell's text starts where the distance from the marker to its `>`
    // lands when counted from the end of the title.
    let page = "<a href=\"u\" class=\"result-link\">T</a>result-snippet>abc</td>";
    let results = parse(page, 5);
    assert_eq!(results.len(), 1);
    assert_eq!(results[0].snippet, "petabc");
}

#[test]
fn decodes_the_entities_of_the_page() {
    assert_eq!(
        decode_entities("a &amp; b &lt;c&gt; &quot;d&quot; &#39;e&#x27; &apos;f&#x2F; g&nbsp;h &unknown;"),
        "a & b <c> \"d\" 'e' 'f/ g h &unknown;"
    );
}

#[test]
fn clean_text_drops_tags_and_squeezes_spaces() {
    assert_eq!(clean_text(&chars("  <b>bold</b>\n and   <i>more</i>  ")), "bold and more");
    assert_eq!(clean_text(&chars("")), "");
    assert_eq!(clean_text(&chars("1 &lt; 2")), "1 < 2");
}

#[test]
fn attributes_need_quotes() {
    assert_eq!(extract_attr(&chars("<a href=\"x\""), &chars("href")), Some("x".to_string()));
    assert_eq!(extract_attr(&chars("<a href='y'"), &chars("href")), Some("y".to_string()));
    assert_eq!(extract_attr(&chars("<a href=z"), &chars("href")), None);
    assert_eq!(extract_attr(&chars("<a href=\"open"), &chars("href")), None);
    assert_eq!(extract_attr(&chars("<a class=\"c\""), &chars("href")), None);
}

#[test]
fn find_from_searches_at_or_after_the_start() {
    let h = chars("abcabc");
    assert_eq!(find_from(&h, &chars("bc"), 0), Some(1));
    assert_eq!(find_from(&h, &chars("bc"), 2), Some(4));
    assert_eq!(find_from(&h, &chars("bc"), 5), None);
    assert_eq!(find_from(&h, &chars(""), 6), Some(6));
}

#[test]
fn scan_ends_on_ordinary_pages() {
    assert!(scan_ends_on(PAGE, 10));
    assert!(scan_ends_on("", 3));
}

#[test]
fn scan_never_ends_when_a_tag_without_address_sends_it_back() {
    assert!(!scan_ends_on("<a x>result-link", 3));
    // With no result asked for, the scan ends at once.
    assert!(scan_ends_on("<a x>result-link", 0));
}

#[test]
fn scan_fails_when_a_snippet_cell_leaves_no_room() {
    let page = "<a href='u'>result-link</a>0123456789</td>result-snippet>x</td>";
    assert!(!scan_ends_on(page, 3));
}

#[test]
fn snippet_follows_the_title() {
    let page = chars("</a>xxxxxxxxxxxxxxxxxxxxresult-snippet>abc</td>");
    assert_eq!(extract_snippet(&page, 0), Some("xxxxxxxxxresult-snippetabc".to_string()));
    assert_eq!(extract_snippet(&chars("no marker"), 0), None);
}

#[test]
fn text_without_entities_is_unchanged() {
    assert_eq!(decode_entities("plain; text #39"), "plain; text #39");
}
