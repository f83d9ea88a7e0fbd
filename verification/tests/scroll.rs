use tiny::tui::scroll::ScrollState;

#[test]
fn follows_tail_as_content_grows() {
    let mut scroll = ScrollState::following_tail();

    scroll.set_content_size(10, 30);

    assert_eq!(scroll.offset, 20);
    assert!(scroll.follow_tail);
}

#[test]
fn manual_scroll_disables_tail_following_until_bottom() {
    let mut scroll = ScrollState::following_tail();
    scroll.set_content_size(10, 30);

    scroll.scroll_by(-5);
    assert_eq!(scroll.offset, 15);
    assert!(!scroll.follow_tail);

    scroll.scroll_by(99);
    assert_eq!(scroll.offset, 20);
    assert!(scroll.follow_tail);
}

#[test]
fn scrolling_up_then_down_returns_to_the_same_offset() {
    let mut scroll = ScrollState::following_tail();
    scroll.set_content_size(10, 30);
    scroll.scroll_by(-7);
    let offset = scroll.offset;
    scroll.scroll_by(-3);
    scroll.scroll_by(3);
    assert_eq!(scroll.offset, offset);
}

#[test]
fn short_content_never_scrolls() {
    let mut scroll = ScrollState::following_tail();
    scroll.set_content_size(10, 4);
    assert_eq!(scroll.max_offset(), 0);
    scroll.scroll_by(-5);
    assert_eq!(scroll.offset, 0);
    assert!(!scroll.follow_tail);
    scroll.scroll_by(0);
    assert!(scroll.follow_tail);
}
