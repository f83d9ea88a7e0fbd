//! Vertical scrolling of content taller than its viewport, optionally
//! following the tail as content grows.
use vstd::prelude::*;

verus! {

pub struct ScrollState {
    pub offset: u16,
    pub follow_tail: bool,
    pub viewport_height: u16,
    pub content_height: u16,
}

/// A scroll state as values.
pub struct ScrollView {
    pub offset: u16,
    pub follow_tail: bool,
    pub viewport: u16,
    pub content: u16,
}

impl View for ScrollState {
    type V = ScrollView;

    open spec fn view(&self) -> ScrollView {
        ScrollView {
            offset: self.offset,
            follow_tail: self.follow_tail,
            viewport: self.viewport_height,
            content: self.content_height,
        }
    }
}

/// How far the content can scroll: the part of it below one viewport.
pub open spec fn max_of(v: ScrollView) -> u16 {
    if v.content > v.viewport {
        (v.content - v.viewport) as u16
    } else {
        0
    }
}

/// The offset stays within the content, and following the tail means sitting
/// at the bottom.
pub open spec fn settled(v: ScrollView) -> bool {
    &&& v.offset <= max_of(v)
    &&& v.follow_tail ==> v.offset == max_of(v)
}

pub open spec fn spec_scroll_to_bottom(v: ScrollView) -> ScrollView {
    ScrollView { offset: max_of(v), follow_tail: true, ..v }
}

pub open spec fn spec_clamp(v: ScrollView) -> ScrollView {
    let offset = if v.offset <= max_of(v) {
        v.offset
    } else {
        max_of(v)
    };
    ScrollView { offset, follow_tail: v.follow_tail || offset == max_of(v), ..v }
}

pub open spec fn spec_adjust(v: ScrollView) -> ScrollView {
    if v.follow_tail {
        spec_scroll_to_bottom(v)
    } else {
        spec_clamp(v)
    }
}

pub open spec fn spec_set_content_size(v: ScrollView, viewport: u16, content: u16) -> ScrollView {
    spec_adjust(ScrollView { viewport, content, ..v })
}

pub open spec fn spec_content_changed(v: ScrollView) -> ScrollView {
    if v.follow_tail {
        spec_scroll_to_bottom(v)
    } else {
        v
    }
}

pub open spec fn spec_follow_tail(v: ScrollView) -> ScrollView {
    spec_scroll_to_bottom(v)
}

/// Scrolling up saturates at the top and stops following the tail;
/// scrolling down saturates, is clamped, and follows again at the bottom.
pub open spec fn spec_scroll_by(v: ScrollView, delta: i16) -> ScrollView {
    if delta < 0 {
        let up = v.offset + delta;
        ScrollView {
            offset: if up >= 0 {
                up as u16
            } else {
                0
            },
            follow_tail: false,
            ..v
        }
    } else {
        let down = v.offset + delta;
        spec_clamp(
            ScrollView {
                offset: if down <= u16::MAX {
                    down as u16
                } else {
                    u16::MAX
                },
                ..v
            },
        )
    }
}

impl ScrollState {
    /// A scroll state with nothing to show yet, following the tail.
    pub fn following_tail() -> (res: Self)
        ensures
            res@ == (ScrollView { offset: 0, follow_tail: true, viewport: 0, content: 0 }),
    {
        ScrollState { offset: 0, follow_tail: true, viewport_height: 0, content_height: 0 }
    }

    /// Records new sizes; the offset then follows the tail or is clamped.
    pub fn set_content_size(&mut self, viewport_height: u16, content_height: u16)
        ensures
            final(self)@ == spec_set_content_size(old(self)@, viewport_height, content_height),
    {
        self.viewport_height = viewport_height;
        self.content_height = content_height;
        self.adjust_to_content();
    }

    /// New content arrived: jump to the bottom when following the tail.
    pub fn content_changed(&mut self)
        ensures
            final(self)@ == spec_content_changed(old(self)@),
    {
        if self.follow_tail {
            self.scroll_to_bottom();
        }
    }

    /// Starts following the tail, at the bottom.
    pub fn follow_tail(&mut self)
        ensures
            final(self)@ == spec_follow_tail(old(self)@),
    {
        self.follow_tail = true;
        self.scroll_to_bottom();
    }

    /// Scrolls up (negative) or down (positive).
    pub fn scroll_by(&mut self, delta: i16)
        ensures
            final(self)@ == spec_scroll_by(old(self)@, delta),
    {
        if delta < 0 {
            let up: u16 = if delta == i16::MIN {
                32768
            } else {
                (-delta) as u16
            };
            self.offset = self.offset.saturating_sub(up);
            self.follow_tail = false;
        } else {
            self.offset = self.offset.saturating_add(delta as u16);
            self.clamp();
        }
    }

    /// Follows the tail when asked to, else clamps the offset.
    pub fn adjust_to_content(&mut self)
        ensures
            final(self)@ == spec_adjust(old(self)@),
    {
        if self.follow_tail {
            self.scroll_to_bottom();
        } else {
            self.clamp();
        }
    }

    /// Jumps to the bottom and follows the tail.
    pub fn scroll_to_bottom(&mut self)
        ensures
            final(self)@ == spec_scroll_to_bottom(old(self)@),
    {
        self.offset = self.max_offset();
        self.follow_tail = true;
    }

    /// Keeps the offset within the content; reaching the bottom resumes
    /// following the tail.
    pub fn clamp(&mut self)
        ensures
            final(self)@ == spec_clamp(old(self)@),
    {
        let max = self.max_offset();
        self.offset = if self.offset < max {
            self.offset
        } else {
            max
        };
        if self.offset == max {
            self.follow_tail = true;
        }
    }

    /// How far the content can scroll.
    pub fn max_offset(&self) -> (res: u16)
        ensures
            res == max_of(self@),
    {
        self.content_height.saturating_sub(self.viewport_height)
    }
}

/// Every operation keeps a scroll state settled: within the content, and at
/// the bottom whenever it follows the tail. Resizing settles any state.
pub proof fn law_scroll_stays_settled(v: ScrollView, delta: i16, viewport: u16, content: u16)
    requires
        settled(v),
    ensures
        settled(spec_scroll_by(v, delta)),
        settled(spec_content_changed(v)),
        settled(spec_follow_tail(v)),
        settled(spec_set_content_size(v, viewport, content)),
{
}

/// Resizing always leaves a settled state, whatever came before.
pub proof fn law_resize_settles(v: ScrollView, viewport: u16, content: u16)
    ensures
        settled(spec_set_content_size(v, viewport, content)),
{
}

/// Scrolling up then back down by the same amount, within the content,
/// returns to the same offset.
pub proof fn law_scroll_up_then_down(v: ScrollView, n: i16)
    requires
        settled(v),
        0 < n,
        n <= v.offset,
    ensures
        spec_scroll_by(spec_scroll_by(v, -n as i16), n).offset == v.offset,
{
}

} // verus!
