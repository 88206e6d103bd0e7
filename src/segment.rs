use vstd::prelude::*;

verus! {

/// A terminal color: an index into the 256-color palette.
#[derive(Clone, Copy, Debug, PartialEq, Eq, Structural)]
pub struct Color(pub u8);

/// What a segment shows, as mathematical values.
pub struct SegmentView {
    pub text: Seq<char>,
    pub fg: Color,
    pub bg: Color,
}

/// One chunk of the rendered prompt: a text with its foreground and background.
#[derive(Clone, Debug)]
pub struct Segment {
    pub text: String,
    pub fg: Color,
    pub bg: Color,
}

impl View for Segment {
    type V = SegmentView;

    open spec fn view(&self) -> SegmentView {
        SegmentView { text: self.text@, fg: self.fg, bg: self.bg }
    }
}

/// The views of a sequence of segments, in order.
pub open spec fn seg_views(s: Seq<Segment>) -> Seq<SegmentView> {
    s.map_values(|x: Segment| x@)
}

impl Segment {
    /// A segment with the given text and colors.
    pub fn simple(text: String, fg: Color, bg: Color) -> (r: Segment)
        ensures
            r@ == (SegmentView { text: text@, fg, bg }),
    {
        Segment { text, fg, bg }
    }

    /// A copy of this segment.
    pub fn duplicate(&self) -> (r: Segment)
        ensures
            r@ == self@,
    {
        Segment { text: self.text.clone(), fg: self.fg, bg: self.bg }
    }
}

} // verus!
