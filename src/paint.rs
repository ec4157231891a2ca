//! Paint operations: what a surface is asked to do, as plain values that a
//! terminal backend replays in order.
use vstd::prelude::*;

verus! {

/// Opacity of one color channel.
#[derive(Clone, Copy, Debug, PartialEq, Eq, Structural)]
pub enum Alpha {
    Opaque,
    Transparent,
}

/// One color channel: a 24-bit RGB value and its opacity.
#[derive(Clone, Copy, Debug, PartialEq, Eq, Structural)]
pub struct Channel {
    pub rgb: u32,
    pub alpha: Alpha,
}

/// A foreground/background channel pair.
#[derive(Clone, Copy, Debug, PartialEq, Eq, Structural)]
pub struct Channels {
    pub fg: Channel,
    pub bg: Channel,
}

/// One step of painting a surface. Positions are cells relative to the surface.
#[derive(Debug, PartialEq, Eq)]
pub enum PaintOp {
    /// Clear every cell back to the surface's base.
    Erase,
    /// Set the foreground color (opaque).
    Fg(u32),
    /// Set the background color (opaque).
    Bg(u32),
    /// Set both channels, opacity included.
    SetChannels(Channels),
    /// Remember the current foreground.
    SaveFg,
    /// Return to the remembered foreground.
    RestoreFg,
    /// Remember the current background.
    SaveBg,
    /// Return to the remembered background.
    RestoreBg,
    /// Switch bold text on or off.
    Bold(bool),
    /// Write one glyph at a cell.
    GlyphAt(u32, u32, char),
    /// Write a run of blank cells, starting at a cell and going right.
    Blank(u32, u32, u32),
    /// Write text starting at a cell.
    TextAt(u32, u32, String),
    /// Write text where the cursor stands.
    Text(String),
}

/// A paint operation with its text seen as characters.
pub enum PaintView {
    Erase,
    Fg(u32),
    Bg(u32),
    SetChannels(Channels),
    SaveFg,
    RestoreFg,
    SaveBg,
    RestoreBg,
    Bold(bool),
    GlyphAt(u32, u32, char),
    Blank(u32, u32, u32),
    TextAt(u32, u32, Seq<char>),
    Text(Seq<char>),
}

impl View for PaintOp {
    type V = PaintView;

    open spec fn view(&self) -> PaintView {
        match self {
            PaintOp::Erase => PaintView::Erase,
            PaintOp::Fg(c) => PaintView::Fg(*c),
            PaintOp::Bg(c) => PaintView::Bg(*c),
            PaintOp::SetChannels(ch) => PaintView::SetChannels(*ch),
            PaintOp::SaveFg => PaintView::SaveFg,
            PaintOp::RestoreFg => PaintView::RestoreFg,
            PaintOp::SaveBg => PaintView::SaveBg,
            PaintOp::RestoreBg => PaintView::RestoreBg,
            PaintOp::Bold(b) => PaintView::Bold(*b),
            PaintOp::GlyphAt(x, y, c) => PaintView::GlyphAt(*x, *y, *c),
            PaintOp::Blank(x, y, n) => PaintView::Blank(*x, *y, *n),
            PaintOp::TextAt(x, y, t) => PaintView::TextAt(*x, *y, t@),
            PaintOp::Text(t) => PaintView::Text(t@),
        }
    }
}

/// The operations of a list, seen as characters.
pub open spec fn ops_view(ops: Seq<PaintOp>) -> Seq<PaintView> {
    ops.map_values(|o: PaintOp| o@)
}

pub proof fn lemma_ops_view_push(ops: Seq<PaintOp>, o: PaintOp)
    ensures
        ops_view(ops.push(o)) == ops_view(ops).push(o@),
{
    assert(ops_view(ops.push(o)) =~= ops_view(ops).push(o@));
}

/// Appends one operation.
pub fn push_op(ops: &mut Vec<PaintOp>, o: PaintOp)
    ensures
        ops_view(final(ops)@) == ops_view(old(ops)@).push(o@),
{
    proof {
        lemma_ops_view_push(old(ops)@, o);
    }
    ops.push(o);
}

/// The colors that the frame, the list and the shadow are drawn with.
#[derive(Clone, Copy, Debug, PartialEq, Eq, Structural)]
pub struct Palette {
    /// Background of the whole screen.
    pub screen_bg: u32,
    /// Default foreground of text.
    pub text_fg: u32,
    /// Background of a dialog's content.
    pub content_bg: u32,
    /// Foreground of the frame's left and top edges.
    pub frame_fg: u32,
    /// Background of the frame.
    pub frame_bg: u32,
    /// Foreground of the frame's right and bottom edges.
    pub frame_fg_far: u32,
    /// Background of the highlighted row.
    pub selected_bg: u32,
    /// Foreground of the running marker.
    pub marker_fg: u32,
    /// Color of the drop shadow.
    pub shadow: u32,
}

pub const DARK_BLUE_0: u32 = 0x173f4f;
pub const DARK_BLUE_1: u32 = 0x2f5361;
pub const DARK_BLUE_2: u32 = 0x516f7b;
pub const CYAN_0: u32 = 0x35b9ab;
pub const DARK_CYAN_4: u32 = 0xbfe8e1;
pub const ALERT_RED: u32 = 0xff0000;

impl Palette {
    /// The openSUSE color scheme.
    pub fn opensuse() -> (r: Palette)
        ensures
            r.screen_bg == DARK_BLUE_0,
            r.text_fg == CYAN_0,
            r.content_bg == DARK_BLUE_1,
            r.frame_fg == DARK_CYAN_4,
            r.frame_bg == DARK_BLUE_1,
            r.frame_fg_far == 0,
            r.selected_bg == DARK_BLUE_2,
            r.marker_fg == ALERT_RED,
            r.shadow == 1,
    {
        Palette {
            screen_bg: DARK_BLUE_0,
            text_fg: CYAN_0,
            content_bg: DARK_BLUE_1,
            frame_fg: DARK_CYAN_4,
            frame_bg: DARK_BLUE_1,
            frame_fg_far: 0,
            selected_bg: DARK_BLUE_2,
            marker_fg: ALERT_RED,
            shadow: 1,
        }
    }
}

} // verus!
