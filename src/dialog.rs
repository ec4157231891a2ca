//! Dialogs: a framed surface and a content surface inset within it.
use vstd::prelude::*;
use vstd::string::StrSliceExecFns;
use crate::border::{border_spec, draw_borders, frame_fits};
use crate::paint::{ops_view, push_op, Alpha, Channel, Channels, Palette, PaintOp, PaintView};

verus! {

/// A rectangle of cells: its top-left corner relative to the parent, and its size.
#[derive(Clone, Copy, Debug, PartialEq, Eq, Structural)]
pub struct Rect {
    pub x: i32,
    pub y: i32,
    pub w: u32,
    pub h: u32,
}

/// Why a dialog could not be laid out.
#[derive(Clone, Copy, Debug, PartialEq, Eq, Structural)]
pub enum DialogError {
    /// The dialog does not fit the parent surface or the coordinate range.
    DoesNotFit,
}

/// A frame surface and a content surface, both children of one parent. The
/// frame is painted once, when the dialog is made; the content holds what the
/// dialog shows.
#[derive(Debug)]
pub struct Dialog {
    pub title: String,
    pub frame: Rect,
    pub has_shadow: bool,
    pub content: Rect,
    /// Base colors of the content surface.
    pub content_base: Channels,
    /// Whether writes past the content's right edge go on on the next row.
    pub content_scrolling: bool,
    pub frame_ops: Vec<PaintOp>,
    pub content_ops: Vec<PaintOp>,
}

/// The base colors of a dialog's content.
pub open spec fn content_channels(p: Palette) -> Channels {
    Channels {
        fg: Channel { rgb: p.text_fg, alpha: Alpha::Opaque },
        bg: Channel { rgb: p.content_bg, alpha: Alpha::Opaque },
    }
}

/// Columns that a sized dialog's frame and shadow take from the content.
pub open spec fn sized_margin(shadow: bool) -> u32 {
    if shadow { 4 } else { 3 }
}

/// Whether a dialog of `w` by `h` cells at `(x, y)` can be laid out.
pub open spec fn sized_fits(w: u32, h: u32, x: i32, y: i32, shadow: bool) -> bool {
    w >= sized_margin(shadow) && h >= 3 && x < i32::MAX && y < i32::MAX
}

/// Column of a centered single line of `n` characters in a parent `pw` wide.
pub open spec fn centered_x(pw: u32, n: nat) -> int {
    pw / 2 - n / 2
}

/// Whether a single line of `n` characters can be framed in the middle of a
/// parent of `pw` by `ph` cells.
pub open spec fn centered_fits(pw: u32, ph: u32, n: nat, shadow: bool) -> bool {
    &&& n + 4 <= u32::MAX
    &&& centered_x(pw, n) >= 1
    &&& ph / 2 >= 1
    &&& frame_fits((n + if shadow { 4int } else { 2 }) as u32, if shadow { 4 } else { 3 }, shadow)
}

impl Dialog {
    /// The frame fits its surface.
    pub open spec fn wf(&self) -> bool {
        frame_fits(self.frame.w, self.frame.h, self.has_shadow)
    }

    /// Lays out a dialog of `w` by `h` cells at `(x, y)`: the content is inset
    /// by one cell and keeps clear of the frame and of the shadow.
    pub fn new_sized_at(w: u32, h: u32, x: i32, y: i32, shadow: bool, p: &Palette) -> (r: Result<Dialog, DialogError>)
        ensures
            r is Ok <==> sized_fits(w, h, x, y, shadow),
            r is Err ==> r == Err::<Dialog, DialogError>(DialogError::DoesNotFit),
            r matches Ok(d) ==> {
                &&& d.wf()
                &&& d.frame == (Rect { x, y, w, h })
                &&& d.has_shadow == shadow
                &&& d.content == (Rect { x: (x + 1) as i32, y: (y + 1) as i32, w: (w - sized_margin(shadow)) as u32, h: (h - 3) as u32 })
                &&& d.content_base == content_channels(*p)
                &&& d.content_scrolling
                &&& ops_view(d.frame_ops@) == border_spec(w, h, shadow, *p)
                &&& d.content_ops@.len() == 0
            },
    {
        let margin: u32 = if shadow { 4 } else { 3 };
        if w < margin || h < 3 || x == i32::MAX || y == i32::MAX {
            return Err(DialogError::DoesNotFit);
        }
        let frame = Rect { x, y, w, h };
        let content = Rect { x: x + 1, y: y + 1, w: w - margin, h: h - 3 };
        let mut d = Dialog {
            title: String::new(),
            frame,
            has_shadow: shadow,
            content,
            content_base: Channels {
                fg: Channel { rgb: p.text_fg, alpha: Alpha::Opaque },
                bg: Channel { rgb: p.content_bg, alpha: Alpha::Opaque },
            },
            content_scrolling: true,
            frame_ops: Vec::new(),
            content_ops: Vec::new(),
        };
        d.frame_ops = d.draw_borders(p);
        Ok(d)
    }

    /// Lays out a dialog that shows one line of text in the middle of a parent
    /// of `pw` by `ph` cells, framed one cell around it (more with a shadow).
    pub fn new_centered_text(pw: u32, ph: u32, text: &String, shadow: bool, p: &Palette) -> (r: Result<Dialog, DialogError>)
        ensures
            r is Ok <==> centered_fits(pw, ph, text@.len(), shadow),
            r is Err ==> r == Err::<Dialog, DialogError>(DialogError::DoesNotFit),
            r matches Ok(d) ==> {
                let n = text@.len();
                let x = centered_x(pw, n);
                let y = ph / 2;
                &&& d.wf()
                &&& d.frame == (Rect {
                    x: (x - 1) as i32,
                    y: (y - 1) as i32,
                    w: (n + if shadow { 4int } else { 2 }) as u32,
                    h: if shadow { 4 } else { 3 },
                })
                &&& d.has_shadow == shadow
                &&& d.content == (Rect { x: x as i32, y: y as i32, w: n as u32, h: 1 })
                &&& d.content_base == content_channels(*p)
                &&& !d.content_scrolling
                &&& ops_view(d.frame_ops@) == border_spec(d.frame.w, d.frame.h, shadow, *p)
                &&& ops_view(d.content_ops@) == seq![PaintView::Text(text@)]
            },
    {
        let len = text.as_str().unicode_len();
        if len > 0xffff_fffb {
            return Err(DialogError::DoesNotFit);
        }
        let n: u32 = len as u32;
        let half_w: u32 = pw / 2;
        let half_h: u32 = ph / 2;
        if half_w < n / 2 + 1 || half_h < 1 || (!shadow && n < 1) {
            return Err(DialogError::DoesNotFit);
        }
        let x: u32 = half_w - n / 2;
        let y: u32 = half_h;
        let fw: u32 = if shadow { n + 4 } else { n + 2 };
        let fh: u32 = if shadow { 4 } else { 3 };
        let frame = Rect { x: (x - 1) as i32, y: (y - 1) as i32, w: fw, h: fh };
        let content = Rect { x: x as i32, y: y as i32, w: n, h: 1 };
        let mut content_ops: Vec<PaintOp> = Vec::new();
        proof {
            assert(ops_view(content_ops@) =~= Seq::<PaintView>::empty());
        }
        push_op(&mut content_ops, PaintOp::Text(text.clone()));
        let mut d = Dialog {
            title: String::new(),
            frame,
            has_shadow: shadow,
            content,
            content_base: Channels {
                fg: Channel { rgb: p.text_fg, alpha: Alpha::Opaque },
                bg: Channel { rgb: p.content_bg, alpha: Alpha::Opaque },
            },
            content_scrolling: false,
            frame_ops: Vec::new(),
            content_ops,
        };
        d.frame_ops = d.draw_borders(p);
        Ok(d)
    }

    /// The paint operations that frame this dialog.
    pub fn draw_borders(&self, p: &Palette) -> (ops: Vec<PaintOp>)
        requires
            self.wf(),
        ensures
            ops_view(ops@) == border_spec(self.frame.w, self.frame.h, self.has_shadow, *p),
    {
        draw_borders(self.frame.w, self.frame.h, self.has_shadow, p)
    }
}

} // verus!
