//! The frame drawn around a dialog, with its optional drop shadow.
use vstd::prelude::*;
use crate::paint::{ops_view, push_op, Alpha, Channel, Channels, Palette, PaintOp, PaintView};

verus! {

pub const CORNER_TL: char = '┌';
pub const CORNER_TR: char = '┐';
pub const CORNER_BL: char = '└';
pub const CORNER_BR: char = '┘';
pub const EDGE_H: char = '─';
pub const EDGE_V: char = '│';

/// The smallest surface that a frame fits in.
pub open spec fn frame_fits(w: u32, h: u32, shadow: bool) -> bool {
    w >= 3 && if shadow { h >= 2 } else { h >= 1 }
}

/// Column of the frame's right edge: the last two columns go to the shadow.
pub open spec fn frame_right(w: u32, shadow: bool) -> int {
    if shadow { w - 3 } else { w - 1 }
}

/// Row of the frame's bottom edge: the last row goes to the shadow.
pub open spec fn frame_bottom(h: u32, shadow: bool) -> int {
    if shadow { h - 2 } else { h - 1 }
}

/// Glyphs `c` on row `y`, from column `from` up to, not including, column `to`.
pub open spec fn hrun(from: int, to: int, y: int, c: char) -> Seq<PaintView> {
    if from < to {
        Seq::new((to - from) as nat, |k: int| PaintView::GlyphAt((from + k) as u32, y as u32, c))
    } else {
        Seq::empty()
    }
}

/// Vertical edge glyphs in column `x`, on rows `from` up to, not including, `to`.
pub open spec fn vrun(x: int, from: int, to: int) -> Seq<PaintView> {
    if from < to {
        Seq::new((to - from) as nat, |k: int| PaintView::GlyphAt(x as u32, (from + k) as u32, EDGE_V))
    } else {
        Seq::empty()
    }
}

/// Pairs of blank cells at columns `x` and `x + 1`, on rows `from` up to, not including, `to`.
pub open spec fn vblank(x: int, from: int, to: int) -> Seq<PaintView> {
    if from < to {
        Seq::new((to - from) as nat, |k: int| PaintView::Blank(x as u32, (from + k) as u32, 2))
    } else {
        Seq::empty()
    }
}

pub open spec fn clear_channels() -> Channels {
    Channels {
        fg: Channel { rgb: 0, alpha: Alpha::Transparent },
        bg: Channel { rgb: 0, alpha: Alpha::Transparent },
    }
}

pub open spec fn shadow_channels(p: Palette) -> Channels {
    Channels {
        fg: Channel { rgb: 0, alpha: Alpha::Transparent },
        bg: Channel { rgb: p.shadow, alpha: Alpha::Opaque },
    }
}

/// The frame: top edge, left edge, then in the far color the right edge and
/// the bottom edge, whose corner lands where the bottom run's cursor stops.
pub open spec fn frame_spec(w: u32, h: u32, shadow: bool, p: Palette) -> Seq<PaintView> {
    let r = frame_right(w, shadow);
    let b = frame_bottom(h, shadow);
    let corner = if r < 2 { 2 } else { r };
    let top = seq![PaintView::Bg(p.frame_bg), PaintView::Fg(p.frame_fg), PaintView::GlyphAt(0, 0, CORNER_TL)]
        + hrun(1, r, 0, EDGE_H);
    let near = (top + vrun(0, 1, b)).push(PaintView::GlyphAt(0, b as u32, CORNER_BL));
    let far = near.push(PaintView::Fg(p.frame_fg_far)).push(PaintView::GlyphAt(r as u32, 0, CORNER_TR))
        + vrun(r, 1, b) + hrun(1, r, b, EDGE_H);
    far.push(PaintView::GlyphAt(corner as u32, b as u32, CORNER_BR)).push(PaintView::Fg(p.frame_fg))
}

/// The shadow: two see-through gap cells beside the top-right corner and below
/// the bottom-left corner, then an L of shadow cells along the bottom row and
/// the two right columns.
pub open spec fn shadow_spec(w: u32, h: u32, p: Palette) -> Seq<PaintView> {
    seq![
        PaintView::SetChannels(clear_channels()),
        PaintView::Blank((w - 2) as u32, 0, 2),
        PaintView::Blank(0, (h - 1) as u32, 2),
        PaintView::SetChannels(shadow_channels(p)),
        PaintView::Blank(2, (h - 1) as u32, (w - 2) as u32),
    ] + vblank(w - 2, 1, h as int)
}

/// Everything drawn to decorate a surface of `w` by `h` cells.
pub open spec fn border_spec(w: u32, h: u32, shadow: bool, p: Palette) -> Seq<PaintView> {
    if shadow {
        frame_spec(w, h, shadow, p) + shadow_spec(w, h, p)
    } else {
        frame_spec(w, h, shadow, p)
    }
}

fn push_hrun(ops: &mut Vec<PaintOp>, from: u32, to: u32, y: u32, c: char)
    ensures
        ops_view(final(ops)@) == ops_view(old(ops)@) + hrun(from as int, to as int, y as int, c),
{
    let mut n: u32 = from;
    while n < to
        invariant
            from <= n,
            from < to ==> n <= to,
            ops_view(ops@) == ops_view(old(ops)@) + hrun(from as int, if from < to { n as int } else { from as int }, y as int, c),
        decreases to - n,
    {
        push_op(ops, PaintOp::GlyphAt(n, y, c));
        assert(hrun(from as int, n + 1, y as int, c) =~= hrun(from as int, n as int, y as int, c).push(
            PaintView::GlyphAt(n, y, c),
        ));
        n = n + 1;
    }
    assert(hrun(from as int, from as int, y as int, c) =~= Seq::<PaintView>::empty());
    assert(ops_view(ops@) =~= ops_view(old(ops)@) + hrun(from as int, to as int, y as int, c));
}

fn push_vrun(ops: &mut Vec<PaintOp>, x: u32, from: u32, to: u32)
    ensures
        ops_view(final(ops)@) == ops_view(old(ops)@) + vrun(x as int, from as int, to as int),
{
    let mut i: u32 = from;
    while i < to
        invariant
            from <= i,
            from < to ==> i <= to,
            ops_view(ops@) == ops_view(old(ops)@) + vrun(x as int, from as int, if from < to { i as int } else { from as int }),
        decreases to - i,
    {
        push_op(ops, PaintOp::GlyphAt(x, i, EDGE_V));
        assert(vrun(x as int, from as int, i + 1) =~= vrun(x as int, from as int, i as int).push(
            PaintView::GlyphAt(x, i, EDGE_V),
        ));
        i = i + 1;
    }
    assert(vrun(x as int, from as int, from as int) =~= Seq::<PaintView>::empty());
    assert(ops_view(ops@) =~= ops_view(old(ops)@) + vrun(x as int, from as int, to as int));
}

fn push_vblank(ops: &mut Vec<PaintOp>, x: u32, from: u32, to: u32)
    ensures
        ops_view(final(ops)@) == ops_view(old(ops)@) + vblank(x as int, from as int, to as int),
{
    let mut i: u32 = from;
    while i < to
        invariant
            from <= i,
            from < to ==> i <= to,
            ops_view(ops@) == ops_view(old(ops)@) + vblank(x as int, from as int, if from < to { i as int } else { from as int }),
        decreases to - i,
    {
        push_op(ops, PaintOp::Blank(x, i, 2));
        assert(vblank(x as int, from as int, i + 1) =~= vblank(x as int, from as int, i as int).push(
            PaintView::Blank(x, i, 2),
        ));
        i = i + 1;
    }
    assert(vblank(x as int, from as int, from as int) =~= Seq::<PaintView>::empty());
    assert(ops_view(ops@) =~= ops_view(old(ops)@) + vblank(x as int, from as int, to as int));
}

fn push_shadow(ops: &mut Vec<PaintOp>, w: u32, h: u32, p: &Palette)
    requires
        w >= 2,
        h >= 1,
    ensures
        ops_view(final(ops)@) == ops_view(old(ops)@) + shadow_spec(w, h, *p),
{
    let clear = Channels {
        fg: Channel { rgb: 0, alpha: Alpha::Transparent },
        bg: Channel { rgb: 0, alpha: Alpha::Transparent },
    };
    let dark = Channels {
        fg: Channel { rgb: 0, alpha: Alpha::Transparent },
        bg: Channel { rgb: p.shadow, alpha: Alpha::Opaque },
    };
    let ghost start = ops_view(ops@);
    push_op(ops, PaintOp::SetChannels(clear));
    push_op(ops, PaintOp::Blank(w - 2, 0, 2));
    push_op(ops, PaintOp::Blank(0, h - 1, 2));
    push_op(ops, PaintOp::SetChannels(dark));
    push_op(ops, PaintOp::Blank(2, h - 1, w - 2));
    let ghost mid = ops_view(ops@);
    assert(mid =~= start + seq![
        PaintView::SetChannels(clear_channels()),
        PaintView::Blank((w - 2) as u32, 0, 2),
        PaintView::Blank(0, (h - 1) as u32, 2),
        PaintView::SetChannels(shadow_channels(*p)),
        PaintView::Blank(2, (h - 1) as u32, (w - 2) as u32),
    ]);
    push_vblank(ops, w - 2, 1, h);
    assert(ops_view(ops@) =~= start + shadow_spec(w, h, *p));
}

/// Draws a frame of box-drawing glyphs around a surface of `w` by `h` cells,
/// with a drop shadow in its last two columns and last row when asked for.
pub fn draw_borders(w: u32, h: u32, shadow: bool, p: &Palette) -> (ops: Vec<PaintOp>)
    requires
        frame_fits(w, h, shadow),
    ensures
        ops_view(ops@) == border_spec(w, h, shadow, *p),
{
    let mut r: u32 = w - 1;
    let mut b: u32 = h - 1;
    if shadow {
        r = r - 2;
        b = b - 1;
    }
    let corner: u32 = if r < 2 { 2 } else { r };
    let mut ops: Vec<PaintOp> = Vec::new();
    proof {
        assert(ops_view(ops@) =~= Seq::<PaintView>::empty());
    }
    push_op(&mut ops, PaintOp::Bg(p.frame_bg));
    push_op(&mut ops, PaintOp::Fg(p.frame_fg));
    push_op(&mut ops, PaintOp::GlyphAt(0, 0, CORNER_TL));
    push_hrun(&mut ops, 1, r, 0, EDGE_H);
    push_vrun(&mut ops, 0, 1, b);
    push_op(&mut ops, PaintOp::GlyphAt(0, b, CORNER_BL));
    push_op(&mut ops, PaintOp::Fg(p.frame_fg_far));
    push_op(&mut ops, PaintOp::GlyphAt(r, 0, CORNER_TR));
    push_vrun(&mut ops, r, 1, b);
    push_hrun(&mut ops, 1, r, b, EDGE_H);
    push_op(&mut ops, PaintOp::GlyphAt(corner, b, CORNER_BR));
    push_op(&mut ops, PaintOp::Fg(p.frame_fg));
    if shadow {
        push_shadow(&mut ops, w, h, p);
    }
    ops
}

} // verus!
