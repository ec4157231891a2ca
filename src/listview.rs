//! The list of images drawn into a dialog's content surface: one row per
//! image, the selected row highlighted, running images marked and in bold.
use vstd::prelude::*;
use vstd::string::StringExecFns;
use crate::paint::{ops_view, push_op, Palette, PaintOp, PaintView};
use crate::size::{format_size, size_text};
use crate::snapshot::{images_view, Image, ImageView};
use crate::text::{fit_name, fitted, pad_end, pad_left, pad_right, pad_start, spaces};

verus! {

/// Columns of a row that do not go to the name: marker, flag, size and gaps.
pub const FIXED_COLUMNS: u32 = 11;

/// Width of the right-aligned size column.
pub const SIZE_COLUMN: usize = 5;

/// The narrowest surface a row fits on: the fixed columns and an ellipsis.
pub open spec fn row_fits(width: u32) -> bool {
    width >= FIXED_COLUMNS + 2
}

/// Width of the name column on a surface `width` cells wide.
pub open spec fn name_width(width: u32) -> nat {
    (width - FIXED_COLUMNS) as nat
}

pub open spec fn mode_flag(ro: bool) -> Seq<char> {
    if ro { seq!['r', 'o'] } else { seq!['r', 'w'] }
}

/// The marker in front of a running image: a red heart and a space.
pub open spec fn running_marker() -> Seq<char> {
    seq!['\u{2764}', '\u{fe0f}', ' ']
}

/// The text of a row after its marker: the fitted name padded to its column,
/// the read-only flag, and the size right-aligned in five columns.
pub open spec fn row_spec(name: Seq<char>, ro: bool, size: u64, width: u32) -> Seq<char> {
    pad_end(fitted(name, name_width(width)), name_width(width)) + seq![' '] + mode_flag(ro) + seq![' ']
        + pad_start(size_text(size as nat), SIZE_COLUMN as nat)
}

/// What one row paints.
pub open spec fn row_ops(e: ImageView, y: u32, selected: bool, width: u32, p: Palette) -> Seq<PaintView> {
    let running = e.machine is Some;
    let hl_on = if selected {
        seq![PaintView::SaveBg, PaintView::Bg(p.selected_bg)]
    } else {
        seq![]
    };
    let mark = if running {
        seq![
            PaintView::SaveFg,
            PaintView::Fg(p.marker_fg),
            PaintView::TextAt(0, y, running_marker()),
            PaintView::RestoreFg,
            PaintView::Bold(true),
        ]
    } else {
        seq![PaintView::TextAt(0, y, spaces(2))]
    };
    let bold_off = if running { seq![PaintView::Bold(false)] } else { seq![] };
    let hl_off = if selected { seq![PaintView::RestoreBg] } else { seq![] };
    hl_on + mark + seq![PaintView::Text(row_spec(e.name, e.ro, e.size, width))] + bold_off + hl_off
}

/// What the first `k` rows paint after the surface is erased.
pub open spec fn rows_ops(s: Seq<ImageView>, current: nat, width: u32, p: Palette, k: nat) -> Seq<PaintView>
    decreases k,
{
    if k == 0 {
        seq![PaintView::Erase]
    } else {
        let i = (k - 1) as nat;
        rows_ops(s, current, width, p, i) + row_ops(s[i as int], i as u32, i == current, width, p)
    }
}

/// What painting the whole list does.
pub open spec fn list_ops(s: Seq<ImageView>, current: nat, width: u32, p: Palette) -> Seq<PaintView> {
    rows_ops(s, current, width, p, s.len())
}

/// The text of a row after its marker, on a surface `width` cells wide.
pub fn row_text(name: &String, ro: bool, size: u64, width: u32) -> (r: String)
    requires
        row_fits(width),
    ensures
        r@ == row_spec(name@, ro, size, width),
{
    let max: usize = (width - FIXED_COLUMNS) as usize;
    let mut r = pad_right(fit_name(name, max), max);
    proof {
        reveal_strlit(" ro ");
        reveal_strlit(" rw ");
    }
    if ro {
        r.append(" ro ");
    } else {
        r.append(" rw ");
    }
    let size_col = pad_left(format_size(size), SIZE_COLUMN);
    r.append(size_col.as_str());
    assert(r@ =~= row_spec(name@, ro, size, width));
    r
}

fn push_row(ops: &mut Vec<PaintOp>, img: &Image, y: u32, selected: bool, width: u32, p: &Palette)
    requires
        row_fits(width),
    ensures
        ops_view(final(ops)@) == ops_view(old(ops)@) + row_ops(img@, y, selected, width, *p),
{
    let ghost start = ops_view(ops@);
    let running = img.machine.is_some();
    if selected {
        push_op(ops, PaintOp::SaveBg);
        push_op(ops, PaintOp::Bg(p.selected_bg));
    }
    let ghost a = ops_view(ops@);
    if running {
        let marker = String::from_str("\u{2764}\u{fe0f} ");
        proof {
            reveal_strlit("\u{2764}\u{fe0f} ");
            assert(marker@ =~= running_marker());
        }
        push_op(ops, PaintOp::SaveFg);
        push_op(ops, PaintOp::Fg(p.marker_fg));
        push_op(ops, PaintOp::TextAt(0, y, marker));
        push_op(ops, PaintOp::RestoreFg);
        push_op(ops, PaintOp::Bold(true));
    } else {
        let blank = String::from_str("  ");
        proof {
            reveal_strlit("  ");
            assert(blank@ =~= spaces(2));
        }
        push_op(ops, PaintOp::TextAt(0, y, blank));
    }
    let ghost b = ops_view(ops@);
    push_op(ops, PaintOp::Text(row_text(&img.name, img.ro, img.size, width)));
    if running {
        push_op(ops, PaintOp::Bold(false));
    }
    if selected {
        push_op(ops, PaintOp::RestoreBg);
    }
    assert(ops_view(ops@) =~= start + row_ops(img@, y, selected, width, *p));
}

/// Paints the list of images into a content surface `width` cells wide: the
/// surface is erased, then row `i` shows image `i`, highlighted when `i` is
/// `current`.
pub fn draw_images(images: &Vec<Image>, current: usize, width: u32, p: &Palette) -> (ops: Vec<PaintOp>)
    requires
        row_fits(width),
        images@.len() <= u32::MAX,
    ensures
        ops_view(ops@) == list_ops(images_view(images@), current as nat, width, *p),
{
    let ghost s = images_view(images@);
    let mut ops: Vec<PaintOp> = Vec::new();
    proof {
        assert(ops_view(ops@) =~= Seq::<PaintView>::empty());
    }
    push_op(&mut ops, PaintOp::Erase);
    assert(ops_view(ops@) =~= rows_ops(s, current as nat, width, *p, 0));
    let mut i: usize = 0;
    while i < images.len()
        invariant
            i <= images.len(),
            images@.len() <= u32::MAX,
            row_fits(width),
            s == images_view(images@),
            ops_view(ops@) == rows_ops(s, current as nat, width, *p, i as nat),
        decreases images.len() - i,
    {
        assert(s[i as int] == images@[i as int]@);
        push_row(&mut ops, &images[i], i as u32, i == current, width, p);
        i = i + 1;
    }
    ops
}

} // verus!
