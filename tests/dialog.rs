use mat::border::{draw_borders, CORNER_BL, CORNER_BR, CORNER_TL, CORNER_TR, EDGE_H, EDGE_V};
use mat::dialog::{Dialog, DialogError, Rect};
use mat::paint::{Alpha, Channel, Channels, Palette, PaintOp};

#[test]
fn plain_frame_three_by_three() {
    let p = Palette::opensuse();
    let ops = draw_borders(3, 3, false, &p);
    let expected = vec![
        PaintOp::Bg(p.frame_bg),
        PaintOp::Fg(p.frame_fg),
        PaintOp::GlyphAt(0, 0, CORNER_TL),
        PaintOp::GlyphAt(1, 0, EDGE_H),
        PaintOp::GlyphAt(0, 1, EDGE_V),
        PaintOp::GlyphAt(0, 2, CORNER_BL),
        PaintOp::Fg(p.frame_fg_far),
        PaintOp::GlyphAt(2, 0, CORNER_TR),
        PaintOp::GlyphAt(2, 1, EDGE_V),
        PaintOp::GlyphAt(1, 2, EDGE_H),
        PaintOp::GlyphAt(2, 2, CORNER_BR),
        PaintOp::Fg(p.frame_fg),
    ];
    assert_eq!(ops, expected);
}

#[test]
fn shadow_frame_reserves_last_columns_and_row() {
    let p = Palette::opensuse();
    let ops = draw_borders(6, 4, true, &p);
    assert!(ops.contains(&PaintOp::GlyphAt(3, 0, CORNER_TR)));
    assert!(ops.contains(&PaintOp::GlyphAt(0, 2, CORNER_BL)));
    assert!(ops.contains(&PaintOp::GlyphAt(3, 2, CORNER_BR)));
    let clear = Channels {
        fg: Channel { rgb: 0, alpha: Alpha::Transparent },
        bg: Channel { rgb: 0, alpha: Alpha::Transparent },
    };
    let dark = Channels {
        fg: Channel { rgb: 0, alpha: Alpha::Transparent },
        bg: Channel { rgb: p.shadow, alpha: Alpha::Opaque },
    };
    let tail = vec![
        PaintOp::SetChannels(clear),
        PaintOp::Blank(4, 0, 2),
        PaintOp::Blank(0, 3, 2),
        PaintOp::SetChannels(dark),
        PaintOp::Blank(2, 3, 4),
        PaintOp::Blank(4, 1, 2),
        PaintOp::Blank(4, 2, 2),
        PaintOp::Blank(4, 3, 2),
    ];
    assert_eq!(&ops[ops.len() - tail.len()..], &tail[..]);
}

#[test]
fn sized_dialog_layout() {
    let p = Palette::opensuse();
    let d = Dialog::new_sized_at(78, 21, 1, 1, true, &p).unwrap();
    assert_eq!(d.frame, Rect { x: 1, y: 1, w: 78, h: 21 });
    assert_eq!(d.content, Rect { x: 2, y: 2, w: 74, h: 18 });
    assert!(d.content_scrolling);
    assert!(d.content_ops.is_empty());
    assert_eq!(d.frame_ops, draw_borders(78, 21, true, &p));
    let plain = Dialog::new_sized_at(10, 5, 0, 0, false, &p).unwrap();
    assert_eq!(plain.content, Rect { x: 1, y: 1, w: 7, h: 2 });
}

#[test]
fn sized_dialog_too_small() {
    let p = Palette::opensuse();
    assert_eq!(Dialog::new_sized_at(3, 10, 0, 0, true, &p).unwrap_err(), DialogError::DoesNotFit);
    assert_eq!(Dialog::new_sized_at(10, 2, 0, 0, false, &p).unwrap_err(), DialogError::DoesNotFit);
    assert_eq!(Dialog::new_sized_at(10, 10, i32::MAX, 0, false, &p).unwrap_err(), DialogError::DoesNotFit);
}

#[test]
fn centered_dialog_layout() {
    let p = Palette::opensuse();
    let d = Dialog::new_centered_text(80, 24, &"starting".to_string(), true, &p).unwrap();
    assert_eq!(d.frame, Rect { x: 35, y: 11, w: 12, h: 4 });
    assert_eq!(d.content, Rect { x: 36, y: 12, w: 8, h: 1 });
    assert!(!d.content_scrolling);
    assert_eq!(d.content_ops, vec![PaintOp::Text("starting".to_string())]);
    let e = Dialog::new_centered_text(80, 24, &"No images found".to_string(), false, &p).unwrap();
    assert_eq!(e.frame, Rect { x: 32, y: 11, w: 17, h: 3 });
}

#[test]
fn centered_dialog_too_wide() {
    let p = Palette::opensuse();
    let r = Dialog::new_centered_text(10, 24, &"powering off".to_string(), true, &p);
    assert_eq!(r.unwrap_err(), DialogError::DoesNotFit);
    let r = Dialog::new_centered_text(80, 1, &"x".to_string(), true, &p);
    assert_eq!(r.unwrap_err(), DialogError::DoesNotFit);
}
