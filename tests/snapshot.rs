use mat::paint::{Palette, PaintOp};
use mat::listview::draw_images;
use mat::snapshot::{find_running, update_images, Image, Machine};

fn image(name: &str, size: u64) -> Image {
    Image {
        name: name.to_string(),
        kind: "directory".to_string(),
        ro: false,
        t_created: 0,
        t_modified: 0,
        size,
        path: format!("/org/freedesktop/machine1/image/{}", name),
        machine: None,
    }
}

fn machine(name: &str, id: &str) -> Machine {
    Machine {
        name: name.to_string(),
        class: "container".to_string(),
        id: id.to_string(),
        path: format!("/org/freedesktop/machine1/machine/{}", name),
    }
}

fn names(images: &Vec<Image>) -> Vec<String> {
    images.iter().map(|i| i.name.clone()).collect()
}

#[test]
fn mixed_state_snapshot() {
    let mut images = Vec::new();
    let listing = vec![image("alpine", 10), image(".hidden", 20), image("web", 30)];
    let ok = update_images(&mut images, Some(vec![machine("web", "1")]), Some(listing));
    assert!(ok);
    assert_eq!(names(&images), vec!["alpine".to_string(), "web".to_string()]);
    assert!(images[0].machine.is_none());
    assert_eq!(images[1].machine.as_ref().map(|m| m.name.clone()), Some("web".to_string()));
}

#[test]
fn mixed_state_rows() {
    let mut images = Vec::new();
    let listing = vec![image("alpine", 10), image(".hidden", 20), image("web", 30)];
    update_images(&mut images, Some(vec![machine("web", "1")]), Some(listing));
    let ops = draw_images(&images, 0, 20, &Palette::opensuse());
    let bold_rows: Vec<u32> = ops
        .iter()
        .enumerate()
        .filter(|(_, o)| **o == PaintOp::Bold(true))
        .map(|(i, _)| match &ops[i - 2] {
            PaintOp::TextAt(_, y, _) => *y,
            _ => u32::MAX,
        })
        .collect();
    assert_eq!(bold_rows, vec![1]);
    assert!(ops.contains(&PaintOp::TextAt(0, 1, "\u{2764}\u{fe0f} ".to_string())));
    assert!(ops.contains(&PaintOp::TextAt(0, 0, "  ".to_string())));
    assert!(!ops.iter().any(|o| matches!(o, PaintOp::Text(t) if t.contains("hidden"))));
}

#[test]
fn snapshot_is_sorted_whatever_the_listing_order() {
    let mut a = Vec::new();
    let mut b = Vec::new();
    update_images(&mut a, None, Some(vec![image("web", 1), image("alpine", 2), image("db", 3)]));
    update_images(&mut b, None, Some(vec![image("db", 3), image("web", 1), image("alpine", 2)]));
    let expected = vec!["alpine".to_string(), "db".to_string(), "web".to_string()];
    assert_eq!(names(&a), expected);
    assert_eq!(names(&b), expected);
}

#[test]
fn refresh_twice_gives_the_same_order() {
    let listing = || vec![image("b", 1), image("a", 2), image("c", 3), image("a2", 4)];
    let mut a = Vec::new();
    update_images(&mut a, None, Some(listing()));
    let first = names(&a);
    update_images(&mut a, None, Some(listing()));
    assert_eq!(names(&a), first);
    assert_eq!(first, vec!["a", "a2", "b", "c"]);
}

#[test]
fn equal_names_keep_listing_order() {
    let mut a = Vec::new();
    update_images(&mut a, None, Some(vec![image("x", 1), image("a", 2), image("x", 3)]));
    let sizes: Vec<u64> = a.iter().map(|i| i.size).collect();
    assert_eq!(sizes, vec![2, 1, 3]);
}

#[test]
fn failed_listing_keeps_snapshot() {
    let mut images = vec![image("kept", 1)];
    let ok = update_images(&mut images, Some(vec![machine("kept", "1")]), None);
    assert!(!ok);
    assert_eq!(names(&images), vec!["kept".to_string()]);
    assert!(images[0].machine.is_none());
}

#[test]
fn failed_machine_listing_means_none_running() {
    let mut images = Vec::new();
    update_images(&mut images, None, Some(vec![image("web", 1)]));
    assert!(images[0].machine.is_none());
}

#[test]
fn only_hidden_entries_give_empty_snapshot() {
    let mut images = vec![image("old", 1)];
    assert!(update_images(&mut images, None, Some(vec![image(".a", 1), image(".b", 2)])));
    assert!(images.is_empty());
}

#[test]
fn running_instance_lookup_takes_last() {
    let ms = vec![machine("web", "1"), machine("db", "2"), machine("web", "3")];
    let found = find_running(&ms, &"web".to_string()).unwrap();
    assert_eq!(found.id, "3");
    assert!(find_running(&ms, &"mail".to_string()).is_none());
}

#[test]
fn selected_row_is_highlighted() {
    let mut images = Vec::new();
    update_images(&mut images, None, Some(vec![image("a", 1), image("b", 2)]));
    let p = Palette::opensuse();
    let ops = draw_images(&images, 1, 20, &p);
    assert_eq!(ops[0], PaintOp::Erase);
    assert_eq!(ops[1], PaintOp::TextAt(0, 0, "  ".to_string()));
    assert_eq!(ops[3], PaintOp::SaveBg);
    assert_eq!(ops[4], PaintOp::Bg(p.selected_bg));
    assert_eq!(ops[5], PaintOp::TextAt(0, 1, "  ".to_string()));
    assert_eq!(ops[7], PaintOp::RestoreBg);
    assert_eq!(ops.len(), 8);
}

#[test]
fn empty_snapshot_only_erases() {
    let ops = draw_images(&Vec::new(), 0, 20, &Palette::opensuse());
    assert_eq!(ops, vec![PaintOp::Erase]);
}
