use mat::listview::row_text;
use mat::size::format_size;
use mat::text::{fit_name, name_is_hidden, name_less, pad_left, pad_right};

#[test]
fn size_zero_and_small_values() {
    assert_eq!(format_size(0), "0");
    assert_eq!(format_size(1), "1");
    assert_eq!(format_size(1023), "1023");
}

#[test]
fn size_unit_boundaries() {
    assert_eq!(format_size(1024), "1k");
    assert_eq!(format_size(1536), "1k");
    assert_eq!(format_size(1048575), "1023k");
    assert_eq!(format_size(1048576), "1M");
    assert_eq!(format_size(5 * 1024 * 1024 * 1024), "5G");
    assert_eq!(format_size(1u64 << 40), "1T");
    assert_eq!(format_size(1u64 << 50), "1024T");
}

#[test]
fn size_overflow_marker() {
    assert_eq!(format_size((1u64 << 50) + 1), "-");
    assert_eq!(format_size(u64::MAX), "-");
}

#[test]
fn fit_name_keeps_short_names() {
    assert_eq!(fit_name(&"alpine".to_string(), 9), "alpine");
    assert_eq!(fit_name(&"123456789".to_string(), 9), "123456789");
}

#[test]
fn fit_name_shortens_long_names() {
    let r = fit_name(&"tumbleweed-container".to_string(), 9);
    assert_eq!(r, "tumblew..");
    assert_eq!(r.chars().count(), 9);
    assert_eq!(fit_name(&"abc".to_string(), 2), "..");
}

#[test]
fn fit_name_counts_characters() {
    assert_eq!(fit_name(&"héllo-wörld".to_string(), 6), "héll..");
}

#[test]
fn padding_both_sides() {
    assert_eq!(pad_right("ab".to_string(), 4), "ab  ");
    assert_eq!(pad_left("1k".to_string(), 5), "   1k");
    assert_eq!(pad_left("123456".to_string(), 5), "123456");
    assert_eq!(pad_right("abcde".to_string(), 3), "abcde");
}

#[test]
fn row_text_layout() {
    assert_eq!(row_text(&"alpine".to_string(), false, 1536, 20), "alpine    rw    1k");
    assert_eq!(row_text(&"a-very-long-name".to_string(), true, 0, 20), "a-very-.. ro     0");
}

#[test]
fn name_order_is_lexicographic() {
    let a = "a".to_string();
    let ab = "ab".to_string();
    let b = "b".to_string();
    assert!(name_less(&a, &ab));
    assert!(name_less(&ab, &b));
    assert!(!name_less(&b, &a));
    assert!(!name_less(&a, &a));
    assert!(name_less(&"Z".to_string(), &"a".to_string()));
}

#[test]
fn hidden_names() {
    assert!(name_is_hidden(&".hidden".to_string()));
    assert!(!name_is_hidden(&"web".to_string()));
    assert!(!name_is_hidden(&"".to_string()));
}
