use niri_autostart::text::{i32_text, quote_debug, text_less, usize_text};

#[test]
fn texts_order_by_code_point() {
    let a = "code".to_string();
    let b = "codex".to_string();
    let c = "web".to_string();
    assert!(text_less(&a, &b));
    assert!(!text_less(&b, &a));
    assert!(text_less(&b, &c));
    assert!(text_less(&a, &c));
    assert!(!text_less(&a, &a));
    assert!(text_less(&"Z".to_string(), &"a".to_string()));
}

#[test]
fn numbers_and_quotes() {
    assert_eq!(usize_text(0), "0");
    assert_eq!(usize_text(1207), "1207");
    assert_eq!(i32_text(-284), "-284");
    assert_eq!(i32_text(i32::MIN), "-2147483648");
    assert_eq!(quote_debug(&"fw \"x\"".to_string()), "\"fw \\\"x\\\"\"");
}
