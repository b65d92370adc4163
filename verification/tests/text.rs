use runtime_hang::text::{decimal_text, list_text, pad_right, signed_text};

#[test]
fn decimal_numbers() {
    assert_eq!(decimal_text(0), "0");
    assert_eq!(decimal_text(9), "9");
    assert_eq!(decimal_text(10), "10");
    assert_eq!(decimal_text(1203456789), "1203456789");
    assert_eq!(decimal_text(u64::MAX), "18446744073709551615");
}

#[test]
fn signed_numbers() {
    assert_eq!(signed_text(0), "0");
    assert_eq!(signed_text(-1), "-1");
    assert_eq!(signed_text(i32::MAX), "2147483647");
    assert_eq!(signed_text(i32::MIN), "-2147483648");
}

#[test]
fn padding_agrees_with_format() {
    for text in ["", "a", "normal", "post-drop", "⚠️ REQ-1-0", "a text that is wider"] {
        assert_eq!(pad_right(text, 8), format!("{:<8}", text));
        assert_eq!(pad_right(text, 13), format!("{:<13}", text));
    }
}

#[test]
fn lists_agree_with_format() {
    let lists: Vec<Vec<usize>> = vec![vec![], vec![7], vec![0, 10, 200], vec![1, 1, 2, 3, 5, 8]];
    for list in lists {
        assert_eq!(list_text(&list), format!("{:?}", list));
    }
}
