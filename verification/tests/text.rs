use mamba::keyed::KeyedList;
use mamba::text::{decimal, same_text, signed_decimal, to_small_letters, trim};

#[test]
fn numbers_are_written_in_decimal() {
    for n in [0u64, 9, 10, 42, 1000, u64::MAX] {
        assert_eq!(decimal(n), n.to_string());
    }
    for n in [0i32, -1, 7, i32::MIN, i32::MAX] {
        assert_eq!(signed_decimal(n), n.to_string());
    }
}

#[test]
fn trimming_agrees_with_std() {
    for text in ["", " ", "a", " a ", "\u{3000}a\u{85}", "\ta b\n", "\u{200b}a", "é \u{2028}"] {
        assert_eq!(trim(text), text.trim(), "of {text:?}");
    }
    for n in 0..=0x3100u32 {
        if let Some(c) = char::from_u32(n) {
            let text = format!("{c}x{c}");
            assert_eq!(trim(&text), text.trim(), "of {c:?}");
        }
    }
}

#[test]
fn small_letters_agree_with_std() {
    for text in ["", "NO", "aZ9", "É[`@"] {
        assert_eq!(to_small_letters(text), text.to_ascii_lowercase());
    }
    assert!(same_text("é", "é"));
    assert!(!same_text("a", "ab"));
}

#[test]
fn a_key_holds_the_last_value_put_under_it() {
    let mut list = KeyedList::new();
    assert_eq!(list.len(), 0);
    list.insert("a", 1);
    list.insert("b", 2);
    list.insert("a", 3);
    assert_eq!(list.len(), 2);
    assert_eq!(list.get("a"), Some(&3));
    assert_eq!(list.get("c"), None);
    assert_eq!(list.remove("a"), Some(3));
    assert_eq!(list.remove("a"), None);
    assert_eq!(list.pop(), Some(("b".to_string(), 2)));
    assert_eq!(list.pop(), None);
}
