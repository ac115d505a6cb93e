use yonder_import::text::{chars_of, push_i64, push_u64, same_text};

#[test]
fn numerals_of_unsigned_numbers() {
    for value in [0u64, 7, 9, 10, 11, 99, 100, 1234567890, 1767263690211, u64::MAX] {
        let mut out = String::new();
        push_u64(&mut out, value);
        assert_eq!(out, value.to_string());
    }
    let mut out = String::from("n=");
    push_u64(&mut out, 1050);
    assert_eq!(out, "n=1050");
}

#[test]
fn numerals_of_signed_numbers() {
    for value in [0i64, 1, -1, 9, 10, -10, 1767263690211, -1767263690211, i64::MAX, i64::MIN] {
        let mut out = String::new();
        push_i64(&mut out, value);
        assert_eq!(out, value.to_string());
    }
}

#[test]
fn characters_of_a_text() {
    assert_eq!(chars_of(""), Vec::<char>::new());
    assert_eq!(chars_of("a£€"), vec!['a', '£', '€']);
}

#[test]
fn texts_are_compared_by_the_letter() {
    assert!(same_text("", ""));
    assert!(same_text("Debit", "Debit"));
    assert!(!same_text("Debit", "debit"));
    assert!(!same_text("Debit", "Debit "));
    assert!(!same_text("Debit", "Debi"));
    assert!(!same_text("é", "e"));
}
