use shortener::code::{generate, CODE_LEN};

fn is_safe_symbol(c: char) -> bool {
    c == '_' || c == '-' || c.is_ascii_digit() || c.is_ascii_lowercase() || c.is_ascii_uppercase()
}

#[test]
fn code_length_is_six() {
    assert_eq!(CODE_LEN, 6);
}

#[test]
fn generated_code_has_six_safe_symbols() {
    for _ in 0..500 {
        let code = generate();
        assert_eq!(code.chars().count(), 6);
        assert_eq!(code.len(), 6);
        assert!(code.chars().all(is_safe_symbol), "unexpected symbol in {}", code);
    }
}

#[test]
fn generated_codes_are_not_all_the_same() {
    let first = generate();
    let mut differs = false;
    for _ in 0..50 {
        if generate() != first {
            differs = true;
        }
    }
    assert!(differs);
}
