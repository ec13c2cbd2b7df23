use zero2prod::token::{generate_subscription_token, TOKEN_LENGTH};

#[test]
fn a_token_has_25_alphanumeric_characters() {
    assert_eq!(TOKEN_LENGTH, 25);
    for _ in 0..200 {
        let token = generate_subscription_token();
        assert_eq!(token.chars().count(), 25);
        assert_eq!(token.len(), 25);
        assert!(token.chars().all(|c| c.is_ascii_alphanumeric()), "{}", token);
    }
}

#[test]
fn tokens_differ_from_one_another() {
    let mut seen = std::collections::HashSet::new();
    for _ in 0..200 {
        assert!(seen.insert(generate_subscription_token()));
    }
}

#[test]
fn tokens_use_letters_of_both_cases_and_digits() {
    let all: String = (0..200).map(|_| generate_subscription_token()).collect();
    assert!(all.chars().any(|c| c.is_ascii_uppercase()));
    assert!(all.chars().any(|c| c.is_ascii_lowercase()));
    assert!(all.chars().any(|c| c.is_ascii_digit()));
}
