use zero2prod::domain::subscriber_email::accept_or_reject;
use zero2prod::domain::subscriber_name::{
    is_forbidden_char, is_name, is_whitespace_char, trimmed,
};
use zero2prod::domain::{NewSubscriber, SubscriberEmail, SubscriberName};
use zero2prod::routes::FormData;

#[test]
fn empty_string_is_rejected() {
    let email = "".to_string();
    assert!(SubscriberEmail::parse(email).is_err());
}

#[test]
fn email_missing_at_symbol_is_rejected() {
    let email = "somemissing.com".to_string();
    assert!(SubscriberEmail::parse(email).is_err());
}

#[test]
fn email_missing_subject_is_rejected() {
    let email = "@somemissing.com".to_string();
    assert!(SubscriberEmail::parse(email).is_err());
}

#[test]
fn valid_emails_are_parsed_successfully() {
    for address in [
        "not@somemissing.com",
        "ursula@example.com",
        "weirder-email@here.and.there.com",
        "email@[127.0.0.1]",
    ] {
        let email = SubscriberEmail::parse(address.to_string()).unwrap();
        assert_eq!(email.as_ref(), address);
    }
}

#[test]
fn malformed_emails_are_rejected() {
    for address in ["a@b@", "no domain@", "two words@example.com", "ursula@", "ursula@exa mple.com"] {
        assert!(SubscriberEmail::parse(address.to_string()).is_err(), "{}", address);
    }
}

#[test]
fn email_with_overlong_local_part_is_rejected() {
    let local = "a".repeat(65);
    assert!(SubscriberEmail::parse(format!("{}@example.com", local)).is_err());
    let local = "a".repeat(64);
    assert!(SubscriberEmail::parse(format!("{}@example.com", local)).is_ok());
}

#[test]
fn the_local_part_may_not_be_empty() {
    for address in ["@somemissing.com", "@", "a@@b.com"] {
        assert!(SubscriberEmail::parse(address.to_string()).is_err(), "{}", address);
    }
    assert!(SubscriberEmail::parse("a@b.com".to_string()).is_ok());
}

#[test]
fn rejected_email_comes_back_in_the_message() {
    let error = SubscriberEmail::parse("somemissing.com".to_string()).unwrap_err();
    assert_eq!(error, "somemissing.com is not a valid subscriber email.");
    let error = SubscriberEmail::parse("".to_string()).unwrap_err();
    assert_eq!(error, " is not a valid subscriber email.");
}

#[test]
fn verdict_decides_between_address_and_message() {
    assert_eq!(accept_or_reject("a@b.c".to_string(), true), Ok("a@b.c".to_string()));
    assert_eq!(
        accept_or_reject("a@b.c".to_string(), false),
        Err("a@b.c is not a valid subscriber email.".to_string())
    );
    assert_eq!(accept_or_reject("nonsense".to_string(), true), Ok("nonsense".to_string()));
}

#[test]
fn a_256_character_long_name_is_valid() {
    let name = "a".repeat(256);
    let parsed = SubscriberName::parse(name.clone()).unwrap();
    assert_eq!(parsed.as_ref(), name);
}

#[test]
fn a_name_longer_than_256_characters_is_rejected() {
    let name = "a".repeat(257);
    assert!(SubscriberName::parse(name).is_err());
}

#[test]
fn length_is_counted_in_graphemes_not_bytes() {
    let name = "ё".repeat(256);
    assert_eq!(name.len(), 512);
    let parsed = SubscriberName::parse(name.clone()).unwrap();
    assert_eq!(parsed.as_ref(), name);
    assert!(SubscriberName::parse("ё".repeat(257)).is_err());
}

#[test]
fn length_is_counted_in_graphemes_not_scalar_values() {
    let name = "e\u{301}".repeat(200);
    assert_eq!(name.chars().count(), 400);
    let parsed = SubscriberName::parse(name.clone()).unwrap();
    assert_eq!(parsed.as_ref(), name);

    let name = "e\u{301}".repeat(256);
    assert_eq!(name.chars().count(), 512);
    let parsed = SubscriberName::parse(name.clone()).unwrap();
    assert_eq!(parsed.as_ref(), name);

    assert!(SubscriberName::parse("e\u{301}".repeat(257)).is_err());

    let flags = "🇷🇺".repeat(256);
    assert_eq!(flags.chars().count(), 512);
    assert!(SubscriberName::parse(flags).is_ok());
    assert!(SubscriberName::parse("🇷🇺".repeat(257)).is_err());
}

#[test]
fn a_form_with_a_long_accented_name_becomes_a_new_subscriber() {
    let name = "e\u{301}".repeat(200);
    let form = FormData { email: "ursula@example.com".to_string(), name: name.clone() };
    let subscriber = NewSubscriber::try_from(form).unwrap();
    assert_eq!(subscriber.name.as_ref(), name);
}

#[test]
fn trimming_cuts_whitespace_from_both_ends_only() {
    assert_eq!(trimmed("  a b  "), "a b");
    assert_eq!(trimmed("\u{3000}x\u{a0}\n"), "x");
    assert_eq!(trimmed(" \t "), "");
    assert_eq!(trimmed(""), "");
    assert_eq!(trimmed("x"), "x");
    for text in ["  a b  ", "\u{2003}é \u{85}", "\r\n", "x\u{200b}"] {
        assert_eq!(trimmed(text), text.trim());
    }
}

#[test]
fn the_verdict_on_a_name_follows_the_count_it_is_given() {
    assert!(is_name("Ursula", 6));
    assert!(is_name("Ursula", 256));
    assert!(!is_name("Ursula", 257));
    assert!(is_name("x", 0));
    assert!(!is_name("", 0));
    assert!(!is_name("a/b", 3));
    assert!(!is_name("a}", 2));
}

#[test]
fn length_is_checked_after_trimming() {
    let padded = format!("  {}\t\n", "a".repeat(256));
    let parsed = SubscriberName::parse(padded).unwrap();
    assert_eq!(parsed.as_ref(), "a".repeat(256));
    let padded = format!(" {} ", "a".repeat(257));
    assert!(SubscriberName::parse(padded).is_err());
}

#[test]
fn whitespace_only_names_are_rejected() {
    for name in ["", " ", "   ", "\t", "\n \r\n", "\u{a0}\u{2003}\u{3000}", "\u{85}\u{1680}"] {
        assert!(SubscriberName::parse(name.to_string()).is_err(), "{:?}", name);
    }
}

#[test]
fn names_containing_an_invalid_character_are_rejected() {
    for c in ['/', '(', ')', '"', '<', '>', '\\', '{', '}'] {
        assert!(SubscriberName::parse(c.to_string()).is_err());
        assert!(SubscriberName::parse(format!("Ursula{}Le Guin", c)).is_err());
        assert!(SubscriberName::parse(format!("Ursula Le Guin{}", c)).is_err());
        assert!(SubscriberName::parse(format!("  {}x ", c)).is_err());
    }
}

#[test]
fn a_valid_name_is_parsed_successfully() {
    let parsed = SubscriberName::parse("Ursula Le Guin".to_string()).unwrap();
    assert_eq!(parsed.as_ref(), "Ursula Le Guin");
}

#[test]
fn surrounding_whitespace_is_trimmed_and_inner_whitespace_kept() {
    let parsed = SubscriberName::parse("  Ursula  Le\tGuin \n".to_string()).unwrap();
    assert_eq!(parsed.as_ref(), "Ursula  Le\tGuin");
    let parsed = SubscriberName::parse("\u{3000}\u{2009}Le Guin\u{a0}".to_string()).unwrap();
    assert_eq!(parsed.as_ref(), "Le Guin");
    let parsed = SubscriberName::parse(" x".to_string()).unwrap();
    assert_eq!(parsed.as_ref(), "x");
}

#[test]
fn other_punctuation_is_allowed_in_names() {
    for name in ["O'Brien", "Jean-Luc", "a.b,c;d:e", "[x]", "100%", "名前"] {
        let parsed = SubscriberName::parse(name.to_string()).unwrap();
        assert_eq!(parsed.as_ref(), name);
    }
}

#[test]
fn rejected_name_comes_back_untrimmed_in_the_message() {
    let error = SubscriberName::parse("  a/b ".to_string()).unwrap_err();
    assert_eq!(error, "  a/b  is not a valid subscriber name.");
    let error = SubscriberName::parse("".to_string()).unwrap_err();
    assert_eq!(error, " is not a valid subscriber name.");
}

#[test]
fn parsing_a_name_is_deterministic_and_idempotent() {
    let first = SubscriberName::parse(" Ursula ".to_string()).unwrap();
    let second = SubscriberName::parse(" Ursula ".to_string()).unwrap();
    assert_eq!(first.as_ref(), second.as_ref());
    let again = SubscriberName::parse(first.as_ref().to_string()).unwrap();
    assert_eq!(again.as_ref(), first.as_ref());
}

#[test]
fn whitespace_is_what_the_standard_library_calls_whitespace() {
    let mut count = 0;
    for code in 0..=0x10ffffu32 {
        if let Some(c) = char::from_u32(code) {
            assert_eq!(is_whitespace_char(c), c.is_whitespace(), "U+{:04X}", code);
            if is_whitespace_char(c) {
                count += 1;
            }
        }
    }
    assert_eq!(count, 25);
}

#[test]
fn exactly_nine_characters_are_forbidden() {
    let forbidden: Vec<char> =
        (0..=0x10ffffu32).filter_map(char::from_u32).filter(|c| is_forbidden_char(*c)).collect();
    assert_eq!(forbidden, vec!['"', '(', ')', '/', '<', '>', '\\', '{', '}']);
}

#[test]
fn a_form_with_valid_fields_becomes_a_new_subscriber() {
    let form =
        FormData { email: "ursula@example.com".to_string(), name: " Ursula Le Guin ".to_string() };
    let subscriber = NewSubscriber::try_from(form).unwrap();
    assert_eq!(subscriber.name.as_ref(), "Ursula Le Guin");
    assert_eq!(subscriber.email.as_ref(), "ursula@example.com");
}

#[test]
fn a_form_is_turned_down_by_the_first_check_that_fails() {
    let form = FormData { email: "not-an-email".to_string(), name: "".to_string() };
    assert_eq!(NewSubscriber::try_from(form).unwrap_err(), " is not a valid subscriber name.");
    let form = FormData { email: "not-an-email".to_string(), name: "Ursula".to_string() };
    assert_eq!(
        NewSubscriber::try_from(form).unwrap_err(),
        "not-an-email is not a valid subscriber email."
    );
    let form = FormData { email: "ursula@example.com".to_string(), name: "Ur<sula".to_string() };
    assert_eq!(
        NewSubscriber::try_from(form).unwrap_err(),
        "Ur<sula is not a valid subscriber name."
    );
}
