use zero2prod::configuration::{DatabaseSettings, Settings};
use zero2prod::text::{contains_text, decimal};

fn settings(port: u16) -> DatabaseSettings {
    DatabaseSettings {
        username: "postgres".to_string(),
        password: "pass:word".to_string(),
        port,
        host: "localhost".to_string(),
        database_name: "newsletter".to_string(),
    }
}

#[test]
fn connection_string_names_every_setting_in_order() {
    assert_eq!(
        settings(5432).connection_string(),
        "postgres://postgres:pass:word@localhost:5432/newsletter"
    );
}

#[test]
fn connection_string_writes_the_port_in_decimal() {
    assert_eq!(settings(0).connection_string(), "postgres://postgres:pass:word@localhost:0/newsletter");
    assert_eq!(
        settings(65535).connection_string(),
        "postgres://postgres:pass:word@localhost:65535/newsletter"
    );
    assert_eq!(settings(80).connection_string(), "postgres://postgres:pass:word@localhost:80/newsletter");
}

#[test]
fn connection_string_of_empty_settings_keeps_the_punctuation() {
    let empty = DatabaseSettings {
        username: String::new(),
        password: String::new(),
        port: 1,
        host: String::new(),
        database_name: String::new(),
    };
    assert_eq!(empty.connection_string(), "postgres://:@:1/");
}

#[test]
fn settings_hold_the_database_and_the_port() {
    let all = Settings { database: settings(5432), application_port: 8000 };
    assert_eq!(all.application_port, 8000);
    assert_eq!(all.database.host, "localhost");
}

#[test]
fn decimal_agrees_with_the_standard_library() {
    for n in 0..=u16::MAX {
        assert_eq!(decimal(n), n.to_string());
    }
}

#[test]
fn text_search_agrees_with_the_standard_library() {
    let wholes = ["", "a", "ab", "abab", "aab", "subscriptions_email_key", "étoile", "aaa"];
    let parts = ["", "a", "b", "ab", "ba", "aab", "email", "key", "é", "toile", "aaaa"];
    for whole in wholes {
        for part in parts {
            assert_eq!(contains_text(whole, part), whole.contains(part), "{:?} {:?}", whole, part);
        }
    }
}
