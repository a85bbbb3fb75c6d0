use zero2prod::domain::{
    confirmation_email, confirmation_link, name_problem_of, parse_subscriber_emails, Email, Name,
    NewSubscriber, SubscriberName,
};
use zero2prod::error::AppError;
use zero2prod::schema::SubscribeBody;

#[test]
fn mod_a_256_grapheme_long_name_is_valid() {
    let name = "a̐".repeat(256);
    assert!(SubscriberName::parse(name).is_ok());
}

#[test]
fn mod_a_name_longer_than_256_graphemes_is_rejected() {
    let name = "a".repeat(257);
    assert!(SubscriberName::parse(name).is_err());
}

#[test]
fn mod_whitespace_only_names_are_rejected() {
    let name = " ".to_string();
    assert!(SubscriberName::parse(name).is_err());
}

#[test]
fn mod_empty_string_is_rejected() {
    let name = "".to_string();
    assert!(SubscriberName::parse(name).is_err());
}

#[test]
fn mod_names_containing_an_invalid_character_are_rejected() {
    for name in &['/', '(', ')', '"', '<', '>', '\\', '{', '}'] {
        let name = name.to_string();
        assert!(SubscriberName::parse(name).is_err());
    }
}

#[test]
fn mod_a_valid_name_is_parsed_successfully() {
    let name = "Kurt Gödel".to_string();
    assert!(SubscriberName::parse(name).is_ok());
}

#[test]
fn name_a_256_grapheme_long_name_is_valid() {
    let name = "a̐".repeat(256);
    assert!(Name::parse(name).is_ok());
}

#[test]
fn name_a_name_longer_than_256_graphemes_is_rejected() {
    let name = "a".repeat(257);
    assert!(Name::parse(name).is_err());
}

#[test]
fn name_whitespace_only_names_are_rejected() {
    let name = " ".to_string();
    assert!(Name::parse(name).is_err());
}

#[test]
fn name_empty_string_is_rejected() {
    let name = "".to_string();
    assert!(Name::parse(name).is_err());
}

#[test]
fn name_names_containing_an_invalid_character_are_rejected() {
    for name in &['/', '(', ')', '"', '<', '>', '\\', '{', '}'] {
        let name = name.to_string();
        assert!(Name::parse(name).is_err());
    }
}

#[test]
fn name_a_valid_name_is_parsed_successfully() {
    let name = "Kurt Gödel".to_string();
    assert!(Name::parse(name).is_ok());
}

#[test]
fn email_empty_string_is_rejected() {
    let email = "".to_string();
    assert!(Email::parse(email).is_err());
}

#[test]
fn email_missing_at_symbol_is_rejected() {
    let email = "ursuladomain.com".to_string();
    assert!(Email::parse(email).is_err());
}

#[test]
fn email_missing_subject_is_rejected() {
    let email = "@domain.com".to_string();
    assert!(Email::parse(email).is_err());
}

#[test]
fn name_errors_say_what_is_wrong() {
    assert_eq!(Name::parse("  ".to_string()).err().unwrap(), "name is empty");
    assert_eq!(Name::parse("b".repeat(300)).err().unwrap(), "name is too long");
    assert_eq!(
        Name::parse("a<b".to_string()).err().unwrap(),
        "name contains invalid characters"
    );
}

#[test]
fn a_valid_name_keeps_its_text() {
    let name = Name::parse("Ursula Le Guin".to_string()).ok().unwrap();
    assert_eq!(name.as_str(), "Ursula Le Guin");
}

#[test]
fn a_valid_email_is_accepted() {
    let email = Email::parse("ursula@example.com".to_string()).ok().unwrap();
    assert_eq!(email.as_str(), "ursula@example.com");
    assert_eq!(
        Email::parse("definitely-not-an-email".to_string()).err().unwrap(),
        "invalid email"
    );
}

#[test]
fn a_subscription_form_checks_the_name_before_the_address() {
    let both_bad = SubscribeBody {
        email: "".to_string(),
        name: "".to_string(),
    };
    assert_eq!(NewSubscriber::parse(both_bad).err().unwrap(), "name is empty");
    let bad_email = SubscribeBody {
        email: "bulbasaur".to_string(),
        name: "bulbasaur".to_string(),
    };
    assert_eq!(NewSubscriber::parse(bad_email).err().unwrap(), "invalid email");
    let good = SubscribeBody {
        email: "bulbasaur@example.com".to_string(),
        name: "bulbasaur".to_string(),
    };
    let subscriber = NewSubscriber::parse(good).ok().unwrap();
    assert_eq!(subscriber.name.as_str(), "bulbasaur");
    assert_eq!(subscriber.email.as_str(), "bulbasaur@example.com");
}

#[test]
fn the_confirmation_email_carries_the_link() {
    let email = confirmation_email("https://example.com", "abc123");
    let link = "https://example.com/api/v1/subscriptions/confirm?subscription_token=abc123";
    assert_eq!(confirmation_link("https://example.com", "abc123"), link);
    assert_eq!(email.subject, "Welcome!");
    assert_eq!(
        email.text_body,
        format!("Welcome to our newsletter!\nVisit {} to confirm your subscription.", link)
    );
    assert_eq!(
        email.html_body,
        format!(
            "Welcome to our newsletter!<br />Click <a href=\"{}\">here</a> to confirm your subscription.",
            link
        )
    );
}

#[test]
fn stored_addresses_are_checked_one_by_one() {
    let rows = vec![
        "ursula@example.com".to_string(),
        "definitely-not-an-email".to_string(),
        "bulbasaur@example.com".to_string(),
    ];
    let parsed = parse_subscriber_emails(&rows);
    assert_eq!(parsed.len(), 3);
    assert_eq!(parsed[0].as_ref().ok().unwrap().as_str(), "ursula@example.com");
    assert!(parsed[1].is_err());
    assert_eq!(parsed[2].as_ref().ok().unwrap().as_str(), "bulbasaur@example.com");
}

#[test]
fn name_rules_apply_to_the_given_counts() {
    assert_eq!(name_problem_of("x", "", 1).unwrap(), "name is empty");
    assert_eq!(name_problem_of("x", "x", 257).unwrap(), "name is too long");
    assert!(name_problem_of("x", "x", 256).is_none());
    assert_eq!(
        name_problem_of("a}", "a}", 2).unwrap(),
        "name contains invalid characters"
    );
}

#[test]
fn subscription_subscribe_returns_a_400_when_fields_are_present_but_invalid() {
    let test_cases = vec![
        ("", "bulbasaur@mail.com", "empty name"),
        ("bulbasaur", "", "empty email"),
        ("bulbasaur", "definitely-not-an-email", "invalid email"),
    ];
    for (name, email, description) in test_cases {
        let body = SubscribeBody {
            email: email.to_string(),
            name: name.to_string(),
        };
        let error = NewSubscriber::parse(body).err().unwrap();
        assert_eq!(
            AppError::Validation(error).status_code(),
            400,
            "The API did not return a 400 Bad Request when the payload was {}.",
            description
        );
    }
}
