use zero2prod::config::Environment;
use zero2prod::error::AppError;

#[test]
fn environments_parse_in_any_case() {
    assert_eq!(Environment::parse("local").ok(), Some(Environment::Local));
    assert_eq!(Environment::parse("PRODUCTION").ok(), Some(Environment::Production));
    assert_eq!(Environment::Local.as_str(), "local");
    assert_eq!(Environment::Production.as_str(), "production");
}

#[test]
fn an_unknown_environment_is_named_in_the_error() {
    let error = Environment::parse("Staging").err().unwrap();
    assert_eq!(
        error.0,
        "staging is not a supported environment. Use either `local` or `production`."
    );
}

#[test]
fn app_errors_map_to_status_codes() {
    assert_eq!(AppError::Validation("x".to_string()).status_code(), 400);
    assert_eq!(AppError::Authorization("x".to_string()).status_code(), 401);
    assert_eq!(AppError::Unexpected("x".to_string()).status_code(), 500);
}

#[test]
fn lowercase_names_are_read_exactly() {
    assert_eq!(
        Environment::parse_lowercase("production".to_string()).ok(),
        Some(Environment::Production)
    );
    assert_eq!(
        Environment::parse_lowercase("Local".to_string()).err().unwrap().0,
        "Local is not a supported environment. Use either `local` or `production`."
    );
}
