use minigrep::Config;
use minigrep::ConfigError;

fn args_of(items: &[&str]) -> Vec<String> {
    items.iter().map(|s| String::from(*s)).collect()
}

#[test]
fn new_config() {
    let args = args_of(&["", "pattern", "filename"]);
    let config = Config::new(&args, None).unwrap();

    assert_eq!(config.pattern, "pattern");
    assert_eq!(config.filename, "filename");
}

#[test]
fn too_few_arguments_are_rejected() {
    let args = args_of(&["program"]);
    assert_eq!(Err(ConfigError::InsufficientArguments), Config::new(&args, None).map(|_| ()));

    let args = args_of(&["program", "pattern"]);
    assert_eq!(Err(ConfigError::InsufficientArguments), Config::new(&args, None).map(|_| ()));

    let args = args_of(&[]);
    assert_eq!(Err(ConfigError::InsufficientArguments), Config::new(&args, None).map(|_| ()));
}

#[test]
fn extra_arguments_are_ignored() {
    let args = args_of(&["program", "pattern", "filename", "extra", "more"]);
    let config = Config::new(&args, None).unwrap();

    assert_eq!(config.pattern, "pattern");
    assert_eq!(config.filename, "filename");
}

#[test]
fn error_message_names_the_missing_arguments() {
    assert_eq!(ConfigError::InsufficientArguments.message(), "not enough arguments specified");
}

#[test]
fn env_value_one_requests_case_insensitive() {
    let args = args_of(&["program", "pattern", "filename"]);

    let config = Config::new(&args, Some("1")).unwrap();
    assert!(!config.case_sensitive);

    let config = Config::new(&args, Some("01")).unwrap();
    assert!(!config.case_sensitive);

    let config = Config::new(&args, Some("+1")).unwrap();
    assert!(!config.case_sensitive);
}

#[test]
fn other_env_values_stay_case_sensitive() {
    let args = args_of(&["program", "pattern", "filename"]);

    for val in ["0", "2", "10", "-1", "", " 1", "one", "true", "1x", "+"] {
        let config = Config::new(&args, Some(val)).unwrap();
        assert!(config.case_sensitive, "value {:?} must stay case-sensitive", val);
    }

    let config = Config::new(&args, None).unwrap();
    assert!(config.case_sensitive);
}
