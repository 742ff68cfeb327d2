use permcheck::cli::{parse_args, same_text, CliError, Options};

fn args(v: &[&str]) -> Vec<String> {
    v.iter().map(|s| s.to_string()).collect()
}

#[test]
fn help_when_no_arguments_or_asked() {
    assert_eq!(parse_args(&args(&["check"])).err(), Some(CliError::Help));
    assert_eq!(parse_args(&args(&["check", "-h"])).err(), Some(CliError::Help));
    assert_eq!(parse_args(&args(&["check", "--help", "/x"])).err(), Some(CliError::Help));
    assert_eq!(CliError::Help.exit_code(), 1);
    assert!(CliError::Help.message().is_none());
}

#[test]
fn missing_user_value_is_usage_failure() {
    let r = parse_args(&args(&["check", "/tmp", "-u"]));
    assert_eq!(r.err(), Some(CliError::MissingUser));
    assert_eq!(CliError::MissingUser.exit_code(), 2);
    assert_eq!(
        CliError::MissingUser.message().unwrap(),
        "\x1b[31mError: Missing argument for -u option.\x1b[0m"
    );
}

#[test]
fn path_not_found_failure() {
    assert_eq!(CliError::PathNotFound.exit_code(), 2);
    assert_eq!(
        CliError::PathNotFound.message().unwrap(),
        "\x1b[31mError: The specified path doesn't exist.\x1b[0m"
    );
}

#[test]
fn options_are_read() {
    let o = parse_args(&args(&["check", "-H", "/var/www", "-u", "user1", "--verbose"])).unwrap();
    assert_eq!(o.path, "/var/www");
    assert_eq!(o.user, "user1");
    assert!(o.human_readable);
    assert!(o.verbose);
    let o = parse_args(&args(&["check", "-v"])).unwrap();
    assert_eq!(o.path, ".");
    assert_eq!(o.user, "");
    assert!(!o.human_readable);
    assert!(o.verbose);
    let o = parse_args(&args(&["check", "/a", "/b"])).unwrap();
    assert_eq!(o.path, "/b");
}

#[test]
fn user_falls_back_when_empty() {
    let o = Options { path: ".".to_string(), user: String::new(), human_readable: false, verbose: false };
    assert_eq!(o.user_or("me".to_string()), "me");
    let o = Options { path: ".".to_string(), user: "alice".to_string(), human_readable: false, verbose: false };
    assert_eq!(o.user_or("me".to_string()), "alice");
}

#[test]
fn text_comparison() {
    assert!(same_text("-u", "-u"));
    assert!(!same_text("-u", "-U"));
    assert!(!same_text("-u", "-uu"));
    assert!(same_text("", ""));
}
