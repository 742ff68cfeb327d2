use permcheck::style::{blue, bold, green, red};

#[test]
fn test_red() {
    assert_eq!(
        red("Error: The specified path doesn't exist.", None),
        "\x1b[31mError: The specified path doesn't exist.\x1b[0m"
    );
}

#[test]
fn test_green() {
    assert_eq!(green("Done!", None), "\x1b[32mDone!\x1b[0m");
}

#[test]
fn test_blue() {
    assert_eq!(blue("└──", None), "\x1b[34m└──\x1b[0m");
}

#[test]
fn bold_wraps_text() {
    assert_eq!(bold("R"), "\x1b[1mR\x1b[0m");
}

#[test]
fn colour_with_params_appends_debug_list() {
    let params: [&str; 2] = ["a", "b\"c"];
    assert_eq!(
        red("x", Some(&params[..])),
        "\x1b[31mx [\"a\", \"b\\\"c\"]\x1b[0m"
    );
    assert_eq!(green("", Some(&[][..])), "\x1b[32m []\x1b[0m");
}
