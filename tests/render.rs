use permcheck::probe::PermissionResult;
use permcheck::render::{capability_glyphs, connector, display_name, display_name_from, indentation, render_line};

const ALLOW_R: &str = "\x1b[1m\x1b[32mR\x1b[0m\x1b[0m";
const ALLOW_W: &str = "\x1b[1m\x1b[32mW\x1b[0m\x1b[0m";
const ALLOW_T: &str = "\x1b[1m\x1b[32mT\x1b[0m\x1b[0m";
const DENY_R: &str = "\x1b[1m\x1b[31mR\x1b[0m\x1b[0m";
const DENY_W: &str = "\x1b[1m\x1b[31mW\x1b[0m\x1b[0m";
const DENY_T: &str = "\x1b[1m\x1b[31mT\x1b[0m\x1b[0m";

fn name(s: &str) -> String {
    format!("\x1b[1m\x1b[34m{}\x1b[0m\x1b[0m", s)
}

#[test]
fn empty_root_with_full_access() {
    let p = PermissionResult::uniform(true, true);
    let line = render_line("/srv/root", false, 0, false, &p);
    assert_eq!(line, format!("{} {}{}{}", name("/srv/root"), ALLOW_R, ALLOW_W, ALLOW_T));
}

#[test]
fn unreadable_file_below_root() {
    let root = render_line("/d", true, 0, false, &PermissionResult::uniform(true, true));
    assert_eq!(root, format!("{} {}{}{}", name("d"), ALLOW_R, ALLOW_W, ALLOW_T));
    let p = PermissionResult { read: false, write: true, traverse: None };
    let line = render_line("/d/a.txt", true, 1, true, &p);
    assert_eq!(line, format!("└── {} {}{}", name("a.txt"), DENY_R, ALLOW_W));
}

#[test]
fn subdirectory_without_traverse() {
    let p = PermissionResult { read: true, write: true, traverse: Some(false) };
    let line = render_line("/d/sub", true, 1, false, &p);
    assert_eq!(line, format!("├── {} {}{}{}", name("sub"), ALLOW_R, ALLOW_W, DENY_T));
}

#[test]
fn deeper_lines_are_indented() {
    let p = PermissionResult::uniform(false, false);
    let line = render_line("/d/sub/x/f", false, 3, true, &p);
    assert_eq!(line, format!("        └── {} {}{}", name("/d/sub/x/f"), DENY_R, DENY_W));
}

#[test]
fn glyph_counts() {
    let dir = capability_glyphs(&PermissionResult::uniform(true, false));
    assert_eq!(dir, format!("{}{}{}", DENY_R, DENY_W, DENY_T));
    let file = capability_glyphs(&PermissionResult::uniform(false, true));
    assert_eq!(file, format!("{}{}", ALLOW_R, ALLOW_W));
}

#[test]
fn connectors_by_position() {
    assert_eq!(connector(0, false), "");
    assert_eq!(connector(0, true), "");
    assert_eq!(connector(1, true), "└── ");
    assert_eq!(connector(2, false), "├── ");
}

#[test]
fn indentation_by_depth() {
    assert_eq!(indentation(0), "");
    assert_eq!(indentation(1), "");
    assert_eq!(indentation(2), "    ");
    assert_eq!(indentation(4), "            ");
}

#[test]
fn display_names() {
    assert_eq!(display_name("/var/www/index.html", false), "/var/www/index.html");
    assert_eq!(display_name("/var/www/index.html", true), "index.html");
    assert_eq!(display_name("/var/www/", true), "www");
    assert_eq!(display_name("/", true), "/");
    assert_eq!(display_name("..", true), "Unknown");
    assert_eq!(display_name(".", false), ".");
}

#[test]
fn display_name_from_given_component() {
    assert_eq!(display_name_from("/a/b", true, Some("b".to_string())), "b");
    assert_eq!(display_name_from("/a/b", true, None), "Unknown");
    assert_eq!(display_name_from("/a/b", false, Some("b".to_string())), "/a/b");
    assert_eq!(display_name_from("/", true, None), "/");
}
