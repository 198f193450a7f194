use oxc_ex_nif::paths::{is_bare_specifier, normalize_virtual_path};

fn path_of(name: &str) -> String {
    normalize_virtual_path(name).unwrap()
}

fn refusal_of(name: &str) -> String {
    normalize_virtual_path(name).unwrap_err()
}

#[test]
fn plain_name_stays() {
    assert_eq!(path_of("src/app.ts"), "src/app.ts");
    assert_eq!(path_of("app.ts"), "app.ts");
}

#[test]
fn blank_pieces_are_dropped() {
    assert_eq!(path_of("./src/./app.ts"), "src/app.ts");
    assert_eq!(path_of("src//app.ts"), "src/app.ts");
    assert_eq!(path_of("/src/app.ts/"), "src/app.ts");
}

#[test]
fn parent_takes_the_piece_before_it() {
    assert_eq!(path_of("src/lib/../app.ts"), "src/app.ts");
    assert_eq!(path_of("a/b/../../c"), "c");
}

#[test]
fn parent_of_the_root_is_the_root() {
    assert_eq!(path_of("../../lib/app.ts"), "lib/app.ts");
    assert_eq!(path_of("/../a"), "a");
}

#[test]
fn dots_inside_a_name_are_kept() {
    assert_eq!(path_of(".../a"), ".../a");
    assert_eq!(path_of(".hidden/..x"), ".hidden/..x");
}

#[test]
fn backslashes_separate() {
    assert_eq!(path_of("src\\lib\\..\\app.ts"), "src/app.ts");
    assert_eq!(path_of("src\\app.ts"), path_of("src/app.ts"));
}

#[test]
fn path_to_the_root_is_refused() {
    assert_eq!(refusal_of(""), "Invalid virtual filename: \"\"");
    assert_eq!(refusal_of("/"), "Invalid virtual filename: \"/\"");
    assert_eq!(refusal_of("a/.."), "Invalid virtual filename: \"a/..\"");
    assert_eq!(refusal_of(".\\.."), "Invalid virtual filename: \".\\\\..\"");
}

#[test]
fn refused_name_is_quoted_with_escapes() {
    assert_eq!(refusal_of("\u{0}/.."), "Invalid virtual filename: \"\\0/..\"");
    assert_eq!(refusal_of("\"/.."), "Invalid virtual filename: \"\\\"/..\"");
}

#[test]
fn normalizing_twice_changes_nothing() {
    for name in ["./a/../b.ts", "/x//y", "a\\b\\c", "../up"] {
        let once = path_of(name);
        assert_eq!(path_of(&once), once);
    }
}

#[test]
fn other_characters_are_kept() {
    assert_eq!(path_of("src/größe 漢.ts"), "src/größe 漢.ts");
}

#[test]
fn package_specifiers_are_bare() {
    assert!(is_bare_specifier("vue"));
    assert!(is_bare_specifier("@scope/name"));
    assert!(is_bare_specifier("http://host/x.js"));
    assert!(is_bare_specifier(""));
}

#[test]
fn file_specifiers_are_not_bare() {
    assert!(!is_bare_specifier("./app"));
    assert!(!is_bare_specifier("../app"));
    assert!(!is_bare_specifier("/app"));
    assert!(!is_bare_specifier(".hidden"));
}
