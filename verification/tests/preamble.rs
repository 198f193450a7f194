use oxc_ex_nif::preamble::inject_preamble;

#[test]
fn preamble_goes_behind_the_opening() {
    assert_eq!(
        inject_preamble("(function() {\n  run();\n})();", "const a = 1;"),
        "(function() {\nconst a = 1;\n  run();\n})();",
    );
}

#[test]
fn opening_with_a_space_is_found() {
    assert_eq!(
        inject_preamble("var x = (function () {return 1})();", "P"),
        "var x = (function () {\nPreturn 1})();",
    );
}

#[test]
fn opening_without_a_space_is_preferred() {
    assert_eq!(
        inject_preamble("(function () {})();(function() {})();", "P"),
        "(function () {})();(function() {\nP})();",
    );
}

#[test]
fn first_opening_is_taken() {
    assert_eq!(
        inject_preamble("(function() {(function() {})})", "P"),
        "(function() {\nP(function() {})})",
    );
}

#[test]
fn without_an_opening_the_preamble_comes_first() {
    assert_eq!(inject_preamble("export const a = 1;", "P"), "P\nexport const a = 1;");
    assert_eq!(inject_preamble("", "P"), "P\n");
    assert_eq!(inject_preamble("(function(", "P"), "P\n(function(");
}

#[test]
fn characters_around_the_opening_are_kept() {
    assert_eq!(inject_preamble("ä(function() {ö", "漢"), "ä(function() {\n漢ö");
}

#[test]
fn preamble_adds_its_own_length_and_a_line_end() {
    let code = "a;(function() {b})()";
    let preamble = "const q = 2;";
    let whole = inject_preamble(code, preamble);
    assert_eq!(whole.len(), code.len() + 1 + preamble.len());
    assert_eq!(whole.replace("\nconst q = 2;", ""), code);
}
