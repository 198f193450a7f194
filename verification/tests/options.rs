use oxc_ex_nif::options::{
    build_transform_options, default_format, default_jsx_runtime, default_true, parser_options,
    select_transform_options, JsxRuntime, MinifyInput, ParserOptions, TransformInput,
};

#[test]
fn defaults_are_fixed() {
    assert!(default_true());
    assert_eq!(default_jsx_runtime(), "automatic");
    assert_eq!(default_format(), "iife");
    assert!(MinifyInput::default().mangle);
    assert!(parser_options().parse_regular_expression);
    assert!(!ParserOptions::default().parse_regular_expression);
}

#[test]
fn default_transformation_asks_for_nothing() {
    let input = TransformInput::default();
    assert_eq!(input.jsx_runtime, "automatic");
    assert_eq!(input.jsx_factory, "");
    assert_eq!(input.jsx_fragment, "");
    assert_eq!(input.import_source, "");
    assert_eq!(input.target, "");
    assert!(!input.sourcemap);
}

#[test]
fn empty_texts_leave_settings_out() {
    let settings = build_transform_options("automatic", "", "", "", "");
    assert_eq!(settings.runtime, JsxRuntime::Automatic);
    assert_eq!(settings.pragma, None);
    assert_eq!(settings.pragma_frag, None);
    assert_eq!(settings.import_source, None);
    assert_eq!(settings.target, None);
}

#[test]
fn given_texts_are_settings() {
    let settings = build_transform_options("classic", "h", "Frag", "preact", "es2020,chrome80");
    assert_eq!(settings.runtime, JsxRuntime::Classic);
    assert_eq!(settings.pragma.as_deref(), Some("h"));
    assert_eq!(settings.pragma_frag.as_deref(), Some("Frag"));
    assert_eq!(settings.import_source.as_deref(), Some("preact"));
    assert_eq!(settings.target.as_deref(), Some("es2020,chrome80"));
}

#[test]
fn only_classic_is_told_from_automatic() {
    for runtime in ["automatic", "", "Classic", "preserve"] {
        assert_eq!(
            build_transform_options(runtime, "", "", "", "").runtime,
            JsxRuntime::Automatic,
        );
    }
}

#[test]
fn unknown_targets_are_left_out() {
    for target in ["nonsense", "es2020,nonsense", "chrome", "es5", " es2020", ",es2020", "42", "?"] {
        assert_eq!(build_transform_options("", "", "", "", target).target, None);
    }
}

#[test]
fn editions_are_kept() {
    for target in [
        "es6", "es2015", "es2016", "es2017", "es2018", "es2019", "es2020", "es2021", "es2022",
        "es2023", "es2024", "es2025", "es2026", "esnext",
    ] {
        let settings = build_transform_options("", "", "", "", target);
        assert_eq!(settings.target.as_deref(), Some(target));
    }
}

#[test]
fn target_depends_on_whether_it_is_known() {
    let known = select_transform_options("", "", "", "", "t", true);
    assert_eq!(known.target.as_deref(), Some("t"));
    let unknown = select_transform_options("", "", "", "", "t", false);
    assert_eq!(unknown.target, None);
    let missing = select_transform_options("", "", "", "", "", true);
    assert_eq!(missing.target, None);
}
