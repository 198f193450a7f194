use oxc_ex_nif::bundle::{
    bundle_output, finish_bundle, BundleAction, BundleAsset, BundleChunk, BundleEvent,
    BundleOutcome, BundleRun,
};
use oxc_ex_nif::compile::TransformOutput;
use oxc_ex_nif::config::BundleOptions;

fn files(list: &[(&str, &str)]) -> Vec<(String, String)> {
    list.iter().map(|(name, source)| (name.to_string(), source.to_string())).collect()
}

fn entry(name: &str) -> BundleOptions {
    BundleOptions { entry: name.to_string(), ..BundleOptions::default() }
}

fn outcome(action: BundleAction) -> BundleOutcome {
    match action {
        BundleAction::Finish(outcome) => outcome,
        other => panic!("{other:?}"),
    }
}

fn written(action: BundleAction) -> (String, String) {
    match action {
        BundleAction::WriteFile { path, source } => (path, source),
        other => panic!("{other:?}"),
    }
}

fn refused(list: &[(&str, &str)], name: &str) -> Vec<String> {
    outcome(BundleRun::start(files(list), entry(name)).1).unwrap_err()
}

fn ready(list: &[(&str, &str)], opts: BundleOptions) -> (BundleRun, BundleAction) {
    let (run, action) = BundleRun::start(files(list), opts);
    assert!(matches!(action, BundleAction::CreateDirectory));
    run.step(BundleEvent::DirectoryReady("/tmp/p".to_string()))
}

fn bundling(opts: BundleOptions) -> BundleRun {
    let (run, _) = ready(&[("a.ts", "")], opts);
    let (run, action) = run.step(BundleEvent::FileWritten);
    assert!(matches!(action, BundleAction::Bundle(_)));
    run
}

fn chunk(code: &str, map: Option<&str>) -> BundleAsset {
    BundleAsset::Chunk(BundleChunk { code: code.to_string(), map: map.map(str::to_string) })
}

#[test]
fn project_without_files_is_refused() {
    assert_eq!(refused(&[], ""), ["bundle/2 requires at least one file"]);
}

#[test]
fn project_without_an_entry_is_refused() {
    assert_eq!(refused(&[("a.ts", "/(/")], ""), ["bundle/2 requires an :entry option"]);
}

#[test]
fn entry_that_leads_nowhere_is_refused() {
    assert_eq!(refused(&[("a.ts", "/(/")], ".."), ["Invalid virtual filename: \"..\""]);
}

#[test]
fn project_with_syntax_errors_is_refused() {
    assert_eq!(
        refused(&[("a.ts", "/(/")], "a.ts"),
        ["Invalid regular expression: Unterminated capturing group"],
    );
}

#[test]
fn files_are_written_and_bundled() {
    let list = [("./src/a.ts", "import 'vue'; import './b'"), ("src\\b.ts", "b()")];
    let (run, action) = ready(&list, entry("/src/a.ts"));
    assert_eq!(written(action), ("src/a.ts".to_string(), "import 'vue'; import './b'".to_string()));
    let (run, action) = run.step(BundleEvent::FileWritten);
    assert_eq!(written(action), ("src/b.ts".to_string(), "b()".to_string()));
    let (run, action) = run.step(BundleEvent::FileWritten);
    match action {
        BundleAction::Bundle(config) => {
            assert_eq!(config.cwd, "/tmp/p");
            assert_eq!(config.import, "src/a.ts");
            assert_eq!(config.external, Some(vec!["vue".to_string()]));
        },
        other => panic!("{other:?}"),
    }
    let (_, action) = run.step(BundleEvent::Bundled(vec![BundleAsset::Asset, chunk("x();", None)]));
    assert_eq!(outcome(action), Ok(("x();".to_string(), None)));
}

#[test]
fn directory_that_cannot_be_made_ends_the_run() {
    let (run, _) = BundleRun::start(files(&[("a.ts", "")]), entry("a.ts"));
    let (_, action) = run.step(BundleEvent::DirectoryFailed("disk full".to_string()));
    assert_eq!(outcome(action).unwrap_err(), ["Failed to create temp directory: disk full"]);
}

#[test]
fn name_that_leads_nowhere_ends_the_run() {
    let (run, _) = ready(&[("a.ts", ""), ("b/..", "")], entry("a.ts"));
    let (_, action) = run.step(BundleEvent::FileWritten);
    assert_eq!(outcome(action).unwrap_err(), ["Invalid virtual filename: \"b/..\""]);
}

#[test]
fn path_that_is_taken_ends_the_run() {
    let (run, _) = ready(&[("a.ts", ""), ("b.ts", ""), ("./a.ts", "")], entry("a.ts"));
    let (run, _) = run.step(BundleEvent::FileWritten);
    let (_, action) = run.step(BundleEvent::FileWritten);
    assert_eq!(
        outcome(action).unwrap_err(),
        ["Duplicate module path after normalization: \"./a.ts\""],
    );
}

#[test]
fn directory_of_a_file_that_cannot_be_made_ends_the_run() {
    let (run, _) = ready(&[("a.ts", ""), ("b/c\"d.ts", "")], entry("a.ts"));
    let (run, _) = run.step(BundleEvent::FileWritten);
    let (_, action) = run.step(BundleEvent::ParentFailed("denied".to_string()));
    assert_eq!(
        outcome(action).unwrap_err(),
        ["Failed to create directory for \"b/c\\\"d.ts\": denied"],
    );
}

#[test]
fn file_that_cannot_be_written_ends_the_run() {
    let (run, _) = ready(&[("./a.ts", "")], entry("a.ts"));
    let (_, action) = run.step(BundleEvent::WriteFailed("denied".to_string()));
    assert_eq!(outcome(action).unwrap_err(), ["Failed to write \"./a.ts\": denied"]);
}

#[test]
fn entry_that_is_no_file_ends_the_run() {
    let (run, _) = ready(&[("a.ts", "")], entry("./b.ts"));
    let (_, action) = run.step(BundleEvent::FileWritten);
    assert_eq!(outcome(action).unwrap_err(), ["bundle entry \"b.ts\" was not found in files"]);
}

#[test]
fn runtime_that_cannot_start_ends_the_run() {
    let (_, action) = bundling(entry("a.ts")).step(BundleEvent::RuntimeFailed("no".to_string()));
    assert_eq!(outcome(action).unwrap_err(), ["Failed to initialize Tokio runtime: no"]);
}

#[test]
fn messages_of_the_bundler_are_passed_on() {
    let messages = vec!["one".to_string(), "two".to_string()];
    let (_, action) = bundling(entry("a.ts")).step(BundleEvent::BundlerFailed(messages));
    assert_eq!(outcome(action).unwrap_err(), ["one", "two"]);
}

#[test]
fn bundle_without_code_is_refused() {
    let (_, action) = bundling(entry("a.ts")).step(BundleEvent::Bundled(vec![BundleAsset::Asset]));
    assert_eq!(outcome(action).unwrap_err(), ["Rolldown did not produce a JavaScript bundle"]);
}

#[test]
fn first_chunk_is_the_bundle() {
    let assets = vec![BundleAsset::Asset, chunk("one", None), chunk("two", None)];
    assert_eq!(
        finish_bundle(&assets, "/tmp/p", &entry("a.ts")),
        Ok(("one".to_string(), None)),
    );
}

#[test]
fn preamble_is_put_into_the_bundle() {
    let assets = vec![chunk("(function() {})();", None)];
    let mut opts = entry("a.ts");
    opts.preamble = Some("P".to_string());
    assert_eq!(
        finish_bundle(&assets, "/tmp/p", &opts),
        Ok(("(function() {\nP})();".to_string(), None)),
    );
    opts.preamble = Some(String::new());
    assert_eq!(
        finish_bundle(&assets, "/tmp/p", &opts),
        Ok(("(function() {})();".to_string(), None)),
    );
}

#[test]
fn sourcemap_is_made_relative() {
    let mut opts = entry("a.ts");
    opts.sourcemap = true;
    let map = "{\"sources\":[\"/tmp/p/a.ts\"]}";
    assert_eq!(
        finish_bundle(&vec![chunk("c", Some(map))], "/tmp/p", &opts),
        Ok(("c".to_string(), Some("{\"sources\":[\"a.ts\"]}".to_string()))),
    );
}

#[test]
fn missing_or_broken_sourcemap_is_refused() {
    let mut opts = entry("a.ts");
    opts.sourcemap = true;
    assert_eq!(
        finish_bundle(&vec![chunk("c", None)], "/tmp/p", &opts).unwrap_err(),
        ["Rolldown did not produce a source map"],
    );
    let messages = finish_bundle(&vec![chunk("c", Some("?"))], "/tmp/p", &opts).unwrap_err();
    assert_eq!(
        messages,
        ["Failed to parse Rolldown source map: expected value at line 1 column 1"],
    );
}

#[test]
fn sourcemap_that_was_not_asked_for_is_dropped() {
    let assets = vec![chunk("c", Some("?"))];
    assert_eq!(
        finish_bundle(&assets, "/tmp/p", &entry("a.ts")),
        Ok(("c".to_string(), None)),
    );
}

#[test]
fn output_follows_the_bundle() {
    match bundle_output(Ok(("c".to_string(), None))) {
        TransformOutput::Code(code) => assert_eq!(code, "c"),
        other => panic!("{other:?}"),
    }
    match bundle_output(Ok(("c".to_string(), Some("m".to_string())))) {
        TransformOutput::CodeWithSourcemap(both) => {
            assert_eq!((both.code.as_str(), both.sourcemap.as_str()), ("c", "m"));
        },
        other => panic!("{other:?}"),
    }
    match bundle_output(Err(vec!["e".to_string()])) {
        TransformOutput::Errors(messages) => assert_eq!(messages, ["e"]),
        other => panic!("{other:?}"),
    }
}
