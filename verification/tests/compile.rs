use oxc_ex_nif::compile::{
    collect_imports, imported_modules, imports, message_errors, minify, minify_output, parse,
    transform, transform_many, transform_output, tree_output, valid, MinifyOutput, ParseOutput,
    TransformOutput,
};
use oxc_ex_nif::externals::collect_external_specifiers;
use oxc_ex_nif::imports::{ImportInfo, ImportKind, ImportType};
use oxc_ex_nif::options::{MinifyInput, TransformInput};
use oxc_ex_nif::syntax::{DeclarationKind, Literal, ModuleItem};
use oxc_ex_nif::toolchain::Generated;
use serde_json::Value;

fn code(output: TransformOutput) -> String {
    match output {
        TransformOutput::Code(code) => code,
        other => panic!("{other:?}"),
    }
}

fn errors(output: TransformOutput) -> Vec<String> {
    match output {
        TransformOutput::Errors(messages) => messages,
        other => panic!("{other:?}"),
    }
}

fn tree(source: &str, filename: &str) -> Value {
    match parse(source, filename) {
        ParseOutput::Tree(tree) => tree,
        other => panic!("{other:?}"),
    }
}

fn syntax_errors(source: &str, filename: &str) -> Vec<String> {
    match parse(source, filename) {
        ParseOutput::Errors(errors) => errors.into_iter().map(|error| error.message).collect(),
        other => panic!("{other:?}"),
    }
}

fn specifiers(source: &str, filename: &str) -> Vec<String> {
    let infos: Vec<ImportInfo> = collect_imports(source, filename).unwrap();
    infos.into_iter().map(|info| info.specifier).collect()
}

#[test]
fn parse_gives_estree() {
    let tree = tree("answer = 42", "a.js");
    assert_eq!(tree["type"], "Program");
    assert_eq!(tree["body"][0]["type"], "ExpressionStatement");
    assert_eq!(tree["body"][0]["expression"]["left"]["name"], "answer");
    assert_eq!(tree["body"][0]["expression"]["right"]["value"], 42);
    assert_eq!(tree["end"], 11);
}

#[test]
fn parse_gives_typescript_nodes() {
    let tree = tree("let x: number", "a.ts");
    let id = &tree["body"][0]["declarations"][0]["id"];
    assert_eq!(id["typeAnnotation"]["type"], "TSTypeAnnotation");
}

#[test]
fn parse_reports_syntax_errors() {
    assert_eq!(
        syntax_errors("/(/", "a.js"),
        ["Invalid regular expression: Unterminated capturing group"],
    );
    assert_eq!(
        syntax_errors("/[/", "a.js"),
        ["Unterminated regular expression", "Unexpected token"],
    );
}

#[test]
fn errors_that_are_found_last_are_alike() {
    let source = "({ a = 1 }); ({ b = 2 }); ({ c = 3 });";
    assert_eq!(syntax_errors(source, "a.js"), ["Invalid assignment in object literal"; 3]);
}

#[test]
fn deep_trees_are_refused() {
    assert_eq!(tree(&format!("{}x", "!".repeat(20)), "a.js")["type"], "Program");
    let deep = format!("{}x", "!".repeat(200));
    match parse(&deep, "a.js") {
        ParseOutput::Refused(message) => {
            assert!(message.starts_with("recursion limit exceeded"), "{message}");
        },
        other => panic!("{other:?}"),
    }
    assert!(valid(&deep, "a.js"));
}

#[test]
fn lone_surrogates_are_refused() {
    assert!(matches!(parse(r"x = '\ud800'", "a.js"), ParseOutput::Refused(_)));
    let right = &tree(r"x = '😀'", "a.js")["body"][0]["expression"]["right"];
    assert_eq!(right["value"], "\u{1f600}");
}

#[test]
fn tree_follows_what_was_read() {
    match tree_output(Ok(Value::Bool(true))) {
        ParseOutput::Tree(tree) => assert_eq!(tree, Value::Bool(true)),
        other => panic!("{other:?}"),
    }
    match tree_output(Err("e".to_string())) {
        ParseOutput::Refused(message) => assert_eq!(message, "e"),
        other => panic!("{other:?}"),
    }
}

#[test]
fn language_follows_the_file_name() {
    assert!(valid("let x: number", "a.ts"));
    assert!(!valid("let x: number", "a.js"));
    assert!(!valid("let x: number", "a.unknown"));
    assert!(valid("let x = <a/>", "a.tsx"));
    assert!(!valid("let x = <a/>", "a.ts"));
}

#[test]
fn validity_does_not_look_at_patterns() {
    assert!(valid("/(/", "a.js"));
    assert!(matches!(parse("/(/", "a.js"), ParseOutput::Errors(_)));
    assert!(!valid("/[/", "a.js"));
    assert!(valid("/(a)/", "a.js"));
    assert!(matches!(parse("/(a)/", "a.js"), ParseOutput::Tree(_)));
}

#[test]
fn messages_become_errors_one_by_one() {
    let errors = message_errors(vec!["a".to_string(), "b".to_string()]);
    let messages: Vec<&str> = errors.iter().map(|error| error.message.as_str()).collect();
    assert_eq!(messages, ["a", "b"]);
    assert!(message_errors(Vec::new()).is_empty());
}

#[test]
fn types_are_taken_out() {
    let opts = TransformInput::default();
    assert_eq!(code(transform("const x: number = 1;", "a.ts", &opts)), "const x = 1;\n");
}

#[test]
fn jsx_uses_the_automatic_runtime() {
    let opts = TransformInput::default();
    assert_eq!(
        code(transform("export const x = <a b={1}/>;", "a.tsx", &opts)),
        "import { jsx as _jsx } from \"react/jsx-runtime\";\n\
         export const x = /* @__PURE__ */ _jsx(\"a\", { b: 1 });\n",
    );
}

#[test]
fn jsx_import_source_is_used() {
    let mut opts = TransformInput::default();
    opts.import_source = "preact".to_string();
    let printed = code(transform("export const x = <a/>;", "a.tsx", &opts));
    assert!(printed.contains("from \"preact/jsx-runtime\""));
}

#[test]
fn jsx_classic_runtime_is_used() {
    let mut opts = TransformInput::default();
    opts.jsx_runtime = "classic".to_string();
    assert_eq!(
        code(transform("const x = <a><></></a>;", "a.tsx", &opts)),
        "const x = /* @__PURE__ */ React.createElement(\"a\", null, \
         /* @__PURE__ */ React.createElement(React.Fragment, null));\n",
    );
}

#[test]
fn jsx_factory_and_fragment_are_used() {
    let mut opts = TransformInput::default();
    opts.jsx_runtime = "classic".to_string();
    opts.jsx_factory = "h".to_string();
    opts.jsx_fragment = "Frag".to_string();
    assert_eq!(
        code(transform("const x = <a><></></a>;", "a.tsx", &opts)),
        "const x = /* @__PURE__ */ h(\"a\", null, /* @__PURE__ */ h(Frag, null));\n",
    );
}

#[test]
fn known_target_is_met() {
    let mut opts = TransformInput::default();
    opts.target = "es2015".to_string();
    assert_eq!(code(transform("x = b ** 2;", "a.js", &opts)), "x = Math.pow(b, 2);\n");
}

#[test]
fn unknown_target_is_ignored() {
    let mut opts = TransformInput::default();
    opts.target = "nonsense".to_string();
    let with_unknown = code(transform("x = b ** 2;", "a.js", &opts));
    assert_eq!(with_unknown, "x = b ** 2;\n");
    assert_eq!(with_unknown, code(transform("x = b ** 2;", "a.js", &TransformInput::default())));
}

#[test]
fn sourcemap_lists_the_file_name() {
    let mut opts = TransformInput::default();
    opts.sourcemap = true;
    match transform("const x: number = 1;", "src/a.ts", &opts) {
        TransformOutput::CodeWithSourcemap(both) => {
            assert_eq!(both.code, "const x = 1;\n");
            let map: Value = serde_json::from_str(&both.sourcemap).unwrap();
            assert_eq!(map["version"], 3);
            assert_eq!(map["sources"][0], "src/a.ts");
            assert_eq!(map["sourcesContent"][0], "const x: number = 1;");
            assert_eq!(map["mappings"], "AAAA,MAAM,IAAY");
        },
        other => panic!("{other:?}"),
    }
}

#[test]
fn transform_reports_syntax_errors() {
    let opts = TransformInput::default();
    assert_eq!(
        errors(transform("/(/", "a.js", &opts)),
        ["Invalid regular expression: Unterminated capturing group"],
    );
}

#[test]
fn transform_reports_errors_of_the_transformer() {
    let opts = TransformInput::default();
    let messages = errors(transform("const x = <a:b/>;", "a.jsx", &opts));
    assert_eq!(messages.len(), 1);
    assert!(messages[0].contains("Namespace"), "{}", messages[0]);
}

fn generated(map: Option<&str>) -> Generated {
    Generated { code: "c".to_string(), map: map.map(str::to_string) }
}

#[test]
fn output_follows_the_outcome() {
    assert_eq!(code(transform_output(Some(Ok(generated(None))), false)), "c");
    assert_eq!(code(transform_output(Some(Ok(generated(None))), true)), "c");
    assert_eq!(code(transform_output(Some(Ok(generated(Some("m")))), false)), "c");
    match transform_output(Some(Ok(generated(Some("m")))), true) {
        TransformOutput::CodeWithSourcemap(both) => {
            assert_eq!((both.code.as_str(), both.sourcemap.as_str()), ("c", "m"));
        },
        other => panic!("{other:?}"),
    }
    assert_eq!(errors(transform_output(Some(Err(vec!["e".to_string()])), true)), ["e"]);
}

#[test]
fn outputs_come_in_the_order_of_the_inputs() {
    let mut inputs: Vec<(String, String)> = Vec::new();
    for i in 0..40 {
        inputs.push((format!("const x{i}: number = {i};"), format!("m{i}.ts")));
    }
    inputs.push(("/(/".to_string(), "bad.ts".to_string()));
    let outputs = transform_many(&inputs, &TransformInput::default());
    assert_eq!(outputs.len(), 41);
    for (i, output) in outputs.into_iter().enumerate() {
        if i < 40 {
            assert_eq!(code(output), format!("const x{i} = {i};\n"));
        } else {
            assert_eq!(errors(output).len(), 1);
        }
    }
}

#[test]
fn nothing_is_made_of_no_inputs() {
    assert!(transform_many(&Vec::new(), &TransformInput::default()).is_empty());
}

#[test]
fn minify_shortens_names() {
    let source = "function f(first) { return first + first * (1 + 2); } f(1); console.log(f);";
    assert_eq!(
        minify(source, "a.js", &MinifyInput { mangle: true }),
        MinifyOutput::Code("function f(e){return e+e*3}f(1),console.log(f);".to_string()),
    );
}

#[test]
fn minify_can_keep_names() {
    let source = "function f(first) { return first + first * (1 + 2); } f(1); console.log(f);";
    assert_eq!(
        minify(source, "a.js", &MinifyInput { mangle: false }),
        MinifyOutput::Code(
            "function f(first){return first+first*3}f(1),console.log(f);".to_string(),
        ),
    );
}

#[test]
fn minify_reports_syntax_errors() {
    assert_eq!(
        minify("/(/", "a.js", &MinifyInput::default()),
        MinifyOutput::Errors(vec![
            "Invalid regular expression: Unterminated capturing group".to_string(),
        ]),
    );
}

#[test]
fn imports_lists_import_declarations() {
    let source = "import a from 'a'; import type B from 'b'; export * from 'c'; import('d'); \
                  import './e'";
    assert_eq!(imports(source, "a.ts"), Ok(vec!["a".to_string(), "./e".to_string()]));
}

#[test]
fn imports_reports_syntax_errors() {
    assert_eq!(
        imports("/(/", "a.js"),
        Err(vec!["Invalid regular expression: Unterminated capturing group".to_string()]),
    );
}

#[test]
fn imported_modules_keep_their_order() {
    let source = |value: &str| Literal { value: value.to_string(), start: 0, end: 0 };
    let items = vec![
        ModuleItem::Import { kind: DeclarationKind::Value, source: source("b") },
        ModuleItem::Other,
        ModuleItem::Import { kind: DeclarationKind::Type, source: source("t") },
        ModuleItem::ExportAll { kind: DeclarationKind::Value, source: source("x") },
        ModuleItem::Import { kind: DeclarationKind::Value, source: source("a") },
        ModuleItem::Import { kind: DeclarationKind::Value, source: source("b") },
    ];
    assert_eq!(imported_modules(&items), ["b", "a", "b"]);
}

#[test]
fn collect_imports_finds_declarations_and_calls() {
    let source = "import a from 'a'; import type B from 'b'; export * from 'c'; import('d'); \
                  export {x} from 'f'; export type * from 'g'; export type {Y} from 'h'";
    let infos = collect_imports(source, "a.ts").unwrap();
    let found: Vec<(&str, ImportType, ImportKind, u32, u32)> = infos
        .iter()
        .map(|info| (info.specifier.as_str(), info.import_type, info.kind, info.start, info.end))
        .collect();
    assert_eq!(
        found,
        [
            ("a", ImportType::Static, ImportKind::Import, 14, 17),
            ("c", ImportType::Static, ImportKind::ExportAll, 57, 60),
            ("d", ImportType::Dynamic, ImportKind::Import, 69, 72),
            ("f", ImportType::Static, ImportKind::Export, 91, 94),
        ],
    );
}

#[test]
fn collect_imports_searches_expressions() {
    let source = "f(...import('no'), import('arg')); new F(import('new')); `${import('no')}`; \
                  import('tag')`x`; x = import('assigned'); \
                  ({ [import('no')]: import('prop'), ...import('spread') }); \
                  [import('el'), , ...import('els')]; (0, import('seq')); \
                  a ? import('b') : import('c'); a || import('or'); a + import('plus'); \
                  !import('not'); import('member').then; a[import('computed')]; \
                  () => import('arrow'); () => { return import('ret') };";
    assert_eq!(
        specifiers(source, "a.js"),
        [
            "arg", "new", "tag", "assigned", "prop", "spread", "el", "els", "seq", "b", "c", "or",
            "plus", "not", "member", "computed", "arrow", "ret",
        ],
    );
}

#[test]
fn collect_imports_searches_statements() {
    let source = "for (const q of import('no')) { import('of') } \
                  for (const k in import('no')) import('in'); \
                  for (let i = import('no');;) import('for'); \
                  while (import('no')) import('while'); \
                  if (import('no')) import('then'); else import('else'); \
                  switch (import('no')) { case 1: import('case'); default: import('default') } \
                  try { import('try') } catch { import('catch') } finally { import('finally') } \
                  function g() { import('function') } \
                  const v = await import('const'), w = 1; { import('block') } \
                  export default function () { import('export') }";
    assert_eq!(
        specifiers(source, "a.mjs"),
        [
            "of", "in", "for", "while", "then", "else", "case", "default", "try", "catch",
            "finally", "function", "const", "block", "export",
        ],
    );
}

#[test]
fn collect_imports_leaves_other_constructs_out() {
    let source = "do { import('no') } while (1); a?.b(import('no')); \
                  (class { x = import('no') }); (function () { import('no') }); \
                  export const c = import('no'); label: import('no'); throw import('no'); \
                  import(name); function* g() { yield import('no') }";
    assert!(specifiers(source, "a.mjs").is_empty());
}

#[test]
fn listed_imports_are_collected() {
    let source = "import a from 'a'; import('x'); import b from 'b'; export * from 'c'";
    let infos = collect_imports(source, "a.js").unwrap();
    for name in imports(source, "a.js").unwrap() {
        assert!(infos.iter().any(|info| info.specifier == name
            && info.import_type == ImportType::Static
            && info.kind == ImportKind::Import));
    }
}

#[test]
fn collect_imports_reports_syntax_errors() {
    assert_eq!(
        collect_imports("/(/", "a.js").unwrap_err(),
        ["Invalid regular expression: Unterminated capturing group"],
    );
}

#[test]
fn refusals_are_alike() {
    let source = "const = /[/";
    let messages = syntax_errors(source, "a.js");
    assert!(!messages.is_empty());
    assert_eq!(errors(transform(source, "a.js", &TransformInput::default())), messages);
    assert_eq!(
        minify(source, "a.js", &MinifyInput::default()),
        MinifyOutput::Errors(messages.clone()),
    );
    assert_eq!(imports(source, "a.js"), Err(messages.clone()));
    assert_eq!(collect_imports(source, "a.js").unwrap_err(), messages);
}

fn crashes(source: &str, filename: &str, target: &str) -> bool {
    let mut opts = TransformInput::default();
    opts.target = target.to_string();
    matches!(transform(source, filename, &opts), TransformOutput::Crashed)
}

#[test]
fn undeclared_private_name_crashes_the_transformer() {
    let source = "class C { #a; m() { return this.#b; } }";
    assert!(crashes(source, "a.js", "es2021"));
    assert!(!crashes(source, "a.js", "es2022"));
    assert!(!crashes(source, "a.js", ""));
    assert!(!crashes("class C { #a; m() { return this.#a; } }", "a.js", "es2021"));
}

#[test]
fn delegating_yield_in_parameters_crashes_the_transformer() {
    let source = "async function* f(a = yield* b) {}";
    assert!(crashes(source, "a.js", "es2017"));
    assert!(!crashes(source, "a.js", "es2018"));
}

#[test]
fn crash_of_one_module_leaves_the_others() {
    let mut opts = TransformInput::default();
    opts.target = "es2021".to_string();
    let inputs = vec![
        ("a;".to_string(), "a.js".to_string()),
        ("class C { #a; m() { return this.#b; } }".to_string(), "b.js".to_string()),
        ("c;".to_string(), "c.js".to_string()),
    ];
    let mut outputs = transform_many(&inputs, &opts).into_iter();
    assert_eq!(code(outputs.next().unwrap()), "a;\n");
    assert!(matches!(outputs.next(), Some(TransformOutput::Crashed)));
    assert_eq!(code(outputs.next().unwrap()), "c;\n");
}

#[test]
fn index_signature_crashes_the_minifier() {
    let opts = MinifyInput::default();
    let source = "export class C { [k: string]: any }";
    assert_eq!(minify(source, "a.ts", &opts), MinifyOutput::Crashed);
    assert_eq!(
        minify("export class C { }", "a.ts", &opts),
        MinifyOutput::Code("export class C{}".to_string()),
    );
}

#[test]
fn enum_in_a_function_without_effects_crashes_the_minifier() {
    let opts = MinifyInput::default();
    let source = "function f() { enum E { A } } f();";
    assert_eq!(minify(source, "a.ts", &opts), MinifyOutput::Crashed);
    let source = "function f() { g(); enum E { A } } f();";
    assert!(matches!(minify(source, "a.ts", &opts), MinifyOutput::Code(_)));
}

#[test]
fn crashed_outcome_is_handed_on() {
    assert!(matches!(transform_output(None, true), TransformOutput::Crashed));
    assert!(matches!(transform_output(None, false), TransformOutput::Crashed));
    assert_eq!(minify_output(None), MinifyOutput::Crashed);
    assert_eq!(minify_output(Some("c".to_string())), MinifyOutput::Code("c".to_string()));
}

#[test]
fn what_parses_is_valid() {
    for source in ["a", "/(a)/", "/(/", "const = 1", "/[/", "import a from 'a'"] {
        if !matches!(parse(source, "a.js"), ParseOutput::Errors(_)) {
            assert!(valid(source, "a.js"));
        }
    }
}

#[test]
fn imports_and_collected_imports_agree() {
    let source = "import b from 'b'; import('x'); export * from 'c'; import type T from 't'; \
                  import 'a'; function f() { import('y') } import * as b2 from 'b'";
    let infos = collect_imports(source, "a.ts").unwrap();
    let declared: Vec<String> = infos
        .into_iter()
        .filter(|info| info.import_type == ImportType::Static && info.kind == ImportKind::Import)
        .map(|info| info.specifier)
        .collect();
    assert_eq!(declared, ["b", "a", "b"]);
    assert_eq!(imports(source, "a.ts"), Ok(declared));
}

#[test]
fn long_chains_of_operators_are_checked() {
    let chain = format!("import 'a'; x = 0{}", " + 1".repeat(200_000));
    assert!(valid(&chain, "a.js"));
    assert_eq!(imports(&chain, "a.js"), Ok(vec!["a".to_string()]));
    let project = vec![("a.js".to_string(), chain)];
    assert_eq!(collect_external_specifiers(&project), Ok(vec!["a".to_string()]));
}
