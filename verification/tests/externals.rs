use oxc_ex_nif::compile::collect_imports;
use oxc_ex_nif::externals::{add_named_packages, collect_external_specifiers};
use oxc_ex_nif::sorted::SortedStrings;
use oxc_ex_nif::syntax::{DeclarationKind, Literal, ModuleItem};

fn files(list: &[(&str, &str)]) -> Vec<(String, String)> {
    list.iter().map(|(name, source)| (name.to_string(), source.to_string())).collect()
}

#[test]
fn packages_are_sorted_and_listed_once() {
    let project = files(&[
        ("a.ts", "import { ref } from 'vue'; import './b'; export * from 'react';"),
        ("b.ts", "import x from 'vue'; export { y } from '@scope/y'; import z from '/abs';"),
    ]);
    assert_eq!(
        collect_external_specifiers(&project),
        Ok(vec!["@scope/y".to_string(), "react".to_string(), "vue".to_string()]),
    );
}

#[test]
fn types_and_calls_name_no_package() {
    let project = files(&[(
        "a.ts",
        "import type T from 't'; export type { U } from 'u'; export type * from 'v'; \
         import('dynamic'); export const own = 1; export { own as other };",
    )]);
    assert_eq!(collect_external_specifiers(&project), Ok(Vec::new()));
}

#[test]
fn first_file_with_errors_is_reported() {
    let project = files(&[
        ("ok.ts", "import 'vue'"),
        ("bad.ts", "/(/"),
        ("worse.ts", "const = 1"),
    ]);
    assert_eq!(
        collect_external_specifiers(&project),
        Err(vec!["Invalid regular expression: Unterminated capturing group".to_string()]),
    );
}

#[test]
fn no_files_name_no_packages() {
    assert_eq!(collect_external_specifiers(&Vec::new()), Ok(Vec::new()));
}

#[test]
fn declarations_add_packages() {
    let source = |value: &str| Literal { value: value.to_string(), start: 0, end: 0 };
    let kind = DeclarationKind::Value;
    let items = vec![
        ModuleItem::Import { kind, source: source("c") },
        ModuleItem::ExportAll { kind, source: source("b") },
        ModuleItem::ExportNamed { kind, source: Some(source("a")) },
        ModuleItem::ExportNamed { kind, source: None },
        ModuleItem::Import { kind: DeclarationKind::Type, source: source("t") },
        ModuleItem::Import { kind, source: source("./file") },
        ModuleItem::Import { kind, source: source("") },
        ModuleItem::Other,
    ];
    let mut found = SortedStrings::new();
    found.insert("z".to_string());
    add_named_packages(&items, &mut found);
    assert_eq!(found.into_vec(), ["", "a", "b", "c", "z"]);
}

#[test]
fn packages_are_among_the_collected_imports() {
    let source = "import 'vue'; export * from 'react'; export { y } from 'y'";
    let project = files(&[("a.ts", source)]);
    let infos = collect_imports(source, "a.ts").unwrap();
    for name in collect_external_specifiers(&project).unwrap() {
        assert!(infos.iter().any(|info| info.specifier == name));
    }
}
