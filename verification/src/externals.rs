//! The packages that the files of a project refer to.
use vstd::prelude::*;

use crate::compile::{is_mentioned, law_declarations_are_mentioned, syntax_errors};
use crate::config::pair_texts;
use crate::imports::{imports_of_item, imports_of_statements, ImportKind};
use crate::options::{full_parse, parser_options, ParserOptions};
use crate::paths::{is_bare, is_bare_specifier};
use crate::sorted::{ascending, SortedStrings};
use crate::syntax::{DeclarationKind, Literal, ModuleItem, Stmt};
use crate::text::{hold_texts, texts};
use crate::toolchain::{item_of, items_of, parse_outline, parsed};

verus! {

/// The module that a declaration names, unless it is there for the types alone.
pub open spec fn named_module(item: ModuleItem) -> Option<Seq<char>> {
    match item {
        ModuleItem::Import { kind: DeclarationKind::Value, source } => Some(source.value@),
        ModuleItem::ExportAll { kind: DeclarationKind::Value, source } => Some(source.value@),
        ModuleItem::ExportNamed { kind: DeclarationKind::Value, source: Some(source) } => Some(
            source.value@,
        ),
        _ => None,
    }
}

/// The packages that declarations name.
pub open spec fn named_packages(items: Seq<ModuleItem>) -> Set<Seq<char>>
    decreases items.len(),
{
    if items.len() == 0 {
        Set::empty()
    } else {
        let rest = named_packages(items.drop_last());
        match named_module(items.last()) {
            Some(name) if is_bare(name) => rest.insert(name),
            _ => rest,
        }
    }
}

/// The packages that a project's files name. A file is a name and a source text.
pub open spec fn project_packages(files: Seq<(Seq<char>, Seq<char>)>) -> Set<Seq<char>>
    decreases files.len(),
{
    if files.len() == 0 {
        Set::empty()
    } else {
        project_packages(files.drop_last()).union(
            named_packages(items_of(parsed(files.last().1, files.last().0, full_parse()).body)),
        )
    }
}

/// The syntax errors of the first of a project's files that has any.
pub open spec fn project_errors(files: Seq<(Seq<char>, Seq<char>)>) -> Seq<Seq<char>>
    decreases files.len(),
{
    if files.len() == 0 {
        Seq::empty()
    } else {
        let rest = project_errors(files.drop_last());
        if rest.len() > 0 {
            rest
        } else {
            syntax_errors(files.last().1, files.last().0)
        }
    }
}

fn module_name(item: &ModuleItem) -> (r: Option<&Literal>)
    ensures
        match r {
            Some(literal) => named_module(*item) == Some(literal.value@),
            None => named_module(*item) is None,
        },
{
    match item {
        ModuleItem::Import { kind, source } => if *kind != DeclarationKind::Type {
            Some(source)
        } else {
            None
        },
        ModuleItem::ExportAll { kind, source } => if *kind != DeclarationKind::Type {
            Some(source)
        } else {
            None
        },
        ModuleItem::ExportNamed { kind, source } => if *kind != DeclarationKind::Type {
            match source {
                Some(source) => Some(source),
                None => None,
            }
        } else {
            None
        },
        ModuleItem::Other => None,
    }
}

/// Adds the packages that declarations name to `found`.
pub fn add_named_packages(items: &Vec<ModuleItem>, found: &mut SortedStrings)
    requires
        old(found).wf(),
    ensures
        final(found).wf(),
        final(found)@.to_set() == old(found)@.to_set().union(named_packages(items@)),
{
    let ghost before = found@.to_set();
    for i in 0..items.len()
        invariant
            found.wf(),
            found@.to_set() == before.union(named_packages(items@.take(i as int))),
        decreases items.len() - i,
    {
        assert(items@.take(i + 1).drop_last() == items@.take(i as int));
        if let Some(literal) = module_name(&items[i]) {
            if is_bare_specifier(literal.value.as_str()) {
                found.insert(literal.value.clone());
            }
        }
    }
    assert(items@.take(items@.len() as int) == items@);
}

/// The packages that a project's files name, in ascending order, or the syntax errors of the first
/// file that has any.
pub fn collect_external_specifiers(files: &Vec<(String, String)>) -> (r: Result<
    Vec<String>,
    Vec<String>,
>)
    ensures
        match r {
            Ok(list) => {
                &&& project_errors(pair_texts(files@)).len() == 0
                &&& ascending(texts(list@))
                &&& texts(list@).to_set() == project_packages(pair_texts(files@))
            },
            Err(errors) => {
                &&& project_errors(pair_texts(files@)).len() > 0
                &&& texts(errors@) == project_errors(pair_texts(files@))
            },
        },
        match r {
            Ok(list) => {
                &&& forall|i: int|
                    0 <= i < files@.len() ==> errors_of((
                        (#[trigger] files@[i]).0@,
                        files@[i].1@,
                    )).len() == 0
                &&& forall|name: Seq<char>|
                    #![trigger texts(list@).contains(name)]
                    texts(list@).contains(name) <==> exists|i: int|
                        0 <= i < files@.len() && file_declares(
                            ((#[trigger] files@[i]).0@, files@[i].1@),
                            name,
                        )
            },
            Err(errors) => exists|i: int|
                {
                    &&& 0 <= i < files@.len()
                    &&& forall|j: int|
                        0 <= j < i ==> errors_of((
                            (#[trigger] files@[j]).0@,
                            files@[j].1@,
                        )).len() == 0
                    &&& errors_of(((#[trigger] files@[i]).0@, files@[i].1@)).len() > 0
                    &&& hold_texts(errors@, errors_of((files@[i].0@, files@[i].1@)))
                },
        },
{
    let mut found = SortedStrings::new();
    let ghost all = pair_texts(files@);
    assert(found@.to_set() == project_packages(all.take(0)));
    for i in 0..files.len()
        invariant
            all == pair_texts(files@),
            found.wf(),
            project_errors(all.take(i as int)).len() == 0,
            found@.to_set() == project_packages(all.take(i as int)),
        decreases files.len() - i,
    {
        assert(all.take(i + 1).drop_last() == all.take(i as int));
        let outline = parse_outline(files[i].1.as_str(), files[i].0.as_str(), parser_options());
        if outline.has_errors() {
            proof {
                lemma_first_errors(all, i as int);
                law_first_errors_are_reported(all.take(i as int));
                assert forall|j: int| 0 <= j < i implies errors_of((
                    (#[trigger] files@[j]).0@,
                    files@[j].1@,
                )).len() == 0 by {
                    assert(all.take(i as int)[j] == all[j]);
                }
                assert(files@[i as int].1@ == all[i as int].1);
            }
            return Err(outline.errors);
        }
        add_named_packages(&outline.items, &mut found);
    }
    assert(all.take(all.len() as int) == all);
    let list = found.into_vec();
    proof {
        law_first_errors_are_reported(all);
        assert forall|i: int| 0 <= i < files@.len() implies errors_of((
            (#[trigger] files@[i]).0@,
            files@[i].1@,
        )).len() == 0 by {
            assert(errors_of(all[i]).len() == 0);
        }
        assert forall|name: Seq<char>|
            #![trigger texts(list@).contains(name)]
            texts(list@).contains(name) <==> exists|i: int|
                0 <= i < files@.len() && file_declares(
                    ((#[trigger] files@[i]).0@, files@[i].1@),
                    name,
                ) by {
            assert(texts(list@).to_set().contains(name) <==> texts(list@).contains(name));
            law_packages_are_declared(all, name);
            if project_packages(all).contains(name) {
                let i = choose|i: int| 0 <= i < all.len() && #[trigger] file_declares(all[i], name);
                assert(file_declares((files@[i].0@, files@[i].1@), name));
            }
            if exists|i: int|
                0 <= i < files@.len() && file_declares(
                    ((#[trigger] files@[i]).0@, files@[i].1@),
                    name,
                ) {
                let i = choose|i: int|
                    0 <= i < files@.len() && file_declares(
                        ((#[trigger] files@[i]).0@, files@[i].1@),
                        name,
                    );
                assert(file_declares(all[i], name));
            }
        }
    }
    Ok(list)
}

proof fn lemma_first_errors(files: Seq<(Seq<char>, Seq<char>)>, i: int)
    requires
        0 <= i < files.len(),
        project_errors(files.take(i)).len() == 0,
        syntax_errors(files[i].1, files[i].0).len() > 0,
    ensures
        project_errors(files) == syntax_errors(files[i].1, files[i].0),
    decreases files.len(),
{
    if i == files.len() - 1 {
        assert(files.take(i) == files.drop_last());
    } else {
        assert(files.drop_last().take(i) == files.take(i));
        lemma_first_errors(files.drop_last(), i);
    }
}

/// A package is found exactly when some file has a declaration that names it, is not there for the
/// types alone, and starts with neither a dot nor a slash.
pub proof fn law_packages_are_those_named(files: Seq<(Seq<char>, Seq<char>)>, name: Seq<char>)
    ensures
        project_packages(files).contains(name) <==> exists|i: int, k: int|
            0 <= i < files.len() && #[trigger] names_at(files[i], k, name),
    decreases files.len(),
{
    if files.len() > 0 {
        let before = files.drop_last();
        let last = files.last();
        let items = items_of(parsed(last.1, last.0, full_parse()).body);
        law_packages_are_those_named(before, name);
        lemma_named_packages(items, name);
        assert(files[files.len() - 1] == last);
        if project_packages(before).contains(name) {
            let (i, k) = choose|i: int, k: int|
                0 <= i < before.len() && #[trigger] names_at(before[i], k, name);
            assert(names_at(files[i], k, name));
        }
        if named_packages(items).contains(name) {
            let k = choose|k: int|
                0 <= k < items.len() && #[trigger] named_module(items[k]) == Some(name);
            assert(names_at(files[files.len() - 1], k, name));
        }
        if exists|i: int, k: int| 0 <= i < files.len() && #[trigger] names_at(files[i], k, name) {
            let (i, k) = choose|i: int, k: int|
                0 <= i < files.len() && #[trigger] names_at(files[i], k, name);
            if i < before.len() {
                assert(names_at(before[i], k, name));
            } else {
                assert(named_module(items[k]) == Some(name));
            }
        }
    }
}

/// Every package that is found, some file mentions by a declaration: where the file is searched for
/// all mentions of other modules, the package is among them.
pub proof fn law_packages_are_mentioned(files: Seq<(Seq<char>, Seq<char>)>, name: Seq<char>)
    requires
        project_packages(files).contains(name),
    ensures
        is_bare(name),
        exists|i: int| 0 <= i < files.len() && #[trigger] mentions_package(files[i], name),
{
    law_packages_are_those_named(files, name);
    let (i, k) = choose|i: int, k: int|
        0 <= i < files.len() && #[trigger] names_at(files[i], k, name);
    let body = parsed(files[i].1, files[i].0, full_parse()).body;
    let item = item_of(body[k]);
    assert(items_of(body)[k] == item);
    let kind = match item {
        ModuleItem::Import { .. } => ImportKind::Import,
        ModuleItem::ExportAll { .. } => ImportKind::ExportAll,
        _ => ImportKind::Export,
    };
    assert(imports_of_item(item)[0].specifier@ == name);
    law_declarations_are_mentioned(body, k, name, kind);
    assert(mentions_package(files[i], name));
}

/// Whether some declaration of a file mentions a package.
pub open spec fn mentions_package(file: (Seq<char>, Seq<char>), name: Seq<char>) -> bool {
    let infos = imports_of_statements(parsed(file.1, file.0, full_parse()).body);
    exists|kind: ImportKind| is_mentioned(infos, name, kind)
}

/// Whether the declaration at place `k` of a file names a package.
pub open spec fn names_at(file: (Seq<char>, Seq<char>), k: int, name: Seq<char>) -> bool {
    let items = items_of(parsed(file.1, file.0, full_parse()).body);
    0 <= k < items.len() && named_module(items[k]) == Some(name) && is_bare(name)
}

proof fn lemma_named_packages(items: Seq<ModuleItem>, name: Seq<char>)
    ensures
        named_packages(items).contains(name) <==> is_bare(name) && exists|k: int|
            0 <= k < items.len() && #[trigger] named_module(items[k]) == Some(name),
    decreases items.len(),
{
    if items.len() > 0 {
        let before = items.drop_last();
        lemma_named_packages(before, name);
        if exists|k: int| 0 <= k < before.len() && #[trigger] named_module(before[k]) == Some(name) {
            let k = choose|k: int|
                0 <= k < before.len() && #[trigger] named_module(before[k]) == Some(name);
            assert(named_module(items[k]) == Some(name));
        }
        if exists|k: int| 0 <= k < items.len() && #[trigger] named_module(items[k]) == Some(name) {
            let k = choose|k: int|
                0 <= k < items.len() && #[trigger] named_module(items[k]) == Some(name);
            if k < before.len() {
                assert(named_module(before[k]) == Some(name));
            }
        }
        assert(named_module(items[items.len() - 1]) == named_module(items.last()));
    }
}

/// The syntax errors of a file: a name, and a source text.
pub open spec fn errors_of(file: (Seq<char>, Seq<char>)) -> Seq<Seq<char>> {
    parsed(file.1, file.0, (ParserOptions { parse_regular_expression: true })).errors
}

/// Whether a statement is a declaration that names a package, and not for the types alone. The name
/// of a package starts with neither a dot nor a slash.
pub open spec fn declares_package(s: Stmt, name: Seq<char>) -> bool {
    &&& name.len() > 0 ==> name[0] != '.' && name[0] != '/'
    &&& s matches Stmt::Item(item)
    &&& match item {
        ModuleItem::Import { kind, source } => kind == DeclarationKind::Value && source.value@
            == name,
        ModuleItem::ExportAll { kind, source } => kind == DeclarationKind::Value && source.value@
            == name,
        ModuleItem::ExportNamed { kind, source } => kind == DeclarationKind::Value && (
        source matches Some(source) && source.value@ == name),
        ModuleItem::Other => false,
    }
}

/// Whether a statement of a file declares a package.
pub open spec fn file_declares(file: (Seq<char>, Seq<char>), name: Seq<char>) -> bool {
    let body = parsed(file.1, file.0, (ParserOptions { parse_regular_expression: true })).body;
    exists|k: int| 0 <= k < body.len() && #[trigger] declares_package(body[k], name)
}

/// The packages of a project are those that statements of its files declare, and no others.
pub proof fn law_packages_are_declared(files: Seq<(Seq<char>, Seq<char>)>, name: Seq<char>)
    ensures
        project_packages(files).contains(name) <==> exists|i: int|
            0 <= i < files.len() && #[trigger] file_declares(files[i], name),
{
    law_packages_are_those_named(files, name);
    if project_packages(files).contains(name) {
        let (i, k) = choose|i: int, k: int|
            0 <= i < files.len() && #[trigger] names_at(files[i], k, name);
        let body = parsed(files[i].1, files[i].0, full_parse()).body;
        assert(items_of(body)[k] == item_of(body[k]));
        assert(declares_package(body[k], name));
        assert(file_declares(files[i], name));
    }
    if exists|i: int| 0 <= i < files.len() && #[trigger] file_declares(files[i], name) {
        let i = choose|i: int| 0 <= i < files.len() && #[trigger] file_declares(files[i], name);
        let body = parsed(files[i].1, files[i].0, full_parse()).body;
        let k = choose|k: int| 0 <= k < body.len() && #[trigger] declares_package(body[k], name);
        assert(items_of(body)[k] == item_of(body[k]));
        assert(names_at(files[i], k, name));
    }
}

/// A project has no errors exactly where none of its files has any; otherwise its errors are those
/// of the first file that has any, all of them.
pub proof fn law_first_errors_are_reported(files: Seq<(Seq<char>, Seq<char>)>)
    ensures
        project_errors(files).len() == 0 <==> forall|i: int|
            0 <= i < files.len() ==> errors_of(#[trigger] files[i]).len() == 0,
        project_errors(files).len() > 0 ==> exists|i: int|
            {
                &&& 0 <= i < files.len()
                &&& forall|j: int| 0 <= j < i ==> errors_of(#[trigger] files[j]).len() == 0
                &&& project_errors(files) == errors_of(#[trigger] files[i])
            },
    decreases files.len(),
{
    if files.len() > 0 {
        let before = files.drop_last();
        law_first_errors_are_reported(before);
        assert(files[files.len() - 1] == files.last());
        if project_errors(before).len() > 0 {
            let i = choose|i: int|
                {
                    &&& 0 <= i < before.len()
                    &&& forall|j: int| 0 <= j < i ==> errors_of(#[trigger] before[j]).len() == 0
                    &&& project_errors(before) == errors_of(#[trigger] before[i])
                };
            assert(before[i] == files[i]);
            assert forall|j: int| 0 <= j < i implies errors_of(#[trigger] files[j]).len() == 0 by {
                assert(before[j] == files[j]);
            }
            assert(project_errors(files) == errors_of(files[i]));
        } else {
            assert forall|j: int| 0 <= j < before.len() implies errors_of(
                #[trigger] files[j],
            ).len() == 0 by {
                assert(before[j] == files[j]);
            }
            let last = files.len() - 1;
            assert(project_errors(files) == errors_of(files[last]));
        }
    }
}

} // verus!
