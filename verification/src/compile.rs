//! Parsing, checking, transforming and minifying single modules.
use rayon::prelude::{IntoParallelRefIterator, ParallelIterator};
use serde_json::Value;

use vstd::prelude::*;

use crate::imports::{
    collect_imports_from_statements, imports_of_item, imports_of_statement, imports_of_statements,
    ImportInfo, ImportKind, ImportType,
};
use crate::json::{json, json_of, parse_json, Json};
use crate::options::{
    are_settings, build_transform_options, full_parse, parser_options, MinifyInput, ParserOptions,
    TransformInput, TransformSettingsView,
};
use crate::syntax::{DeclarationKind, ModuleItem, Stmt};
use crate::text::{hold_texts, optional_text, texts};
use crate::toolchain::{
    attempt, estree, generated_text, is_valid, item_of, items_of, may_minify, may_transform,
    parse_body, parse_outline, parsed, print_estree, Answer, Generated, GeneratedView, Job,
};

verus! {

/// The message of one error.
#[derive(Debug)]
pub struct MessageError {
    pub message: String,
}

/// Code together with its source map.
#[derive(Debug)]
pub struct CodeWithSourcemap {
    pub code: String,
    pub sourcemap: String,
}

/// The messages that errors carry.
pub open spec fn messages(errors: Seq<MessageError>) -> Seq<Seq<char>> {
    errors.map_values(|e: MessageError| e.message@)
}

/// Each message as an error of its own.
pub fn message_errors(list: Vec<String>) -> (r: Vec<MessageError>)
    ensures
        messages(r@) == texts(list@),
        r@.len() == list@.len(),
        forall|i: int| 0 <= i < list@.len() ==> (#[trigger] r@[i]).message@ == list@[i]@,
{
    let mut r: Vec<MessageError> = Vec::new();
    for i in 0..list.len()
        invariant
            messages(r@) == texts(list@).take(i as int),
        decreases list.len() - i,
    {
        let ghost before = r@;
        r.push(MessageError { message: list[i].clone() });
        assert(messages(r@) == messages(before).push(list@[i as int]@));
    }
    assert(texts(list@).take(list@.len() as int) == texts(list@));
    assert forall|i: int| 0 <= i < list@.len() implies (#[trigger] r@[i]).message@ == list@[i]@ by {
        assert(messages(r@)[i] == texts(list@)[i]);
    }
    r
}

/// Whether errors carry these messages, one by one.
pub open spec fn carry_messages(errors: Seq<MessageError>, list: Seq<Seq<char>>) -> bool {
    &&& errors.len() == list.len()
    &&& forall|i: int| 0 <= i < list.len() ==> (#[trigger] errors[i]).message@ == list[i]
}

/// The syntax errors of a module.
pub open spec fn syntax_errors(source: Seq<char>, filename: Seq<char>) -> Seq<Seq<char>> {
    parsed(source, filename, full_parse()).errors
}

/// What parsing a module hands back.
#[derive(Debug)]
pub enum ParseOutput {
    /// The ESTree form of the module.
    Tree(Value),
    Errors(Vec<MessageError>),
    /// The ESTree form cannot be read as a value, such as one that nests too deep or that holds half
    /// of a surrogate pair; the message of the refusal.
    Refused(String),
}

/// What parsing a module hands back, as characters.
pub enum ParseOutputView {
    Tree(Json),
    Errors(Seq<Seq<char>>),
    Refused(Seq<char>),
}

impl View for ParseOutput {
    type V = ParseOutputView;

    open spec fn view(&self) -> ParseOutputView {
        match *self {
            ParseOutput::Tree(value) => ParseOutputView::Tree(json(value)),
            ParseOutput::Errors(errors) => ParseOutputView::Errors(messages(errors@)),
            ParseOutput::Refused(message) => ParseOutputView::Refused(message@),
        }
    }
}

/// What is handed back for a module without syntax errors, once its ESTree form has been read.
pub open spec fn tree_of(read: Result<Json, Seq<char>>) -> ParseOutputView {
    match read {
        Ok(tree) => ParseOutputView::Tree(tree),
        Err(message) => ParseOutputView::Refused(message),
    }
}

/// What is handed back for a module without syntax errors, once its ESTree form has been read.
pub fn tree_output(read: Result<Value, String>) -> (r: ParseOutput)
    ensures
        r@ == tree_of(
            match read {
                Ok(value) => Ok(json(value)),
                Err(message) => Err(message@),
            },
        ),
        read matches Ok(value) ==> r == ParseOutput::Tree(value),
        read matches Err(message) ==> r == ParseOutput::Refused(message),
{
    match read {
        Ok(value) => ParseOutput::Tree(value),
        Err(message) => ParseOutput::Refused(message),
    }
}

/// What parsing a module hands back: its syntax errors, if there are any, and otherwise its ESTree
/// form, read from JSON.
pub open spec fn parse_result(source: Seq<char>, filename: Seq<char>) -> ParseOutputView {
    if syntax_errors(source, filename).len() > 0 {
        ParseOutputView::Errors(syntax_errors(source, filename))
    } else {
        tree_of(json_of(estree(source, filename, full_parse())))
    }
}

/// The ESTree form of a module, or its syntax errors. A module without syntax errors is valid.
pub fn parse(source: &str, filename: &str) -> (r: ParseOutput)
    ensures
        r@ == parse_result(source@, filename@),
        !(r is Errors) ==> is_valid(source@, filename@),
        ({
            let options = ParserOptions { parse_regular_expression: true };
            let errors = parsed(source@, filename@, options).errors;
            match r {
                ParseOutput::Errors(list) => errors.len() > 0 && carry_messages(list@, errors),
                ParseOutput::Tree(value) => errors.len() == 0 && json_of(
                    estree(source@, filename@, options),
                ) == Ok::<Json, Seq<char>>(json(value)),
                ParseOutput::Refused(message) => errors.len() == 0 && json_of(
                    estree(source@, filename@, options),
                ) == Err::<Json, Seq<char>>(message@),
            }
        }),
{
    let options = parser_options();
    let outline = parse_outline(source, filename, options);
    if outline.has_errors() {
        return ParseOutput::Errors(message_errors(outline.errors));
    }
    let text = print_estree(source, filename, options);
    tree_output(parse_json(text.as_str()))
}

/// Whether a module has no syntax errors. The patterns of its regular expressions are not looked
/// at.
pub fn valid(source: &str, filename: &str) -> (r: bool)
    ensures
        r <==> is_valid(source@, filename@),
        r <==> parsed(
            source@,
            filename@,
            (ParserOptions { parse_regular_expression: false }),
        ).errors.len() == 0,
{
    let outline = parse_outline(source, filename, ParserOptions::default());
    !outline.has_errors()
}

/// What a transformation hands back.
#[derive(Debug)]
pub enum TransformOutput {
    Code(String),
    CodeWithSourcemap(CodeWithSourcemap),
    Errors(Vec<String>),
    /// The toolchain panicked.
    Crashed,
}

/// What a transformation hands back, as characters.
pub enum TransformOutputView {
    Code(Seq<char>),
    CodeWithSourcemap { code: Seq<char>, sourcemap: Seq<char> },
    Errors(Seq<Seq<char>>),
    Crashed,
}

impl View for TransformOutput {
    type V = TransformOutputView;

    open spec fn view(&self) -> TransformOutputView {
        match *self {
            TransformOutput::Code(code) => TransformOutputView::Code(code@),
            TransformOutput::CodeWithSourcemap(both) => TransformOutputView::CodeWithSourcemap {
                code: both.code@,
                sourcemap: both.sourcemap@,
            },
            TransformOutput::Errors(messages) => TransformOutputView::Errors(texts(messages@)),
            TransformOutput::Crashed => TransformOutputView::Crashed,
        }
    }
}

/// What is handed back for an outcome of the transformer: its errors; or the code, with the source
/// map where one was asked for and made; or, where it panicked, word of that.
pub open spec fn output_of(
    outcome: Option<Result<GeneratedView, Seq<Seq<char>>>>,
    sourcemap: bool,
) -> TransformOutputView {
    match outcome {
        None => TransformOutputView::Crashed,
        Some(Err(messages)) => TransformOutputView::Errors(messages),
        Some(Ok(generated)) => match generated.map {
            Some(map) if sourcemap => TransformOutputView::CodeWithSourcemap {
                code: generated.code,
                sourcemap: map,
            },
            _ => TransformOutputView::Code(generated.code),
        },
    }
}

/// The characters of an outcome of the transformer, if there is one.
pub open spec fn optional_generated(outcome: Option<Result<Generated, Vec<String>>>) -> Option<
    Result<GeneratedView, Seq<Seq<char>>>,
> {
    match outcome {
        Some(outcome) => Some(generated_text(outcome)),
        None => None,
    }
}

/// What is handed back for an outcome of the transformer.
pub fn transform_output(outcome: Option<Result<Generated, Vec<String>>>, sourcemap: bool) -> (r:
    TransformOutput)
    ensures
        r@ == output_of(optional_generated(outcome), sourcemap),
        match outcome {
            None => r is Crashed,
            Some(Err(messages)) => r == TransformOutput::Errors(messages),
            Some(Ok(generated)) => match r {
                TransformOutput::Code(code) => code == generated.code && (sourcemap
                    ==> generated.map is None),
                TransformOutput::CodeWithSourcemap(both) => sourcemap && both.code
                    == generated.code && generated.map == Some(both.sourcemap),
                _ => false,
            },
        },
{
    match outcome {
        None => TransformOutput::Crashed,
        Some(Err(messages)) => TransformOutput::Errors(messages),
        Some(Ok(generated)) => {
            if sourcemap {
                if let Some(map) = generated.map {
                    return TransformOutput::CodeWithSourcemap(
                        CodeWithSourcemap { code: generated.code, sourcemap: map },
                    );
                }
            }
            TransformOutput::Code(generated.code)
        },
    }
}

/// Whether these are settings that a caller's options stand for.
pub open spec fn are_settings_of(settings: TransformSettingsView, opts: &TransformInput) -> bool {
    are_settings(
        settings,
        opts.jsx_runtime@,
        opts.jsx_factory@,
        opts.jsx_fragment@,
        opts.import_source@,
        opts.target@,
    )
}

/// The name under which a source map lists the source: the file's, where a map is asked for.
pub open spec fn map_path_of(filename: Seq<char>, sourcemap: bool) -> Option<Seq<char>> {
    if sourcemap {
        Some(filename)
    } else {
        None
    }
}

/// Whether a transformation of a module can hand this back: the module's syntax errors, if there
/// are any, and otherwise what can come of the transformer under the settings that the options
/// stand for. Code comes with a source map exactly where one is asked for.
pub open spec fn is_transform_output(
    source: Seq<char>,
    filename: Seq<char>,
    opts: &TransformInput,
    output: TransformOutputView,
) -> bool {
    &&& opts.sourcemap ==> !(output is Code)
    &&& !opts.sourcemap ==> !(output is CodeWithSourcemap)
    &&& if syntax_errors(source, filename).len() > 0 {
        output == TransformOutputView::Errors(syntax_errors(source, filename))
    } else {
        exists|
            settings: TransformSettingsView,
            outcome: Option<Result<GeneratedView, Seq<Seq<char>>>>,
        |
            {
                &&& #[trigger] may_transform(
                    source,
                    filename,
                    full_parse(),
                    settings,
                    map_path_of(filename, opts.sourcemap),
                    outcome,
                )
                &&& are_settings_of(settings, opts)
                &&& output == output_of(outcome, opts.sourcemap)
            }
    }
}

/// Whether an output is made of an outcome of the transformer: nothing is added to the code, the
/// source map or the messages, and nothing is lost.
pub open spec fn is_made_of(
    output: TransformOutput,
    outcome: Option<Result<GeneratedView, Seq<Seq<char>>>>,
) -> bool {
    match output {
        TransformOutput::Crashed => outcome is None,
        TransformOutput::Errors(list) => outcome matches Some(Err(errors)) && hold_texts(
            list@,
            errors,
        ),
        TransformOutput::Code(code) => outcome matches Some(Ok(generated)) && generated.code
            == code@ && generated.map is None,
        TransformOutput::CodeWithSourcemap(both) => outcome matches Some(Ok(generated))
            && generated.code == both.code@ && generated.map == Some(both.sourcemap@),
    }
}

/// Whether an output is what the transformer can make of a module under settings that the options
/// stand for.
pub open spec fn made_by_transformer(
    source: Seq<char>,
    filename: Seq<char>,
    opts: &TransformInput,
    output: TransformOutput,
) -> bool {
    exists|
        settings: TransformSettingsView,
        path: Option<Seq<char>>,
        outcome: Option<Result<GeneratedView, Seq<Seq<char>>>>,
    |
        {
            &&& #[trigger] may_transform(
                source,
                filename,
                (ParserOptions { parse_regular_expression: true }),
                settings,
                path,
                outcome,
            )
            &&& opts.sourcemap ==> path == Some(filename)
            &&& !opts.sourcemap ==> path is None
            &&& are_settings(
                settings,
                opts.jsx_runtime@,
                opts.jsx_factory@,
                opts.jsx_fragment@,
                opts.import_source@,
                opts.target@,
            )
            &&& is_made_of(output, outcome)
        }
}

/// Turns a module into the JavaScript that the options ask for.
pub fn transform(source: &str, filename: &str, opts: &TransformInput) -> (r: TransformOutput)
    ensures
        is_transform_output(source@, filename@, opts, r@),
        ({
            let options = ParserOptions { parse_regular_expression: true };
            let errors = parsed(source@, filename@, options).errors;
            &&& errors.len() > 0 ==> (r matches TransformOutput::Errors(list) && hold_texts(
                list@,
                errors,
            ))
            &&& errors.len() == 0 ==> made_by_transformer(source@, filename@, opts, r)
        }),
{
    let options = parser_options();
    let outline = parse_outline(source, filename, options);
    if outline.has_errors() {
        return TransformOutput::Errors(outline.errors);
    }
    let settings = build_transform_options(
        opts.jsx_runtime.as_str(),
        opts.jsx_factory.as_str(),
        opts.jsx_fragment.as_str(),
        opts.import_source.as_str(),
        opts.target.as_str(),
    );
    let job = Job::Transform {
        source: source.to_owned(),
        filename: filename.to_owned(),
        options,
        settings,
        map_path: if opts.sourcemap {
            Some(filename.to_owned())
        } else {
            None
        },
    };
    let outcome = match attempt(job) {
        Some(Answer::Transformed(outcome)) => Some(outcome),
        Some(Answer::Minified(_)) => vstd::pervasive::unreached(),
        None => None,
    };
    transform_output(outcome, opts.sourcemap)
}

/// Transforms each module, on the threads of rayon's pool: `par_iter` on a vector is indexed, so
/// `collect` keeps the order. The contract claims for each module what [`transform`] promises.
#[verifier::external_body]
fn transform_each(inputs: &Vec<(String, String)>, opts: &TransformInput) -> (r: Vec<
    TransformOutput,
>)
    ensures
        r@.len() == inputs@.len(),
        forall|i: int|
            0 <= i < inputs@.len() ==> is_transform_output(
                inputs@[i].0@,
                inputs@[i].1@,
                opts,
                (#[trigger] r@[i])@,
            ),
{
    inputs.par_iter().map(|input| transform(&input.0, &input.1, opts)).collect()
}

/// Transforms each pair of a source text and a file name; the outputs come in the order of the
/// inputs.
pub fn transform_many(inputs: &Vec<(String, String)>, opts: &TransformInput) -> (r: Vec<
    TransformOutput,
>)
    ensures
        r@.len() == inputs@.len(),
        forall|i: int|
            0 <= i < inputs@.len() ==> is_transform_output(
                inputs@[i].0@,
                inputs@[i].1@,
                opts,
                (#[trigger] r@[i])@,
            ),
{
    transform_each(inputs, opts)
}

/// What a minification hands back.
#[derive(Debug, PartialEq, Eq)]
pub enum MinifyOutput {
    Code(String),
    Errors(Vec<String>),
    /// The toolchain panicked.
    Crashed,
}

/// What a minification hands back, as characters.
pub enum MinifyOutputView {
    Code(Seq<char>),
    Errors(Seq<Seq<char>>),
    Crashed,
}

impl View for MinifyOutput {
    type V = MinifyOutputView;

    open spec fn view(&self) -> MinifyOutputView {
        match *self {
            MinifyOutput::Code(code) => MinifyOutputView::Code(code@),
            MinifyOutput::Errors(messages) => MinifyOutputView::Errors(texts(messages@)),
            MinifyOutput::Crashed => MinifyOutputView::Crashed,
        }
    }
}

/// What is handed back for an outcome of the minifier: the code; or, where it panicked, word of
/// that.
pub open spec fn minified_of(outcome: Option<Seq<char>>) -> MinifyOutputView {
    match outcome {
        Some(code) => MinifyOutputView::Code(code),
        None => MinifyOutputView::Crashed,
    }
}

/// What is handed back for an outcome of the minifier.
pub fn minify_output(outcome: Option<String>) -> (r: MinifyOutput)
    ensures
        r@ == minified_of(optional_text(outcome)),
        outcome matches Some(code) ==> r == MinifyOutput::Code(code),
        outcome is None ==> r is Crashed,
{
    match outcome {
        Some(code) => MinifyOutput::Code(code),
        None => MinifyOutput::Crashed,
    }
}

/// Whether a minification of a module can hand this back: the module's syntax errors, if there are
/// any, and otherwise what can come of the minifier.
pub open spec fn is_minify_output(
    source: Seq<char>,
    filename: Seq<char>,
    mangle: bool,
    output: MinifyOutputView,
) -> bool {
    if syntax_errors(source, filename).len() > 0 {
        output == MinifyOutputView::Errors(syntax_errors(source, filename))
    } else {
        exists|outcome: Option<Seq<char>>|
            {
                &&& #[trigger] may_minify(source, filename, full_parse(), mangle, outcome)
                &&& output == minified_of(outcome)
            }
    }
}

/// Minifies a module.
pub fn minify(source: &str, filename: &str, opts: &MinifyInput) -> (r: MinifyOutput)
    ensures
        is_minify_output(source@, filename@, opts.mangle, r@),
        ({
            let options = ParserOptions { parse_regular_expression: true };
            let errors = parsed(source@, filename@, options).errors;
            match r {
                MinifyOutput::Errors(list) => errors.len() > 0 && hold_texts(list@, errors),
                MinifyOutput::Code(code) => errors.len() == 0 && may_minify(
                    source@,
                    filename@,
                    options,
                    opts.mangle,
                    Some(code@),
                ),
                MinifyOutput::Crashed => errors.len() == 0 && may_minify(
                    source@,
                    filename@,
                    options,
                    opts.mangle,
                    None,
                ),
            }
        }),
{
    let options = parser_options();
    let outline = parse_outline(source, filename, options);
    if outline.has_errors() {
        return MinifyOutput::Errors(outline.errors);
    }
    let job = Job::Minify {
        source: source.to_owned(),
        filename: filename.to_owned(),
        options,
        mangle: opts.mangle,
    };
    let outcome = match attempt(job) {
        Some(Answer::Minified(code)) => Some(code),
        Some(Answer::Transformed(_)) => vstd::pervasive::unreached(),
        None => None,
    };
    minify_output(outcome)
}

/// The modules that import declarations name, in source order. Imports of types alone are left
/// out.
pub open spec fn imported(items: Seq<ModuleItem>) -> Seq<Seq<char>>
    decreases items.len(),
{
    if items.len() == 0 {
        Seq::empty()
    } else {
        match items.last() {
            ModuleItem::Import { kind: DeclarationKind::Value, source } => imported(
                items.drop_last(),
            ).push(source.value@),
            _ => imported(items.drop_last()),
        }
    }
}

/// The modules that import declarations name, in source order.
pub fn imported_modules(items: &Vec<ModuleItem>) -> (r: Vec<String>)
    ensures
        texts(r@) == imported(items@),
        hold_texts(r@, imported(items@)),
{
    let mut r: Vec<String> = Vec::new();
    for i in 0..items.len()
        invariant
            texts(r@) == imported(items@.take(i as int)),
        decreases items.len() - i,
    {
        assert(items@.take(i + 1).drop_last() == items@.take(i as int));
        let ghost before = r@;
        if let ModuleItem::Import { kind, source } = &items[i] {
            if *kind != DeclarationKind::Type {
                r.push(source.value.clone());
                assert(texts(r@) == texts(before).push(source.value@));
            }
        }
    }
    assert(items@.take(items@.len() as int) == items@);
    r
}

/// The modules that the import declarations of a module name, or its syntax errors.
pub fn imports(source: &str, filename: &str) -> (r: Result<Vec<String>, Vec<String>>)
    ensures
        match r {
            Ok(specifiers) => syntax_errors(source@, filename@).len() == 0 && texts(specifiers@)
                == imported(items_of(parsed(source@, filename@, full_parse()).body)),
            Err(errors) => syntax_errors(source@, filename@).len() > 0 && texts(errors@)
                == syntax_errors(source@, filename@),
        },
        r matches Err(list) ==> hold_texts(
            list@,
            parsed(source@, filename@, (ParserOptions { parse_regular_expression: true })).errors,
        ),
{
    let outline = parse_outline(source, filename, parser_options());
    if outline.has_errors() {
        return Err(outline.errors);
    }
    Ok(imported_modules(&outline.items))
}

/// Every mention of another module in a module, or its syntax errors.
pub fn collect_imports(source: &str, filename: &str) -> (r: Result<Vec<ImportInfo>, Vec<String>>)
    ensures
        match r {
            Ok(infos) => syntax_errors(source@, filename@).len() == 0 && infos@
                == imports_of_statements(parsed(source@, filename@, full_parse()).body),
            Err(errors) => syntax_errors(source@, filename@).len() > 0 && texts(errors@)
                == syntax_errors(source@, filename@),
        },
        r matches Err(list) ==> hold_texts(
            list@,
            parsed(source@, filename@, (ParserOptions { parse_regular_expression: true })).errors,
        ),
{
    let options = parser_options();
    let outline = parse_outline(source, filename, options);
    if outline.has_errors() {
        return Err(outline.errors);
    }
    let body = parse_body(source, filename, options);
    let mut results: Vec<ImportInfo> = Vec::new();
    collect_imports_from_statements(&body, &mut results);
    Ok(results)
}

/// Whether a module is mentioned, by a declaration of some kind.
pub open spec fn is_mentioned(infos: Seq<ImportInfo>, name: Seq<char>, kind: ImportKind) -> bool {
    exists|i: int|
        0 <= i < infos.len() && (#[trigger] infos[i]).specifier@ == name && infos[i].import_type
            == ImportType::Static && infos[i].kind == kind
}

/// What a declaration among statements mentions, the statements mention.
pub proof fn law_declarations_are_mentioned(
    body: Seq<Stmt>,
    k: int,
    name: Seq<char>,
    kind: ImportKind,
)
    requires
        0 <= k < body.len(),
        is_mentioned(imports_of_item(item_of(body[k])), name, kind),
    ensures
        is_mentioned(imports_of_statements(body), name, kind),
    decreases body.len(),
{
    let before = imports_of_statements(body.drop_last());
    let last = imports_of_statement(body.last());
    if k == body.len() - 1 {
        let j = choose|j: int|
            0 <= j < last.len() && (#[trigger] last[j]).specifier@ == name && last[j].import_type
                == ImportType::Static && last[j].kind == kind;
        assert((before + last)[before.len() + j] == last[j]);
    } else {
        law_declarations_are_mentioned(body.drop_last(), k, name, kind);
        let j = choose|j: int|
            0 <= j < before.len() && (#[trigger] before[j]).specifier@ == name
                && before[j].import_type == ImportType::Static && before[j].kind == kind;
        assert((before + last)[j] == before[j]);
    }
}

/// Every module that [`imports`] lists, [`collect_imports`] reports as a declared import.
pub proof fn law_imports_are_collected(body: Seq<Stmt>, n: int)
    requires
        0 <= n < imported(items_of(body)).len(),
    ensures
        is_mentioned(
            imports_of_statements(body),
            imported(items_of(body))[n],
            ImportKind::Import,
        ),
{
    lemma_imported_at(items_of(body), n);
    let name = imported(items_of(body))[n];
    let k = choose|k: int|
        0 <= k < items_of(body).len() && #[trigger] imports_module(items_of(body)[k], name);
    let infos = imports_of_item(item_of(body[k]));
    assert(infos[0].specifier@ == name);
    law_declarations_are_mentioned(body, k, name, ImportKind::Import);
}

/// Whether a declaration imports a module, and not for the types alone.
pub open spec fn imports_module(item: ModuleItem, name: Seq<char>) -> bool {
    item matches ModuleItem::Import { kind: DeclarationKind::Value, source } && source.value@
        == name
}

proof fn lemma_imported_at(items: Seq<ModuleItem>, n: int)
    requires
        0 <= n < imported(items).len(),
    ensures
        exists|k: int|
            0 <= k < items.len() && #[trigger] imports_module(items[k], imported(items)[n]),
    decreases items.len(),
{
    let name = imported(items)[n];
    let before = items.drop_last();
    if n < imported(before).len() {
        lemma_imported_at(before, n);
        let k = choose|k: int|
            0 <= k < before.len() && #[trigger] imports_module(before[k], imported(before)[n]);
        assert(imports_module(items[k], name));
    } else {
        assert(imports_module(items[items.len() - 1], name));
    }
}

/// The modules that import declarations mention, in the order of the mentions.
pub open spec fn declared_imports(infos: Seq<ImportInfo>) -> Seq<Seq<char>>
    decreases infos.len(),
{
    if infos.len() == 0 {
        Seq::empty()
    } else {
        let rest = declared_imports(infos.drop_last());
        let info = infos.last();
        if info.import_type == ImportType::Static && info.kind == ImportKind::Import {
            rest.push(info.specifier@)
        } else {
            rest
        }
    }
}

/// Whether no statement holds an import declaration inside it.
pub open spec fn imports_stand_at_top(body: Seq<Stmt>) -> bool {
    forall|k: int|
        0 <= k < body.len() && !(#[trigger] body[k] is Item) ==> declared_imports(
            imports_of_statement(body[k]),
        ).len() == 0
}

proof fn lemma_declared_imports_follow(a: Seq<ImportInfo>, b: Seq<ImportInfo>)
    ensures
        declared_imports(a + b) == declared_imports(a) + declared_imports(b),
    decreases b.len(),
{
    if b.len() == 0 {
        assert(a + b == a);
        assert(declared_imports(a + b) == declared_imports(a) + declared_imports(b));
    } else {
        assert((a + b).drop_last() == a + b.drop_last());
        assert((a + b).last() == b.last());
        lemma_declared_imports_follow(a, b.drop_last());
        assert(declared_imports(a + b) == declared_imports(a) + declared_imports(b));
    }
}

/// [`imports`] and [`collect_imports`] agree where import declarations stand at the top level: what
/// the one lists are the declared imports that the other reports, in the same order.
pub proof fn law_imports_agree(body: Seq<Stmt>)
    requires
        imports_stand_at_top(body),
    ensures
        declared_imports(imports_of_statements(body)) == imported(items_of(body)),
    decreases body.len(),
{
    if body.len() > 0 {
        let before = body.drop_last();
        let last = body.last();
        assert forall|k: int| 0 <= k < before.len() && !(#[trigger] before[k] is Item) implies
            declared_imports(imports_of_statement(before[k])).len() == 0 by {
            assert(before[k] == body[k]);
        }
        law_imports_agree(before);
        assert(body[body.len() - 1] == last);
        assert(items_of(body).drop_last() == items_of(before));
        let infos = imports_of_statement(last);
        lemma_declared_imports_follow(imports_of_statements(before), infos);
        assert(items_of(body).last() == item_of(last));
        if last is Item {
            reveal_with_fuel(declared_imports, 2);
            if infos.len() > 0 {
                assert(infos.drop_last() == Seq::<ImportInfo>::empty());
            }
        } else {
            assert(declared_imports(infos) == Seq::<Seq<char>>::empty());
        }
        assert(declared_imports(imports_of_statements(body)) == imported(items_of(body)));
    }
}

/// A module with syntax errors is answered with them, all of them and in their order, whatever was
/// asked for; and with them alone, as a module without any is answered otherwise.
pub proof fn law_syntax_errors_are_handed_back(
    source: Seq<char>,
    filename: Seq<char>,
    opts: &TransformInput,
    mangle: bool,
    transformed: TransformOutputView,
    minified: MinifyOutputView,
)
    requires
        parsed(source, filename, (ParserOptions { parse_regular_expression: true })).errors.len()
            > 0,
        is_transform_output(source, filename, opts, transformed),
        is_minify_output(source, filename, mangle, minified),
    ensures
        ({
            let errors = parsed(
                source,
                filename,
                (ParserOptions { parse_regular_expression: true }),
            ).errors;
            &&& syntax_errors(source, filename) == errors
            &&& parse_result(source, filename) == ParseOutputView::Errors(errors)
            &&& transformed == TransformOutputView::Errors(errors)
            &&& minified == MinifyOutputView::Errors(errors)
        }),
{
}

/// For a module without syntax errors, whatever its statements are, the ESTree text is read: its
/// value is handed back where it can be read, and the refusal where it cannot.
pub proof fn law_parsing_reads_the_tree(source: Seq<char>, filename: Seq<char>)
    requires
        parsed(source, filename, (ParserOptions { parse_regular_expression: true })).errors.len()
            == 0,
    ensures
        ({
            let text = estree(
                source,
                filename,
                (ParserOptions { parse_regular_expression: true }),
            );
            &&& json_of(text) is Ok <==> parse_result(source, filename) is Tree
            &&& json_of(text) matches Ok(tree) ==> parse_result(source, filename)
                == ParseOutputView::Tree(tree)
            &&& json_of(text) matches Err(message) ==> parse_result(source, filename)
                == ParseOutputView::Refused(message)
        }),
{
}

/// The code that a minification hands back is what the minifier can make of the module, down to the
/// last character; word of a crash comes only where it can crash.
pub proof fn law_minified_code_is_whole(
    source: Seq<char>,
    filename: Seq<char>,
    mangle: bool,
    output: MinifyOutputView,
)
    requires
        parsed(source, filename, (ParserOptions { parse_regular_expression: true })).errors.len()
            == 0,
        is_minify_output(source, filename, mangle, output),
    ensures
        !(output is Errors),
        output matches MinifyOutputView::Code(code) ==> may_minify(
            source,
            filename,
            (ParserOptions { parse_regular_expression: true }),
            mangle,
            Some(code),
        ),
        output is Crashed ==> may_minify(
            source,
            filename,
            (ParserOptions { parse_regular_expression: true }),
            mangle,
            None,
        ),
{
}

/// What a transformation hands back of a module without syntax errors is what the transformer can
/// make of it: the same code, to the last character, the same source map and the same messages.
/// The source map lists the source under the file's name.
pub proof fn law_transformed_code_is_whole(
    source: Seq<char>,
    filename: Seq<char>,
    opts: &TransformInput,
    output: TransformOutputView,
) -> (made: (TransformSettingsView, Option<Result<GeneratedView, Seq<Seq<char>>>>))
    requires
        parsed(source, filename, (ParserOptions { parse_regular_expression: true })).errors.len()
            == 0,
        is_transform_output(source, filename, opts, output),
    ensures
        are_settings(
            made.0,
            opts.jsx_runtime@,
            opts.jsx_factory@,
            opts.jsx_fragment@,
            opts.import_source@,
            opts.target@,
        ),
        may_transform(
            source,
            filename,
            (ParserOptions { parse_regular_expression: true }),
            made.0,
            (if opts.sourcemap {
                Some(filename)
            } else {
                None
            }),
            made.1,
        ),
        match output {
            TransformOutputView::Code(code) => {
                &&& !opts.sourcemap
                &&& made.1 matches Some(Ok(generated)) && generated.code == code
            },
            TransformOutputView::CodeWithSourcemap { code, sourcemap } => {
                &&& opts.sourcemap
                &&& made.1 matches Some(Ok(generated)) && generated.code == code && generated.map
                    == Some(sourcemap)
            },
            TransformOutputView::Errors(messages) => made.1 == Some(
                Err::<GeneratedView, Seq<Seq<char>>>(messages),
            ),
            TransformOutputView::Crashed => made.1 is None,
        },
{
    let (settings, outcome) = choose|
        settings: TransformSettingsView,
        outcome: Option<Result<GeneratedView, Seq<Seq<char>>>>,
    |
        {
            &&& #[trigger] may_transform(
                source,
                filename,
                full_parse(),
                settings,
                map_path_of(filename, opts.sourcemap),
                outcome,
            )
            &&& are_settings_of(settings, opts)
            &&& output == output_of(outcome, opts.sourcemap)
        };
    (settings, outcome)
}

/// The views of outputs leave nothing out.
pub proof fn law_outputs_are_seen_whole(
    read: ParseOutput,
    transformed: TransformOutput,
    minified: MinifyOutput,
)
    ensures
        match read {
            ParseOutput::Tree(value) => read@ == ParseOutputView::Tree(json(value)),
            ParseOutput::Errors(list) => read@ matches ParseOutputView::Errors(errors)
                && carry_messages(list@, errors),
            ParseOutput::Refused(message) => read@ == ParseOutputView::Refused(message@),
        },
        match transformed {
            TransformOutput::Code(code) => transformed@ == TransformOutputView::Code(code@),
            TransformOutput::CodeWithSourcemap(both) => transformed@
                == (TransformOutputView::CodeWithSourcemap {
                code: both.code@,
                sourcemap: both.sourcemap@,
            }),
            TransformOutput::Errors(list) => transformed@ matches TransformOutputView::Errors(
                errors,
            ) && hold_texts(list@, errors),
            TransformOutput::Crashed => transformed@ is Crashed,
        },
        match minified {
            MinifyOutput::Code(code) => minified@ == MinifyOutputView::Code(code@),
            MinifyOutput::Errors(list) => minified@ matches MinifyOutputView::Errors(errors)
                && hold_texts(list@, errors),
            MinifyOutput::Crashed => minified@ is Crashed,
        },
{
}

/// The modules that [`imports`] lists are those that import declarations name, each as often as it
/// is named and in the order of the declarations; imports of types alone, and all other statements,
/// add nothing.
pub proof fn law_imports_list_each_declaration(a: Seq<Stmt>, b: Seq<Stmt>, s: Stmt)
    ensures
        imported(items_of(a + b)) == imported(items_of(a)) + imported(items_of(b)),
        imported(items_of(Seq::empty())).len() == 0,
        ({
            let names = imported(items_of(seq![s]));
            if s is Item && s->Item_0 is Import && s->Item_0->Import_kind
                == DeclarationKind::Value {
                names == seq![s->Item_0->Import_source.value@]
            } else {
                names.len() == 0
            }
        }),
    decreases b.len(),
{
    let single = items_of(seq![s]);
    assert(single.len() == 1);
    assert(single.drop_last() == Seq::<ModuleItem>::empty());
    reveal_with_fuel(imported, 2);
    if s is Item && s->Item_0 is Import && s->Item_0->Import_kind == DeclarationKind::Value {
        assert(imported(single) == seq![s->Item_0->Import_source.value@]);
    }
    if b.len() == 0 {
        assert(a + b == a);
        assert(imported(items_of(a + b)) == imported(items_of(a)) + imported(items_of(b)));
    } else {
        assert((a + b).drop_last() == a + b.drop_last());
        assert(items_of(a + b).drop_last() == items_of((a + b).drop_last()));
        assert(items_of(b).drop_last() == items_of(b.drop_last()));
        assert(items_of(a + b).last() == items_of(b).last());
        law_imports_list_each_declaration(a, b.drop_last(), s);
        assert(imported(items_of(a + b)) == imported(items_of(a)) + imported(items_of(b)));
    }
}

} // verus!
