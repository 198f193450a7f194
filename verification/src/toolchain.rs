//! The calls into the oxc toolchain: parser, transformer, minifier and printer.
//!
//! Every call starts from source text and hands back plain values, so a caller never holds a tree
//! that lives in one of the toolchain's arenas. The transformer and the minifier panic on some
//! programs; they run on a thread of their own, and a panic there is an answer like any other.
use std::path::{Path, PathBuf};
use std::sync::mpsc::channel;

use vstd::prelude::*;

use oxc_allocator::Allocator;
use oxc_ast::ast;
use oxc_codegen::{Codegen, CodegenOptions};
use oxc_minifier::{CompressOptions, MangleOptions, Minifier, MinifierOptions};
use oxc_parser::{ParseOptions, Parser, ParserReturn};
use oxc_semantic::SemanticBuilder;
use oxc_span::SourceType;
use oxc_transformer::{EnvOptions, TransformOptions, Transformer};
use rayon::ThreadPoolBuilder;

use crate::options::{JsxRuntime, ParserOptions, TransformSettings, TransformSettingsView};
use crate::syntax::{
    CallArgument, DeclarationKind, Element, Expr, Literal, ModuleItem, Property, Stmt,
};
use crate::text::{hold_texts, optional_text, texts};

verus! {

/// oxc's `Allocator`, the arena that a syntax tree lives in. Nothing inside it is looked at.
#[verifier::external_type_specification]
#[verifier::external_body]
pub struct ExAllocator(oxc_allocator::Allocator);

/// oxc's `ParserReturn`: a program and its errors. Nothing inside it is looked at.
#[verifier::external_type_specification]
#[verifier::external_body]
pub struct ExParserReturn<'a>(oxc_parser::ParserReturn<'a>);

/// oxc's `TransformOptions`. Nothing inside it is looked at.
#[verifier::external_type_specification]
#[verifier::external_body]
pub struct ExTransformOptions(oxc_transformer::TransformOptions);

/// A statement of oxc's syntax tree. Nothing inside it is looked at.
#[verifier::external_type_specification]
#[verifier::external_body]
pub struct ExStatement<'a>(ast::Statement<'a>);

/// An expression of oxc's syntax tree. Nothing inside it is looked at.
#[verifier::external_type_specification]
#[verifier::external_body]
pub struct ExExpression<'a>(ast::Expression<'a>);

/// A string literal of oxc's syntax tree. Nothing inside it is looked at.
#[verifier::external_type_specification]
#[verifier::external_body]
pub struct ExStringLiteral<'a>(ast::StringLiteral<'a>);

/// An argument of a call in oxc's syntax tree. Nothing inside it is looked at.
#[verifier::external_type_specification]
#[verifier::external_body]
pub struct ExArgument<'a>(ast::Argument<'a>);

/// A property in oxc's syntax tree. Nothing inside it is looked at.
#[verifier::external_type_specification]
#[verifier::external_body]
pub struct ExObjectPropertyKind<'a>(ast::ObjectPropertyKind<'a>);

/// An element of an array in oxc's syntax tree. Nothing inside it is looked at.
#[verifier::external_type_specification]
#[verifier::external_body]
pub struct ExArrayExpressionElement<'a>(ast::ArrayExpressionElement<'a>);

/// oxc's `ImportOrExportKind`. Nothing inside it is looked at.
#[verifier::external_type_specification]
#[verifier::external_body]
pub struct ExImportOrExportKind(ast::ImportOrExportKind);

/// What the parser makes of a source text.
pub struct Parsed {
    /// The messages of the syntax errors, in the order in which they are reported.
    pub errors: Seq<Seq<char>>,
    /// The statements of the module.
    pub body: Seq<Stmt>,
}

/// What `Parser::parse` makes of a source text. How the text is read depends on the language that
/// the file name's extension stands for: `SourceType::from_path` tells it, and a name that it
/// refuses stands for a JavaScript module. The one hash map that the parser walks gives errors that
/// all carry the same message.
pub uninterp spec fn parsed(source: Seq<char>, filename: Seq<char>, options: ParserOptions) -> Parsed;

/// The declaration that a statement is.
pub open spec fn item_of(stmt: Stmt) -> ModuleItem {
    match stmt {
        Stmt::Item(item) => item,
        _ => ModuleItem::Other,
    }
}

/// The declarations among statements; any other statement keeps its place.
pub open spec fn items_of(body: Seq<Stmt>) -> Seq<ModuleItem> {
    body.map_values(|stmt: Stmt| item_of(stmt))
}

/// Whether a source text has no syntax errors, invalid patterns of regular expressions aside.
pub open spec fn is_valid(source: Seq<char>, filename: Seq<char>) -> bool {
    parsed(source, filename, (ParserOptions { parse_regular_expression: false })).errors.len() == 0
}

/// The syntax errors of a source text, and its top-level declarations.
#[derive(Debug)]
pub struct Outline {
    pub errors: Vec<String>,
    pub items: Vec<ModuleItem>,
}

impl Outline {
    /// Whether there are syntax errors.
    pub fn has_errors(&self) -> (r: bool)
        ensures
            r == (texts(self.errors@).len() > 0),
    {
        self.errors.len() > 0
    }
}

/// Calls `Parser::parse`, in the language that `SourceType::from_path` reads off the file name.
/// Nothing is claimed of the result, which lives in the allocator: see the functions that call it.
#[verifier::external_body]
fn run_parser<'a>(
    allocator: &'a Allocator,
    source: &'a str,
    filename: &str,
    options: ParserOptions,
) -> (r: ParserReturn<'a>) {
    let source_type = SourceType::from_path(filename).unwrap_or_default();
    let parse_regular_expression = options.parse_regular_expression;
    let options = ParseOptions { parse_regular_expression, ..ParseOptions::default() };
    Parser::new(allocator, source, source_type).with_options(options).parse()
}

/// Calls `Parser::parse`. The contract claims that the errors and the top-level declarations are
/// those of the one parse that [`parsed`] names; and that parsing patterns adds the errors of
/// patterns and no other, so that a text without errors has none either when patterns are not
/// parsed. The conversion does not go below the top level.
#[verifier::external_body]
pub(crate) fn parse_outline(source: &str, filename: &str, options: ParserOptions) -> (r: Outline)
    ensures
        texts(r.errors@) == parsed(source@, filename@, options).errors,
        r.items@ == items_of(parsed(source@, filename@, options).body),
        r.errors@.len() == 0 ==> is_valid(source@, filename@),
{
    let allocator = Allocator::default();
    let ret = run_parser(&allocator, source, filename, options);
    Outline {
        errors: ret.errors.iter().map(ToString::to_string).collect(),
        items: ret.program.body.iter().map(item_from).collect(),
    }
}

/// Calls `Parser::parse`. The contract claims that the statements are those of the one parse that
/// [`parsed`] names.
#[verifier::external_body]
pub(crate) fn parse_body(source: &str, filename: &str, options: ParserOptions) -> (r: Vec<Stmt>)
    ensures
        r@ == parsed(source@, filename@, options).body,
{
    let allocator = Allocator::default();
    body_from(&run_parser(&allocator, source, filename, options).program.body)
}

/// The ESTree form of a source text, with TypeScript's nodes, as JSON.
pub uninterp spec fn estree(source: Seq<char>, filename: Seq<char>, options: ParserOptions) -> Seq<char>;

/// Calls `Program::to_estree_ts_json` on the program that `Parser::parse` returns. The contract
/// claims that the JSON depends on the arguments alone.
#[verifier::external_body]
pub(crate) fn print_estree(source: &str, filename: &str, options: ParserOptions) -> (r: String)
    requires
        parsed(source@, filename@, options).errors.len() == 0,
    ensures
        r@ == estree(source@, filename@, options),
{
    let allocator = Allocator::default();
    run_parser(&allocator, source, filename, options).program.to_estree_ts_json(false)
}

/// Whether a target is an edition of ECMAScript that the transformer knows.
pub open spec fn is_edition(target: Seq<char>) -> bool {
    ||| target == "es6"@
    ||| target == "es2015"@
    ||| target == "es2016"@
    ||| target == "es2017"@
    ||| target == "es2018"@
    ||| target == "es2019"@
    ||| target == "es2020"@
    ||| target == "es2021"@
    ||| target == "es2022"@
    ||| target == "es2023"@
    ||| target == "es2024"@
    ||| target == "es2025"@
    ||| target == "es2026"@
    ||| target == "esnext"@
}

/// Whether a target starts as no edition and no engine does.
pub open spec fn names_nothing(target: Seq<char>) -> bool {
    target.len() == 0 || !('a' <= target[0] <= 'z' || 'A' <= target[0] <= 'Z')
}

/// Whether this is the name of an engine that no other engine's name begins with, nor begins.
pub open spec fn is_engine(name: Seq<char>) -> bool {
    ||| name == "android"@
    ||| name == "chrome"@
    ||| name == "deno"@
    ||| name == "edge"@
    ||| name == "electron"@
    ||| name == "firefox"@
    ||| name == "hermes"@
    ||| name == "ie"@
    ||| name == "ios"@
    ||| name == "node"@
    ||| name == "opera"@
    ||| name == "rhino"@
    ||| name == "safari"@
    ||| name == "samsung"@
}

/// Whether a text is a number of up to four digits.
pub open spec fn is_number(text: Seq<char>) -> bool {
    &&& 1 <= text.len() <= 4
    &&& forall|i: int| 0 <= i < text.len() ==> '0' <= #[trigger] text[i] <= '9'
}

/// Whether a text is a version: a number, or two or three with dots between them.
pub open spec fn is_version(text: Seq<char>) -> bool {
    ||| is_number(text)
    ||| exists|a: Seq<char>, b: Seq<char>|
        #![trigger is_number(a), is_number(b)]
        is_number(a) && is_number(b) && text == a + seq!['.'] + b
    ||| exists|a: Seq<char>, b: Seq<char>, c: Seq<char>|
        #![trigger is_number(a), is_number(b), is_number(c)]
        is_number(a) && is_number(b) && is_number(c) && text == a + seq!['.'] + b + seq!['.'] + c
}

/// Whether a target is an engine with a version, such as `chrome58` or `node18.1`.
pub open spec fn is_engine_target(target: Seq<char>, name: Seq<char>) -> bool {
    is_engine(name) && exists|version: Seq<char>| #[trigger]
        is_version(version) && target == name + version
}

/// The targets with a comma between each two.
pub open spec fn listed(targets: Seq<Seq<char>>) -> Seq<char>
    decreases targets.len(),
{
    if targets.len() == 0 {
        Seq::empty()
    } else if targets.len() == 1 {
        targets[0]
    } else {
        listed(targets.drop_last()) + seq![','] + targets.last()
    }
}

/// Whether each target is an edition or an engine with a version, and none is there twice: there is
/// at most one edition, and each engine has one version.
pub open spec fn are_distinct_targets(targets: Seq<Seq<char>>) -> bool {
    &&& targets.len() > 0
    &&& forall|i: int|
        0 <= i < targets.len() ==> is_edition(#[trigger] targets[i]) || exists|name: Seq<char>|
            is_engine_target(targets[i], name)
    &&& forall|i: int, j: int|
        0 <= i < j < targets.len() ==> !(is_edition(#[trigger] targets[i]) && is_edition(
            #[trigger] targets[j],
        ))
    &&& forall|i: int, j: int, name: Seq<char>|
        #![trigger is_engine_target(targets[i], name), is_engine_target(targets[j], name)]
        0 <= i < j < targets.len() ==> !(is_engine_target(targets[i], name) && is_engine_target(
            targets[j],
            name,
        ))
}

/// Whether the transformer can give this answer to whether it knows a target: it knows lists of
/// editions and of engines with a version, and nothing that starts as neither an edition nor an
/// engine does. Of any other target this is open.
pub open spec fn may_know(target: Seq<char>, answer: bool) -> bool {
    &&& names_nothing(target) ==> !answer
    &&& is_edition(target) ==> answer
    &&& forall|targets: Seq<Seq<char>>| #[trigger]
        are_distinct_targets(targets) && target == listed(targets) ==> answer
}

/// Calls `EnvOptions::from_target`, which succeeds on a list of targets that it knows, such as
/// `es2020,chrome58`. The contract claims that it succeeds on an edition, on an engine with a
/// version, and on a list of these in which none is there twice; and that it fails where the list
/// starts as neither an edition nor an engine does. Of other targets nothing is claimed: an engine
/// is found by walking a hash map, and where the name of one engine starts with that of another the
/// order of the walk decides.
#[verifier::external_body]
pub(crate) fn is_known_target(target: &str) -> (r: bool)
    ensures
        may_know(target@, r),
{
    EnvOptions::from_target(target).is_ok()
}

/// A list of targets is not empty.
pub(crate) proof fn lemma_listed_is_text(targets: Seq<Seq<char>>)
    requires
        are_distinct_targets(targets),
    ensures
        listed(targets).len() > 0,
{
    let last = targets.last();
    assert(last == targets[targets.len() - 1]);
    if is_edition(last) {
        lemma_edition_is_text(last);
    } else {
        let name = choose|name: Seq<char>| is_engine_target(last, name);
        assert(last.len() >= name.len());
        reveal_strlit("android");
        reveal_strlit("chrome");
        reveal_strlit("deno");
        reveal_strlit("edge");
        reveal_strlit("electron");
        reveal_strlit("firefox");
        reveal_strlit("hermes");
        reveal_strlit("ie");
        reveal_strlit("ios");
        reveal_strlit("node");
        reveal_strlit("opera");
        reveal_strlit("rhino");
        reveal_strlit("safari");
        reveal_strlit("samsung");
    }
}

/// An edition starts with a letter.
pub(crate) proof fn lemma_edition_is_text(target: Seq<char>)
    requires
        is_edition(target),
    ensures
        target.len() > 0,
        target[0] == 'e',
{
    reveal_strlit("es6");
    reveal_strlit("es2015");
    reveal_strlit("es2016");
    reveal_strlit("es2017");
    reveal_strlit("es2018");
    reveal_strlit("es2019");
    reveal_strlit("es2020");
    reveal_strlit("es2021");
    reveal_strlit("es2022");
    reveal_strlit("es2023");
    reveal_strlit("es2024");
    reveal_strlit("es2025");
    reveal_strlit("es2026");
    reveal_strlit("esnext");
}

/// Printed code, with its source map as JSON where one was asked for.
#[derive(Debug)]
pub struct Generated {
    pub code: String,
    pub map: Option<String>,
}

/// Printed code as characters.
pub struct GeneratedView {
    pub code: Seq<char>,
    pub map: Option<Seq<char>>,
}

impl View for Generated {
    type V = GeneratedView;

    open spec fn view(&self) -> GeneratedView {
        GeneratedView { code: self.code@, map: optional_text(self.map) }
    }
}

/// The characters of a transformation's outcome.
pub open spec fn generated_text(r: Result<Generated, Vec<String>>) -> Result<
    GeneratedView,
    Seq<Seq<char>>,
> {
    match r {
        Ok(generated) => Ok(generated@),
        Err(messages) => Err(texts(messages@)),
    }
}

/// Whether `outcome` can come of transforming and printing a source text: the printed code, or the
/// messages of the errors that the transformer reports; or nothing, where one of the calls panics.
/// `map_path` is the name under which a source map lists the source. More than one outcome can be
/// possible: the features that an engine lacks, the numbers in fresh names and the places of some
/// comments follow the order in which hash maps are walked, and debug assertions panic only where
/// they are compiled in.
pub uninterp spec fn may_transform(
    source: Seq<char>,
    filename: Seq<char>,
    options: ParserOptions,
    settings: TransformSettingsView,
    map_path: Option<Seq<char>>,
    outcome: Option<Result<GeneratedView, Seq<Seq<char>>>>,
) -> bool;

/// Converts settings to `TransformOptions`, whose `env` is what `EnvOptions::from_target` makes of
/// the target where there is one. Nothing is claimed of the result.
#[verifier::external_body]
fn transform_options_from(settings: &TransformSettings) -> (r: TransformOptions) {
    let mut options = TransformOptions::default();
    if let Some(target) = &settings.target {
        options.env = EnvOptions::from_target(target).unwrap_or_default();
    }
    options.jsx.runtime = match settings.runtime {
        JsxRuntime::Classic => oxc_transformer::JsxRuntime::Classic,
        JsxRuntime::Automatic => oxc_transformer::JsxRuntime::Automatic,
    };
    options.jsx.pragma = settings.pragma.clone();
    options.jsx.pragma_frag = settings.pragma_frag.clone();
    options.jsx.import_source = settings.import_source.clone();
    options
}

/// Calls `Transformer::build_with_scoping` on the program that `Parser::parse` returns, with the
/// scopes that `SemanticBuilder::build` finds in it, and prints the program with `Codegen::build`
/// where the transformer reports no error. The contract claims that the outcome is one of those that
/// [`may_transform`] names for the arguments, and that there is a source map exactly where a path is
/// given for it. It leaves out the arguments on which one of the calls can panic: they take some
/// programs for impossible, such as one that uses an undeclared private name.
#[verifier::external_body]
fn transform_program(
    source: &str,
    filename: &str,
    options: ParserOptions,
    settings: &TransformSettings,
    map_path: &Option<String>,
) -> (r: Result<Generated, Vec<String>>)
    requires
        parsed(source@, filename@, options).errors.len() == 0,
        !may_transform(source@, filename@, options, settings@, optional_text(*map_path), None),
    ensures
        may_transform(
            source@,
            filename@,
            options,
            settings@,
            optional_text(*map_path),
            Some(generated_text(r)),
        ),
        r matches Ok(generated) ==> (generated.map is Some <==> map_path is Some),
{
    let allocator = Allocator::default();
    let mut program = run_parser(&allocator, source, filename, options).program;
    let scoping = SemanticBuilder::new().build(&program).semantic.into_scoping();
    let settings = transform_options_from(settings);
    let result = Transformer::new(&allocator, Path::new(filename), &settings)
        .build_with_scoping(scoping, &mut program);
    if !result.errors.is_empty() {
        return Err(result.errors.iter().map(ToString::to_string).collect());
    }
    let source_map_path = map_path.as_ref().map(PathBuf::from);
    let printing = CodegenOptions { source_map_path, ..CodegenOptions::default() };
    let printed = Codegen::new().with_options(printing).build(&program);
    Ok(Generated { code: printed.code, map: printed.map.map(|map| map.to_json_string()) })
}

/// Whether `outcome` can come of minifying and printing a source text: the printed code; or nothing,
/// where one of the calls panics. More than one outcome can be possible: among names that are used
/// equally often, a sort that leaves their order open decides which become shorter, and debug
/// assertions panic only where they are compiled in.
pub uninterp spec fn may_minify(
    source: Seq<char>,
    filename: Seq<char>,
    options: ParserOptions,
    mangle: bool,
    outcome: Option<Seq<char>>,
) -> bool;

/// Calls `Minifier::minify` on the program that `Parser::parse` returns, compressing with the
/// default options and, where `mangle` is set, mangling with the default options; then prints the
/// program with `Codegen::build`. The contract claims that the code is one of those that
/// [`may_minify`] names for the arguments. It leaves out the arguments on which one of the calls can
/// panic: the minifier takes some syntax of TypeScript for impossible, such as an index signature in
/// a class.
#[verifier::external_body]
fn minify_program(
    source: &str,
    filename: &str,
    options: ParserOptions,
    mangle: bool,
) -> (r: String)
    requires
        parsed(source@, filename@, options).errors.len() == 0,
        !may_minify(source@, filename@, options, mangle, None),
    ensures
        may_minify(source@, filename@, options, mangle, Some(r@)),
{
    let allocator = Allocator::default();
    let mut program = run_parser(&allocator, source, filename, options).program;
    let mangle = if mangle { Some(MangleOptions::default()) } else { None };
    let compress = Some(CompressOptions::default());
    let minifier = Minifier::new(MinifierOptions { mangle, compress });
    let scoping = minifier.minify(&allocator, &mut program).scoping;
    let printer = Codegen::new().with_options(CodegenOptions::minify()).with_scoping(scoping);
    printer.build(&program).code
}

/// Work on a module without syntax errors.
#[derive(Debug)]
pub enum Job {
    Transform {
        source: String,
        filename: String,
        options: ParserOptions,
        settings: TransformSettings,
        map_path: Option<String>,
    },
    Minify { source: String, filename: String, options: ParserOptions, mangle: bool },
}

/// What comes of a job.
#[derive(Debug)]
pub enum Answer {
    Transformed(Result<Generated, Vec<String>>),
    Minified(String),
}

impl Job {
    /// Whether the module has no syntax errors.
    pub open spec fn parses(&self) -> bool {
        match *self {
            Job::Transform { source, filename, options, .. } => parsed(
                source@,
                filename@,
                options,
            ).errors.len() == 0,
            Job::Minify { source, filename, options, .. } => parsed(
                source@,
                filename@,
                options,
            ).errors.len() == 0,
        }
    }

    /// Whether the toolchain can panic.
    pub open spec fn may_crash(&self) -> bool {
        match *self {
            Job::Transform { source, filename, options, settings, map_path } => may_transform(
                source@,
                filename@,
                options,
                settings@,
                optional_text(map_path),
                None,
            ),
            Job::Minify { source, filename, options, mangle } => may_minify(
                source@,
                filename@,
                options,
                mangle,
                None,
            ),
        }
    }

    /// Whether the toolchain can answer this.
    pub open spec fn may_answer(&self, answer: Answer) -> bool {
        match (*self, answer) {
            (
                Job::Transform { source, filename, options, settings, map_path },
                Answer::Transformed(outcome),
            ) => {
                &&& may_transform(
                    source@,
                    filename@,
                    options,
                    settings@,
                    optional_text(map_path),
                    Some(generated_text(outcome)),
                )
                &&& outcome matches Ok(generated) ==> (generated.map is Some <==> map_path is Some)
            },
            (
                Job::Minify { source, filename, options, mangle },
                Answer::Minified(code),
            ) => may_minify(source@, filename@, options, mangle, Some(code@)),
            _ => false,
        }
    }
}

/// Does a job on which the toolchain cannot panic.
fn perform(job: Job) -> (r: Answer)
    requires
        job.parses(),
        !job.may_crash(),
    ensures
        job.may_answer(r),
{
    match job {
        Job::Transform { source, filename, options, settings, map_path } => Answer::Transformed(
            transform_program(source.as_str(), filename.as_str(), options, &settings, &map_path),
        ),
        Job::Minify { source, filename, options, mangle } => Answer::Minified(
            minify_program(source.as_str(), filename.as_str(), options, mangle),
        ),
    }
}

/// Calls `ThreadPool::spawn` of rayon, on a pool with a `panic_handler`, and waits for what
/// [`perform`] sends. The contract claims that an answer is one that the toolchain can give, and
/// that none comes only of a job on which it can panic: rayon hands the panic to the handler, and
/// the sender is dropped unused. Whether a job can panic is not known before it is done, so it is
/// handed on as it is. As memory is taken to be there, so is a thread to start.
#[verifier::external_body]
pub(crate) fn attempt(job: Job) -> (r: Option<Answer>)
    requires
        job.parses(),
    ensures
        match r {
            Some(answer) => job.may_answer(answer),
            None => job.may_crash(),
        },
{
    let (sender, receiver) = channel();
    let pool = ThreadPoolBuilder::new().num_threads(1).panic_handler(|_| ()).build().unwrap();
    pool.spawn(move || sender.send(perform(job)).unwrap_or(()));
    receiver.recv().ok()
}

/// Converts a string literal of the toolchain's tree: its text, and where it stands.
#[verifier::external_body]
fn literal_from(literal: &ast::StringLiteral<'_>) -> (r: Literal) {
    Literal { value: literal.value.to_string(), start: literal.span.start, end: literal.span.end }
}

/// Converts `ImportOrExportKind`, variant by variant.
#[verifier::external_body]
fn kind_from(kind: ast::ImportOrExportKind) -> (r: DeclarationKind) {
    match kind {
        ast::ImportOrExportKind::Value => DeclarationKind::Value,
        ast::ImportOrExportKind::Type => DeclarationKind::Type,
    }
}

/// Converts the variants of `Statement` that name other modules.
#[verifier::external_body]
fn item_from(statement: &ast::Statement<'_>) -> (r: ModuleItem) {
    match statement {
        ast::Statement::ImportDeclaration(x) => {
            ModuleItem::Import { kind: kind_from(x.import_kind), source: literal_from(&x.source) }
        },
        ast::Statement::ExportNamedDeclaration(x) => {
            let source = x.source.as_ref().map(literal_from);
            ModuleItem::ExportNamed { kind: kind_from(x.export_kind), source }
        },
        ast::Statement::ExportAllDeclaration(x) => {
            ModuleItem::ExportAll { kind: kind_from(x.export_kind), source: literal_from(&x.source) }
        },
        _ => ModuleItem::Other,
    }
}

/// Converts an `Expression`, on the heap.
#[verifier::external_body]
fn boxed_from(expression: &ast::Expression<'_>) -> (r: Box<Expr>) {
    Box::new(expression_from(expression))
}

/// Converts an `Argument` of a call: `Argument::as_expression` is `None` for a spread one alone.
#[verifier::external_body]
fn argument_from(argument: &ast::Argument<'_>) -> (r: CallArgument) {
    match argument.as_expression() {
        Some(expression) => CallArgument::Expression(expression_from(expression)),
        None => CallArgument::Spread,
    }
}

/// Converts `ObjectPropertyKind`, variant by variant.
#[verifier::external_body]
fn property_from(property: &ast::ObjectPropertyKind<'_>) -> (r: Property) {
    match property {
        ast::ObjectPropertyKind::ObjectProperty(x) => Property::Property(expression_from(&x.value)),
        ast::ObjectPropertyKind::SpreadProperty(x) => Property::Spread(
            expression_from(&x.argument),
        ),
    }
}

/// Converts `ArrayExpressionElement`, whose remaining variants are those of `Expression`.
#[verifier::external_body]
fn element_from(element: &ast::ArrayExpressionElement<'_>) -> (r: Element) {
    match element {
        ast::ArrayExpressionElement::SpreadElement(x) => Element::Spread(
            expression_from(&x.argument),
        ),
        ast::ArrayExpressionElement::Elision(_) => Element::Elision,
        _ => Element::Expression(expression_from(element.to_expression())),
    }
}

/// Converts the variants of `Expression` that hold a literal, or one expression.
#[verifier::external_body]
fn expression_from(expression: &ast::Expression<'_>) -> (r: Expr) {
    match expression {
        ast::Expression::StringLiteral(x) => Expr::StringLiteral(literal_from(x)),
        ast::Expression::TemplateLiteral(_) => Expr::TemplateLiteral,
        ast::Expression::ImportExpression(x) => Expr::Import(boxed_from(&x.source)),
        ast::Expression::AssignmentExpression(x) => Expr::Assignment(boxed_from(&x.right)),
        ast::Expression::AwaitExpression(x) => Expr::Await(boxed_from(&x.argument)),
        ast::Expression::UnaryExpression(x) => Expr::Unary(boxed_from(&x.argument)),
        ast::Expression::ParenthesizedExpression(x) => Expr::Parenthesized(boxed_from(&x.expression)),
        ast::Expression::TaggedTemplateExpression(x) => Expr::TaggedTemplate(boxed_from(&x.tag)),
        ast::Expression::StaticMemberExpression(x) => Expr::StaticMember(boxed_from(&x.object)),
        _ => compound_from(expression),
    }
}

/// Converts the variants of `Expression` that hold two or three expressions.
#[verifier::external_body]
fn compound_from(expression: &ast::Expression<'_>) -> (r: Expr) {
    match expression {
        ast::Expression::ConditionalExpression(x) => {
            let (consequent, alternate) = (boxed_from(&x.consequent), boxed_from(&x.alternate));
            Expr::Conditional { test: boxed_from(&x.test), consequent, alternate }
        },
        ast::Expression::LogicalExpression(x) => Expr::Logical { left: boxed_from(&x.left), right: boxed_from(&x.right) },
        ast::Expression::BinaryExpression(x) => Expr::Binary { left: boxed_from(&x.left), right: boxed_from(&x.right) },
        ast::Expression::ComputedMemberExpression(x) => Expr::ComputedMember { object: boxed_from(&x.object), expression: boxed_from(&x.expression) },
        _ => call_from(expression),
    }
}

/// Converts the variants of `Expression` that hold arguments.
#[verifier::external_body]
fn call_from(expression: &ast::Expression<'_>) -> (r: Expr) {
    match expression {
        ast::Expression::CallExpression(x) => {
            let arguments = x.arguments.iter().map(argument_from).collect();
            Expr::Call { callee: boxed_from(&x.callee), arguments }
        },
        ast::Expression::NewExpression(x) => {
            let arguments = x.arguments.iter().map(argument_from).collect();
            Expr::New { callee: boxed_from(&x.callee), arguments }
        },
        _ => listing_from(expression),
    }
}

/// Converts the variants of `Expression` that hold lists. Any other variant is `Other`.
#[verifier::external_body]
fn listing_from(expression: &ast::Expression<'_>) -> (r: Expr) {
    match expression {
        ast::Expression::SequenceExpression(x) => Expr::Sequence(x.expressions.iter().map(expression_from).collect()),
        ast::Expression::ArrowFunctionExpression(x) => Expr::ArrowFunction(body_from(&x.body.statements)),
        ast::Expression::ObjectExpression(x) => Expr::Object(x.properties.iter().map(property_from).collect()),
        ast::Expression::ArrayExpression(x) => Expr::Array(x.elements.iter().map(element_from).collect()),
        _ => Expr::Other,
    }
}

/// Converts each `Statement` of a list.
#[verifier::external_body]
fn body_from(statements: &[ast::Statement<'_>]) -> (r: Vec<Stmt>) {
    statements.iter().map(statement_from).collect()
}

/// Converts the variants of `Statement` that hold expressions or one list of statements.
#[verifier::external_body]
fn statement_from(statement: &ast::Statement<'_>) -> (r: Stmt) {
    match statement {
        ast::Statement::ExpressionStatement(x) => Stmt::Expression(expression_from(&x.expression)),
        ast::Statement::VariableDeclaration(x) => Stmt::VariableDeclaration(
            x.declarations.iter().map(|d| d.init.as_ref().map(expression_from)).collect(),
        ),
        ast::Statement::ReturnStatement(x) => Stmt::Return(x.argument.as_ref().map(expression_from)),
        ast::Statement::BlockStatement(x) => Stmt::Block(body_from(&x.body)),
        ast::Statement::FunctionDeclaration(x) => Stmt::Function(
            x.body.as_ref().map(|b| body_from(&b.statements)),
        ),
        _ => loop_from(statement),
    }
}

/// Converts the variants of `Statement` that are loops: of each, its body.
#[verifier::external_body]
fn loop_from(statement: &ast::Statement<'_>) -> (r: Stmt) {
    match statement {
        ast::Statement::ForStatement(x) => Stmt::For(Box::new(statement_from(&x.body))),
        ast::Statement::ForInStatement(x) => Stmt::ForIn(Box::new(statement_from(&x.body))),
        ast::Statement::ForOfStatement(x) => Stmt::ForOf(Box::new(statement_from(&x.body))),
        ast::Statement::WhileStatement(x) => Stmt::While(Box::new(statement_from(&x.body))),
        _ => branch_from(statement),
    }
}

/// Converts the variants of `Statement` with branches: of each, the statements in them.
#[verifier::external_body]
fn branch_from(statement: &ast::Statement<'_>) -> (r: Stmt) {
    match statement {
        ast::Statement::IfStatement(x) => {
            let alternate = x.alternate.as_ref().map(|s| Box::new(statement_from(s)));
            Stmt::If { consequent: Box::new(statement_from(&x.consequent)), alternate }
        },
        ast::Statement::SwitchStatement(x) => Stmt::Switch(
            x.cases.iter().map(|c| body_from(&c.consequent)).collect(),
        ),
        _ => guarded_from(statement),
    }
}

/// Converts `TryStatement` and the default export of a function. Any other variant is the
/// declaration that [`item_from`] makes of it.
#[verifier::external_body]
fn guarded_from(statement: &ast::Statement<'_>) -> (r: Stmt) {
    match statement {
        ast::Statement::TryStatement(x) => Stmt::Try {
            block: body_from(&x.block.body),
            handler: x.handler.as_ref().map(|h| body_from(&h.body.body)),
            finalizer: x.finalizer.as_ref().map(|f| body_from(&f.body)),
        },
        ast::Statement::ExportDefaultDeclaration(x) => match &x.declaration {
            ast::ExportDefaultDeclarationKind::FunctionDeclaration(f) => Stmt::ExportDefaultFunction(f.body.as_ref().map(|b| body_from(&b.statements))),
            _ => Stmt::Item(ModuleItem::Other),
        },
        _ => Stmt::Item(item_from(statement)),
    }
}

/// What is read off a transformation's outcome is all of it.
pub proof fn law_outcomes_are_whole(outcome: Result<Generated, Vec<String>>)
    ensures
        match outcome {
            Ok(generated) => {
                &&& generated_text(outcome) is Ok
                &&& generated_text(outcome)->Ok_0.code == generated.code@
                &&& generated.map is None <==> generated_text(outcome)->Ok_0.map is None
                &&& generated.map matches Some(map) ==> generated_text(outcome)->Ok_0.map == Some(
                    map@,
                )
            },
            Err(messages) => {
                &&& generated_text(outcome) is Err
                &&& hold_texts(messages@, generated_text(outcome)->Err_0)
            },
        },
{
}

/// A declaration is read off the statement that it is, in its place.
pub proof fn law_items_keep_their_places(body: Seq<Stmt>)
    ensures
        items_of(body).len() == body.len(),
        forall|k: int|
            0 <= k < body.len() ==> match body[k] {
                Stmt::Item(item) => #[trigger] items_of(body)[k] == item,
                _ => items_of(body)[k] == ModuleItem::Other,
            },
{
}

} // verus!
