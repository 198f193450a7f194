//! Collecting the specifiers that a module imports or re-exports.
use vstd::prelude::*;

use crate::syntax::{
    CallArgument, DeclarationKind, Element, Expr, Literal, ModuleItem, Property, Stmt,
};

verus! {

/// Whether an import is a declaration or an `import()` call.
#[derive(Debug, Clone, Copy, PartialEq, Eq, Structural)]
pub enum ImportType {
    Static,
    Dynamic,
}

/// The construct that names the other module.
#[derive(Debug, Clone, Copy, PartialEq, Eq, Structural)]
pub enum ImportKind {
    Import,
    Export,
    ExportAll,
}

/// One mention of another module.
#[derive(Debug)]
pub struct ImportInfo {
    pub specifier: String,
    pub import_type: ImportType,
    pub kind: ImportKind,
    pub start: u32,
    pub end: u32,
}

/// A value under a key of an encoded mention.
#[derive(Debug, PartialEq, Eq)]
pub enum FieldValue {
    Text(String),
    /// A name that stands for itself.
    Atom(String),
    Number(u32),
}

/// A value under a key, as characters.
pub enum FieldValueView {
    Text(Seq<char>),
    Atom(Seq<char>),
    Number(u32),
}

impl View for FieldValue {
    type V = FieldValueView;

    open spec fn view(&self) -> FieldValueView {
        match *self {
            FieldValue::Text(text) => FieldValueView::Text(text@),
            FieldValue::Atom(name) => FieldValueView::Atom(name@),
            FieldValue::Number(number) => FieldValueView::Number(number),
        }
    }
}

/// The fields as characters.
pub open spec fn field_views(fields: Seq<(String, FieldValue)>) -> Seq<(Seq<char>, FieldValueView)> {
    fields.map_values(|field: (String, FieldValue)| (field.0@, field.1@))
}

/// The name of an import type.
pub open spec fn import_type_name(import_type: ImportType) -> Seq<char> {
    match import_type {
        ImportType::Static => "static"@,
        ImportType::Dynamic => "dynamic"@,
    }
}

/// The name of an import kind.
pub open spec fn import_kind_name(kind: ImportKind) -> Seq<char> {
    match kind {
        ImportKind::Import => "import"@,
        ImportKind::Export => "export"@,
        ImportKind::ExportAll => "export_all"@,
    }
}

impl ImportInfo {
    /// The mention as keys and values.
    pub fn encode(&self) -> (r: Vec<(String, FieldValue)>)
        ensures
            field_views(r@) == seq![
                ("specifier"@, FieldValueView::Text(self.specifier@)),
                ("type"@, FieldValueView::Atom(import_type_name(self.import_type))),
                ("kind"@, FieldValueView::Atom(import_kind_name(self.kind))),
                ("start"@, FieldValueView::Number(self.start)),
                ("end"@, FieldValueView::Number(self.end)),
            ],
            r@.len() == 5,
            r@[0].0@ == "specifier"@ && (r@[0].1 matches FieldValue::Text(text) && text@
                == self.specifier@),
            r@[1].0@ == "type"@ && (r@[1].1 matches FieldValue::Atom(name) && name@ == (
            if self.import_type == ImportType::Dynamic {
                "dynamic"@
            } else {
                "static"@
            })),
            r@[2].0@ == "kind"@ && (r@[2].1 matches FieldValue::Atom(name) && name@ == (
            if self.kind == ImportKind::ExportAll {
                "export_all"@
            } else if self.kind == ImportKind::Export {
                "export"@
            } else {
                "import"@
            })),
            r@[3].0@ == "start"@ && r@[3].1 == FieldValue::Number(self.start),
            r@[4].0@ == "end"@ && r@[4].1 == FieldValue::Number(self.end),
    {
        let import_type = match self.import_type {
            ImportType::Static => "static",
            ImportType::Dynamic => "dynamic",
        };
        let kind = match self.kind {
            ImportKind::Import => "import",
            ImportKind::Export => "export",
            ImportKind::ExportAll => "export_all",
        };
        let mut r: Vec<(String, FieldValue)> = Vec::new();
        r.push(("specifier".to_owned(), FieldValue::Text(self.specifier.clone())));
        r.push(("type".to_owned(), FieldValue::Atom(import_type.to_owned())));
        r.push(("kind".to_owned(), FieldValue::Atom(kind.to_owned())));
        r.push(("start".to_owned(), FieldValue::Number(self.start)));
        r.push(("end".to_owned(), FieldValue::Number(self.end)));
        assert(field_views(r@) == seq![
            ("specifier"@, FieldValueView::Text(self.specifier@)),
            ("type"@, FieldValueView::Atom(import_type_name(self.import_type))),
            ("kind"@, FieldValueView::Atom(import_kind_name(self.kind))),
            ("start"@, FieldValueView::Number(self.start)),
            ("end"@, FieldValueView::Number(self.end)),
        ]);
        r
    }
}

/// The mention that `literal` makes.
pub open spec fn mention(
    literal: Literal,
    import_type: ImportType,
    kind: ImportKind,
) -> ImportInfo {
    ImportInfo {
        specifier: literal.value,
        import_type,
        kind,
        start: literal.start,
        end: literal.end,
    }
}

/// The mentions in an expression, in source order.
pub open spec fn imports_of_expression(e: Expr) -> Seq<ImportInfo>
    decreases e,
{
    match e {
        Expr::Import(source) => match *source {
            Expr::StringLiteral(literal) => seq![
                mention(literal, ImportType::Dynamic, ImportKind::Import),
            ],
            _ => Seq::empty(),
        },
        Expr::Sequence(expressions) => imports_of_expressions(expressions@),
        Expr::Conditional { test, consequent, alternate } => imports_of_expression(*test)
            + imports_of_expression(*consequent) + imports_of_expression(*alternate),
        Expr::Call { callee, arguments } => imports_of_expression(*callee)
            + imports_of_arguments(arguments@),
        Expr::New { callee, arguments } => imports_of_expression(*callee)
            + imports_of_arguments(arguments@),
        Expr::Assignment(right) => imports_of_expression(*right),
        Expr::Await(argument) => imports_of_expression(*argument),
        Expr::Logical { left, right } => imports_of_expression(*left)
            + imports_of_expression(*right),
        Expr::Binary { left, right } => imports_of_expression(*left)
            + imports_of_expression(*right),
        Expr::Unary(argument) => imports_of_expression(*argument),
        Expr::Parenthesized(inner) => imports_of_expression(*inner),
        Expr::ArrowFunction(body) => imports_of_statements(body@),
        Expr::TaggedTemplate(tag) => imports_of_expression(*tag),
        Expr::ComputedMember { object, expression } => imports_of_expression(*object)
            + imports_of_expression(*expression),
        Expr::StaticMember(object) => imports_of_expression(*object),
        Expr::Object(properties) => imports_of_properties(properties@),
        Expr::Array(elements) => imports_of_elements(elements@),
        Expr::StringLiteral(_) | Expr::TemplateLiteral | Expr::Other =>
            Seq::empty(),
    }
}

/// The mentions in a list of expressions, in source order.
pub open spec fn imports_of_expressions(es: Seq<Expr>) -> Seq<ImportInfo>
    decreases es,
{
    if es.len() == 0 {
        Seq::empty()
    } else {
        imports_of_expressions(es.drop_last()) + imports_of_expression(es.last())
    }
}

/// The mentions in the arguments of a call; spread arguments are not searched.
pub open spec fn imports_of_arguments(arguments: Seq<CallArgument>) -> Seq<ImportInfo>
    decreases arguments,
{
    if arguments.len() == 0 {
        Seq::empty()
    } else {
        imports_of_arguments(arguments.drop_last()) + match arguments.last() {
            CallArgument::Expression(e) => imports_of_expression(e),
            CallArgument::Spread => Seq::empty(),
        }
    }
}

/// The mentions in the properties of an object.
pub open spec fn imports_of_properties(properties: Seq<Property>) -> Seq<ImportInfo>
    decreases properties,
{
    if properties.len() == 0 {
        Seq::empty()
    } else {
        imports_of_properties(properties.drop_last()) + match properties.last() {
            Property::Property(e) => imports_of_expression(e),
            Property::Spread(e) => imports_of_expression(e),
        }
    }
}

/// The mentions in the elements of an array.
pub open spec fn imports_of_elements(elements: Seq<Element>) -> Seq<ImportInfo>
    decreases elements,
{
    if elements.len() == 0 {
        Seq::empty()
    } else {
        imports_of_elements(elements.drop_last()) + match elements.last() {
            Element::Spread(e) => imports_of_expression(e),
            Element::Expression(e) => imports_of_expression(e),
            Element::Elision => Seq::empty(),
        }
    }
}

/// The mention that a declaration makes, unless it is there for the types alone.
pub open spec fn imports_of_item(item: ModuleItem) -> Seq<ImportInfo> {
    match item {
        ModuleItem::Import { kind: DeclarationKind::Value, source } => seq![
            mention(source, ImportType::Static, ImportKind::Import),
        ],
        ModuleItem::ExportNamed { kind: DeclarationKind::Value, source: Some(source) } => seq![
            mention(source, ImportType::Static, ImportKind::Export),
        ],
        ModuleItem::ExportAll { kind: DeclarationKind::Value, source } => seq![
            mention(source, ImportType::Static, ImportKind::ExportAll),
        ],
        _ => Seq::empty(),
    }
}

/// The mentions in an expression that may be missing.
pub open spec fn imports_of_optional_expression(e: Option<Expr>) -> Seq<ImportInfo>
    decreases e,
{
    match e {
        Some(e) => imports_of_expression(e),
        None => Seq::empty(),
    }
}

/// The mentions in the initial values of variables.
pub open spec fn imports_of_initials(es: Seq<Option<Expr>>) -> Seq<ImportInfo>
    decreases es,
{
    if es.len() == 0 {
        Seq::empty()
    } else {
        imports_of_initials(es.drop_last()) + imports_of_optional_expression(es.last())
    }
}

/// The mentions in a body that may be missing.
pub open spec fn imports_of_optional_body(body: Option<Vec<Stmt>>) -> Seq<ImportInfo>
    decreases body,
{
    match body {
        Some(statements) => imports_of_statements(statements@),
        None => Seq::empty(),
    }
}

/// The mentions in the cases of a switch.
pub open spec fn imports_of_cases(cases: Seq<Vec<Stmt>>) -> Seq<ImportInfo>
    decreases cases,
{
    if cases.len() == 0 {
        Seq::empty()
    } else {
        imports_of_cases(cases.drop_last()) + imports_of_statements(cases.last()@)
    }
}

/// The mentions in a statement, in source order.
pub open spec fn imports_of_statement(s: Stmt) -> Seq<ImportInfo>
    decreases s,
{
    match s {
        Stmt::Item(item) => imports_of_item(item),
        Stmt::Expression(e) => imports_of_expression(e),
        Stmt::VariableDeclaration(initials) => imports_of_initials(initials@),
        Stmt::Return(argument) => imports_of_optional_expression(argument),
        Stmt::If { consequent, alternate } => imports_of_statement(*consequent)
            + match alternate {
            Some(alternate) => imports_of_statement(*alternate),
            None => Seq::empty(),
        },
        Stmt::Block(body) => imports_of_statements(body@),
        Stmt::Function(body) => imports_of_optional_body(body),
        Stmt::Switch(cases) => imports_of_cases(cases@),
        Stmt::Try { block, handler, finalizer } => imports_of_statements(block@)
            + imports_of_optional_body(handler) + imports_of_optional_body(finalizer),
        Stmt::For(body) => imports_of_statement(*body),
        Stmt::ForIn(body) => imports_of_statement(*body),
        Stmt::ForOf(body) => imports_of_statement(*body),
        Stmt::While(body) => imports_of_statement(*body),
        Stmt::ExportDefaultFunction(body) => imports_of_optional_body(body),
    }
}

/// The mentions in a list of statements, in source order.
pub open spec fn imports_of_statements(ss: Seq<Stmt>) -> Seq<ImportInfo>
    decreases ss,
{
    if ss.len() == 0 {
        Seq::empty()
    } else {
        imports_of_statements(ss.drop_last()) + imports_of_statement(ss.last())
    }
}

fn report(
    literal: &Literal,
    import_type: ImportType,
    kind: ImportKind,
    results: &mut Vec<ImportInfo>,
)
    ensures
        final(results)@ == old(results)@.push(mention(*literal, import_type, kind)),
{
    results.push(
        ImportInfo {
            specifier: literal.value.clone(),
            import_type,
            kind,
            start: literal.start,
            end: literal.end,
        },
    );
}

fn collect_imports_from_expressions(expressions: &Vec<Expr>, results: &mut Vec<ImportInfo>)
    ensures
        final(results)@ == old(results)@ + imports_of_expressions(expressions@),
    decreases expressions@,
{
    let ghost all = expressions@;
    for i in 0..expressions.len()
        invariant
            all == expressions@,
            results@ == old(results)@ + imports_of_expressions(all.take(i as int)),
        decreases expressions.len() - i,
    {
        assert(all.take(i + 1).drop_last() == all.take(i as int));
        collect_imports_from_expression(&expressions[i], results);
    }
    assert(all.take(all.len() as int) == all);
}

fn collect_imports_from_arguments(arguments: &Vec<CallArgument>, results: &mut Vec<ImportInfo>)
    ensures
        final(results)@ == old(results)@ + imports_of_arguments(arguments@),
    decreases arguments@,
{
    let ghost all = arguments@;
    for i in 0..arguments.len()
        invariant
            all == arguments@,
            results@ == old(results)@ + imports_of_arguments(all.take(i as int)),
        decreases arguments.len() - i,
    {
        assert(all.take(i + 1).drop_last() == all.take(i as int));
        if let CallArgument::Expression(e) = &arguments[i] {
            collect_imports_from_expression(e, results);
        }
    }
    assert(all.take(all.len() as int) == all);
}

fn collect_imports_from_properties(properties: &Vec<Property>, results: &mut Vec<ImportInfo>)
    ensures
        final(results)@ == old(results)@ + imports_of_properties(properties@),
    decreases properties@,
{
    let ghost all = properties@;
    for i in 0..properties.len()
        invariant
            all == properties@,
            results@ == old(results)@ + imports_of_properties(all.take(i as int)),
        decreases properties.len() - i,
    {
        assert(all.take(i + 1).drop_last() == all.take(i as int));
        match &properties[i] {
            Property::Property(value) => collect_imports_from_expression(value, results),
            Property::Spread(argument) => collect_imports_from_expression(argument, results),
        }
    }
    assert(all.take(all.len() as int) == all);
}

fn collect_imports_from_elements(elements: &Vec<Element>, results: &mut Vec<ImportInfo>)
    ensures
        final(results)@ == old(results)@ + imports_of_elements(elements@),
    decreases elements@,
{
    let ghost all = elements@;
    for i in 0..elements.len()
        invariant
            all == elements@,
            results@ == old(results)@ + imports_of_elements(all.take(i as int)),
        decreases elements.len() - i,
    {
        assert(all.take(i + 1).drop_last() == all.take(i as int));
        match &elements[i] {
            Element::Spread(argument) => collect_imports_from_expression(argument, results),
            Element::Expression(e) => collect_imports_from_expression(e, results),
            Element::Elision => {},
        }
    }
    assert(all.take(all.len() as int) == all);
}

/// Appends the mentions in `expr` to `results`, in source order.
pub fn collect_imports_from_expression(expr: &Expr, results: &mut Vec<ImportInfo>)
    ensures
        final(results)@ == old(results)@ + imports_of_expression(*expr),
    decreases *expr,
{
    match expr {
        Expr::Import(source) => {
            if let Expr::StringLiteral(literal) = &**source {
                report(literal, ImportType::Dynamic, ImportKind::Import, results);
            }
        },
        Expr::Sequence(expressions) => {
            collect_imports_from_expressions(expressions, results);
        },
        Expr::Conditional { test, consequent, alternate } => {
            collect_imports_from_expression(test, results);
            collect_imports_from_expression(consequent, results);
            collect_imports_from_expression(alternate, results);
        },
        Expr::Call { callee, arguments } => {
            collect_imports_from_expression(callee, results);
            collect_imports_from_arguments(arguments, results);
        },
        Expr::New { callee, arguments } => {
            collect_imports_from_expression(callee, results);
            collect_imports_from_arguments(arguments, results);
        },
        Expr::Assignment(right) => {
            collect_imports_from_expression(right, results);
        },
        Expr::Await(argument) => {
            collect_imports_from_expression(argument, results);
        },
        Expr::Logical { left, right } => {
            collect_imports_from_expression(left, results);
            collect_imports_from_expression(right, results);
        },
        Expr::Binary { left, right } => {
            collect_imports_from_expression(left, results);
            collect_imports_from_expression(right, results);
        },
        Expr::Unary(argument) => {
            collect_imports_from_expression(argument, results);
        },
        Expr::Parenthesized(inner) => {
            collect_imports_from_expression(inner, results);
        },
        Expr::ArrowFunction(body) => {
            collect_imports_from_statements(body, results);
        },
        Expr::TaggedTemplate(tag) => {
            collect_imports_from_expression(tag, results);
        },
        Expr::ComputedMember { object, expression } => {
            collect_imports_from_expression(object, results);
            collect_imports_from_expression(expression, results);
        },
        Expr::StaticMember(object) => {
            collect_imports_from_expression(object, results);
        },
        Expr::Object(properties) => {
            collect_imports_from_properties(properties, results);
        },
        Expr::Array(elements) => {
            collect_imports_from_elements(elements, results);
        },
        Expr::StringLiteral(_) | Expr::TemplateLiteral | Expr::Other => {},
    }
}

fn collect_imports_from_item(item: &ModuleItem, results: &mut Vec<ImportInfo>)
    ensures
        final(results)@ == old(results)@ + imports_of_item(*item),
{
    match item {
        ModuleItem::Import { kind, source } => {
            if *kind != DeclarationKind::Type {
                report(source, ImportType::Static, ImportKind::Import, results);
            }
        },
        ModuleItem::ExportNamed { kind, source } => {
            if *kind != DeclarationKind::Type {
                if let Some(source) = source {
                    report(source, ImportType::Static, ImportKind::Export, results);
                }
            }
        },
        ModuleItem::ExportAll { kind, source } => {
            if *kind != DeclarationKind::Type {
                report(source, ImportType::Static, ImportKind::ExportAll, results);
            }
        },
        ModuleItem::Other => {},
    }
}

fn collect_imports_from_optional(expr: &Option<Expr>, results: &mut Vec<ImportInfo>)
    ensures
        final(results)@ == old(results)@ + imports_of_optional_expression(*expr),
    decreases *expr,
{
    if let Some(e) = expr {
        collect_imports_from_expression(e, results);
    }
}

fn collect_imports_from_initials(initials: &Vec<Option<Expr>>, results: &mut Vec<ImportInfo>)
    ensures
        final(results)@ == old(results)@ + imports_of_initials(initials@),
    decreases initials@,
{
    let ghost all = initials@;
    for i in 0..initials.len()
        invariant
            all == initials@,
            results@ == old(results)@ + imports_of_initials(all.take(i as int)),
        decreases initials.len() - i,
    {
        assert(all.take(i + 1).drop_last() == all.take(i as int));
        collect_imports_from_optional(&initials[i], results);
    }
    assert(all.take(all.len() as int) == all);
}

fn collect_imports_from_cases(cases: &Vec<Vec<Stmt>>, results: &mut Vec<ImportInfo>)
    ensures
        final(results)@ == old(results)@ + imports_of_cases(cases@),
    decreases cases@,
{
    let ghost all = cases@;
    for i in 0..cases.len()
        invariant
            all == cases@,
            results@ == old(results)@ + imports_of_cases(all.take(i as int)),
        decreases cases.len() - i,
    {
        assert(all.take(i + 1).drop_last() == all.take(i as int));
        collect_imports_from_statements(&cases[i], results);
    }
    assert(all.take(all.len() as int) == all);
}

fn collect_imports_from_body(body: &Option<Vec<Stmt>>, results: &mut Vec<ImportInfo>)
    ensures
        final(results)@ == old(results)@ + imports_of_optional_body(*body),
    decreases *body,
{
    if let Some(statements) = body {
        collect_imports_from_statements(statements, results);
    }
}

/// Appends the mentions in `stmt` to `results`, in source order.
pub fn collect_imports_from_statement(stmt: &Stmt, results: &mut Vec<ImportInfo>)
    ensures
        final(results)@ == old(results)@ + imports_of_statement(*stmt),
    decreases *stmt,
{
    match stmt {
        Stmt::Item(item) => {
            collect_imports_from_item(item, results);
        },
        Stmt::Expression(e) => {
            collect_imports_from_expression(e, results);
        },
        Stmt::VariableDeclaration(initials) => {
            collect_imports_from_initials(initials, results);
        },
        Stmt::Return(argument) => {
            collect_imports_from_optional(argument, results);
        },
        Stmt::If { consequent, alternate } => {
            collect_imports_from_statement(consequent, results);
            if let Some(alternate) = alternate {
                collect_imports_from_statement(alternate, results);
            }
        },
        Stmt::Block(body) => {
            collect_imports_from_statements(body, results);
        },
        Stmt::Function(body) => {
            collect_imports_from_body(body, results);
        },
        Stmt::Switch(cases) => {
            collect_imports_from_cases(cases, results);
        },
        Stmt::Try { block, handler, finalizer } => {
            collect_imports_from_statements(block, results);
            collect_imports_from_body(handler, results);
            collect_imports_from_body(finalizer, results);
        },
        Stmt::For(body) => {
            collect_imports_from_statement(body, results);
        },
        Stmt::ForIn(body) => {
            collect_imports_from_statement(body, results);
        },
        Stmt::ForOf(body) => {
            collect_imports_from_statement(body, results);
        },
        Stmt::While(body) => {
            collect_imports_from_statement(body, results);
        },
        Stmt::ExportDefaultFunction(body) => {
            collect_imports_from_body(body, results);
        },
    }
}

/// Appends the mentions in `stmts` to `results`, in source order.
pub fn collect_imports_from_statements(stmts: &Vec<Stmt>, results: &mut Vec<ImportInfo>)
    ensures
        final(results)@ == old(results)@ + imports_of_statements(stmts@),
    decreases stmts@,
{
    let ghost all = stmts@;
    for i in 0..stmts.len()
        invariant
            all == stmts@,
            results@ == old(results)@ + imports_of_statements(all.take(i as int)),
        decreases stmts.len() - i,
    {
        assert(all.take(i + 1).drop_last() == all.take(i as int));
        collect_imports_from_statement(&stmts[i], results);
    }
    assert(all.take(all.len() as int) == all);
}

/// The mentions in two lists of statements, one behind the other, are those in the first followed
/// by those in the second.
pub proof fn law_mentions_follow_source_order(a: Seq<Stmt>, b: Seq<Stmt>)
    ensures
        imports_of_statements(a + b) == imports_of_statements(a) + imports_of_statements(b),
    decreases b.len(),
{
    if b.len() == 0 {
        assert(a + b == a);
        assert(imports_of_statements(a + b) == imports_of_statements(a) + imports_of_statements(b));
    } else {
        assert((a + b).drop_last() == a + b.drop_last());
        assert((a + b).last() == b.last());
        law_mentions_follow_source_order(a, b.drop_last());
        assert(imports_of_statements(a + b) == imports_of_statements(a) + imports_of_statements(b));
    }
}

/// A declaration that is there for the types alone mentions nothing.
pub proof fn law_types_are_not_mentioned(item: ModuleItem)
    requires
        match item {
            ModuleItem::Import { kind, .. } => kind == DeclarationKind::Type,
            ModuleItem::ExportNamed { kind, .. } => kind == DeclarationKind::Type,
            ModuleItem::ExportAll { kind, .. } => kind == DeclarationKind::Type,
            ModuleItem::Other => true,
        },
    ensures
        imports_of_statement(Stmt::Item(item)) == Seq::<ImportInfo>::empty(),
{
}

/// Whether every mention by an `import()` call is of the kind `Import`.
pub open spec fn dynamic_are_imports(infos: Seq<ImportInfo>) -> bool {
    forall|i: int|
        0 <= i < infos.len() && (#[trigger] infos[i]).import_type == ImportType::Dynamic
            ==> infos[i].kind == ImportKind::Import
}

proof fn lemma_kinds_in_expression(e: Expr)
    ensures
        dynamic_are_imports(imports_of_expression(e)),
    decreases e,
{
    match e {
        Expr::Sequence(expressions) => lemma_kinds_in_expressions(expressions@),
        Expr::Conditional { test, consequent, alternate } => {
            lemma_kinds_in_expression(*test);
            lemma_kinds_in_expression(*consequent);
            lemma_kinds_in_expression(*alternate);
        },
        Expr::Call { callee, arguments } => {
            lemma_kinds_in_expression(*callee);
            lemma_kinds_in_arguments(arguments@);
        },
        Expr::New { callee, arguments } => {
            lemma_kinds_in_expression(*callee);
            lemma_kinds_in_arguments(arguments@);
        },
        Expr::Assignment(right) => lemma_kinds_in_expression(*right),
        Expr::Await(argument) => lemma_kinds_in_expression(*argument),
        Expr::Logical { left, right } => {
            lemma_kinds_in_expression(*left);
            lemma_kinds_in_expression(*right);
        },
        Expr::Binary { left, right } => {
            lemma_kinds_in_expression(*left);
            lemma_kinds_in_expression(*right);
        },
        Expr::Unary(argument) => lemma_kinds_in_expression(*argument),
        Expr::Parenthesized(inner) => lemma_kinds_in_expression(*inner),
        Expr::ArrowFunction(body) => law_dynamic_mentions_are_imports(body@),
        Expr::TaggedTemplate(tag) => lemma_kinds_in_expression(*tag),
        Expr::ComputedMember { object, expression } => {
            lemma_kinds_in_expression(*object);
            lemma_kinds_in_expression(*expression);
        },
        Expr::StaticMember(object) => lemma_kinds_in_expression(*object),
        Expr::Object(properties) => lemma_kinds_in_properties(properties@),
        Expr::Array(elements) => lemma_kinds_in_elements(elements@),
        _ => {},
    }
}

proof fn lemma_kinds_in_expressions(list: Seq<Expr>)
    ensures
        dynamic_are_imports(imports_of_expressions(list)),
    decreases list,
{
    if list.len() > 0 {
        lemma_kinds_in_expressions(list.drop_last());
        lemma_kinds_in_expression(list.last());
    }
}

proof fn lemma_kinds_in_arguments(list: Seq<CallArgument>)
    ensures
        dynamic_are_imports(imports_of_arguments(list)),
    decreases list,
{
    if list.len() > 0 {
        lemma_kinds_in_arguments(list.drop_last());
        if let CallArgument::Expression(e) = list.last() {
            lemma_kinds_in_expression(e);
        }
    }
}

proof fn lemma_kinds_in_properties(list: Seq<Property>)
    ensures
        dynamic_are_imports(imports_of_properties(list)),
    decreases list,
{
    if list.len() > 0 {
        lemma_kinds_in_properties(list.drop_last());
        match list.last() {
            Property::Property(e) => lemma_kinds_in_expression(e),
            Property::Spread(e) => lemma_kinds_in_expression(e),
        }
    }
}

proof fn lemma_kinds_in_elements(list: Seq<Element>)
    ensures
        dynamic_are_imports(imports_of_elements(list)),
    decreases list,
{
    if list.len() > 0 {
        lemma_kinds_in_elements(list.drop_last());
        match list.last() {
            Element::Spread(e) => lemma_kinds_in_expression(e),
            Element::Expression(e) => lemma_kinds_in_expression(e),
            Element::Elision => {},
        }
    }
}

proof fn lemma_kinds_in_optional(e: Option<Expr>)
    ensures
        dynamic_are_imports(imports_of_optional_expression(e)),
    decreases e,
{
    if let Some(e) = e {
        lemma_kinds_in_expression(e);
    }
}

proof fn lemma_kinds_in_initials(list: Seq<Option<Expr>>)
    ensures
        dynamic_are_imports(imports_of_initials(list)),
    decreases list,
{
    if list.len() > 0 {
        lemma_kinds_in_initials(list.drop_last());
        lemma_kinds_in_optional(list.last());
    }
}

proof fn lemma_kinds_in_body(body: Option<Vec<Stmt>>)
    ensures
        dynamic_are_imports(imports_of_optional_body(body)),
    decreases body,
{
    if let Some(statements) = body {
        law_dynamic_mentions_are_imports(statements@);
    }
}

proof fn lemma_kinds_in_cases(list: Seq<Vec<Stmt>>)
    ensures
        dynamic_are_imports(imports_of_cases(list)),
    decreases list,
{
    if list.len() > 0 {
        lemma_kinds_in_cases(list.drop_last());
        law_dynamic_mentions_are_imports(list.last()@);
    }
}

proof fn lemma_kinds_in_statement(s: Stmt)
    ensures
        dynamic_are_imports(imports_of_statement(s)),
    decreases s,
{
    match s {
        Stmt::Item(_) => {},
        Stmt::Expression(e) => lemma_kinds_in_expression(e),
        Stmt::VariableDeclaration(initials) => lemma_kinds_in_initials(initials@),
        Stmt::Return(argument) => lemma_kinds_in_optional(argument),
        Stmt::If { consequent, alternate } => {
            lemma_kinds_in_statement(*consequent);
            if let Some(alternate) = alternate {
                lemma_kinds_in_statement(*alternate);
            }
        },
        Stmt::Block(body) => law_dynamic_mentions_are_imports(body@),
        Stmt::Function(body) => lemma_kinds_in_body(body),
        Stmt::Switch(cases) => lemma_kinds_in_cases(cases@),
        Stmt::Try { block, handler, finalizer } => {
            law_dynamic_mentions_are_imports(block@);
            lemma_kinds_in_body(handler);
            lemma_kinds_in_body(finalizer);
        },
        Stmt::For(body) => lemma_kinds_in_statement(*body),
        Stmt::ForIn(body) => lemma_kinds_in_statement(*body),
        Stmt::ForOf(body) => lemma_kinds_in_statement(*body),
        Stmt::While(body) => lemma_kinds_in_statement(*body),
        Stmt::ExportDefaultFunction(body) => lemma_kinds_in_body(body),
    }
}

/// What an `import()` call mentions is an import: only a declaration can re-export.
pub proof fn law_dynamic_mentions_are_imports(stmts: Seq<Stmt>)
    ensures
        dynamic_are_imports(imports_of_statements(stmts)),
    decreases stmts,
{
    if stmts.len() > 0 {
        law_dynamic_mentions_are_imports(stmts.drop_last());
        lemma_kinds_in_statement(stmts.last());
    }
}

/// Whether a mention tells of a literal: the text, and where it stands.
pub open spec fn tells_of(info: ImportInfo, literal: Literal) -> bool {
    info.specifier@ == literal.value@ && info.start == literal.start && info.end == literal.end
}

/// An `import()` of a string literal is one mention; one of anything else is none.
pub proof fn law_import_calls_are_mentioned(source: Box<Expr>)
    ensures
        match *source {
            Expr::StringLiteral(literal) => {
                let infos = imports_of_expression(Expr::Import(source));
                &&& infos.len() == 1
                &&& tells_of(infos[0], literal)
                &&& infos[0].import_type == ImportType::Dynamic
                &&& infos[0].kind == ImportKind::Import
            },
            _ => imports_of_expression(Expr::Import(source)).len() == 0,
        },
{
}

/// A declaration that names a module is one mention, of its kind; an export that names none is no
/// mention.
pub proof fn law_declarations_are_mentions(source: Literal)
    ensures
        ({
            let item = ModuleItem::Import { kind: DeclarationKind::Value, source };
            let infos = imports_of_statement(Stmt::Item(item));
            &&& infos.len() == 1
            &&& tells_of(infos[0], source)
            &&& infos[0].import_type == ImportType::Static
            &&& infos[0].kind == ImportKind::Import
        }),
        ({
            let item = ModuleItem::ExportAll { kind: DeclarationKind::Value, source };
            let infos = imports_of_statement(Stmt::Item(item));
            &&& infos.len() == 1
            &&& tells_of(infos[0], source)
            &&& infos[0].import_type == ImportType::Static
            &&& infos[0].kind == ImportKind::ExportAll
        }),
        ({
            let item = ModuleItem::ExportNamed {
                kind: DeclarationKind::Value,
                source: Some(source),
            };
            let infos = imports_of_statement(Stmt::Item(item));
            &&& infos.len() == 1
            &&& tells_of(infos[0], source)
            &&& infos[0].import_type == ImportType::Static
            &&& infos[0].kind == ImportKind::Export
        }),
        forall|kind: DeclarationKind|
            (#[trigger] imports_of_statement(
                Stmt::Item(ModuleItem::ExportNamed { kind, source: None }),
            )).len() == 0,
{
}

/// Whatever the operands are, the mentions in an expression are those in its operands, from left to
/// right.
pub proof fn law_operands_are_searched(a: Box<Expr>, b: Box<Expr>, c: Box<Expr>)
    ensures
        ({
            let one = imports_of_expression(*a);
            &&& imports_of_expression(Expr::Assignment(a)) == one
            &&& imports_of_expression(Expr::Await(a)) == one
            &&& imports_of_expression(Expr::Unary(a)) == one
            &&& imports_of_expression(Expr::Parenthesized(a)) == one
            &&& imports_of_expression(Expr::TaggedTemplate(a)) == one
            &&& imports_of_expression(Expr::StaticMember(a)) == one
        }),
        ({
            let two = imports_of_expression(*a) + imports_of_expression(*b);
            &&& imports_of_expression(Expr::Logical { left: a, right: b }) == two
            &&& imports_of_expression(Expr::Binary { left: a, right: b }) == two
            &&& imports_of_expression(Expr::ComputedMember { object: a, expression: b }) == two
        }),
        imports_of_expression(Expr::Conditional { test: a, consequent: b, alternate: c })
            == imports_of_expression(*a) + imports_of_expression(*b) + imports_of_expression(*c),
        imports_of_expression(Expr::TemplateLiteral).len() == 0,
        imports_of_expression(Expr::Other).len() == 0,
        forall|literal: Literal|
            (#[trigger] imports_of_expression(Expr::StringLiteral(literal))).len() == 0,
{
}

/// Whatever the callee is, the mentions in a call are those in the callee, followed by those in the
/// arguments; so are those in a `new`.
pub proof fn law_callees_are_searched(callee: Box<Expr>, arguments: Vec<CallArgument>)
    ensures
        imports_of_expression(Expr::Call { callee, arguments }) == imports_of_expression(*callee)
            + imports_of_arguments(arguments@),
        imports_of_expression(Expr::New { callee, arguments }) == imports_of_expression(*callee)
            + imports_of_arguments(arguments@),
{
}

/// The mentions in arguments are those in each of them that is not spread, in their order.
pub proof fn law_arguments_are_searched(a: Seq<CallArgument>, b: Seq<CallArgument>, e: Expr)
    ensures
        imports_of_arguments(a + b) == imports_of_arguments(a) + imports_of_arguments(b),
        imports_of_arguments(seq![CallArgument::Expression(e)]) == imports_of_expression(e),
        imports_of_arguments(seq![CallArgument::Spread]).len() == 0,
        imports_of_arguments(Seq::empty()).len() == 0,
    decreases b.len(),
{
    let single = seq![CallArgument::Expression(e)];
    assert(single.drop_last() == Seq::<CallArgument>::empty());
    assert(seq![CallArgument::Spread].drop_last() == Seq::<CallArgument>::empty());
    reveal_with_fuel(imports_of_arguments, 2);
    assert(imports_of_arguments(single) == imports_of_expression(e));
    if b.len() == 0 {
        assert(a + b == a);
        assert(imports_of_arguments(a + b) == imports_of_arguments(a) + imports_of_arguments(b));
    } else {
        assert((a + b).drop_last() == a + b.drop_last());
        law_arguments_are_searched(a, b.drop_last(), e);
        assert(imports_of_arguments(a + b) == imports_of_arguments(a) + imports_of_arguments(b));
    }
}

/// The mentions in a list of expressions are those in each of them, in their order.
pub proof fn law_expressions_are_searched(a: Seq<Expr>, b: Seq<Expr>, e: Expr)
    ensures
        imports_of_expressions(a + b) == imports_of_expressions(a) + imports_of_expressions(b),
        imports_of_expressions(seq![e]) == imports_of_expression(e),
        imports_of_expressions(Seq::empty()).len() == 0,
        forall|list: Vec<Expr>|
            list@ == a ==> #[trigger] imports_of_expression(Expr::Sequence(list))
                == imports_of_expressions(a),
    decreases b.len(),
{
    assert(seq![e].drop_last() == Seq::<Expr>::empty());
    reveal_with_fuel(imports_of_expressions, 2);
    assert(imports_of_expressions(seq![e]) == imports_of_expression(e));
    if b.len() == 0 {
        assert(a + b == a);
        assert(imports_of_expressions(a + b) == imports_of_expressions(a) + imports_of_expressions(
            b,
        ));
    } else {
        assert((a + b).drop_last() == a + b.drop_last());
        law_expressions_are_searched(a, b.drop_last(), e);
        assert(imports_of_expressions(a + b) == imports_of_expressions(a) + imports_of_expressions(
            b,
        ));
    }
}

/// The mentions in an object are those in the value of each property and in what is spread, in their
/// order.
pub proof fn law_properties_are_searched(a: Seq<Property>, b: Seq<Property>, e: Expr)
    ensures
        imports_of_properties(a + b) == imports_of_properties(a) + imports_of_properties(b),
        imports_of_properties(seq![Property::Property(e)]) == imports_of_expression(e),
        imports_of_properties(seq![Property::Spread(e)]) == imports_of_expression(e),
        imports_of_properties(Seq::empty()).len() == 0,
        forall|list: Vec<Property>|
            list@ == a ==> #[trigger] imports_of_expression(Expr::Object(list))
                == imports_of_properties(a),
    decreases b.len(),
{
    assert(seq![Property::Property(e)].drop_last() == Seq::<Property>::empty());
    assert(seq![Property::Spread(e)].drop_last() == Seq::<Property>::empty());
    reveal_with_fuel(imports_of_properties, 2);
    assert(imports_of_properties(seq![Property::Property(e)]) == imports_of_expression(e));
    assert(imports_of_properties(seq![Property::Spread(e)]) == imports_of_expression(e));
    if b.len() == 0 {
        assert(a + b == a);
        assert(imports_of_properties(a + b) == imports_of_properties(a) + imports_of_properties(b));
    } else {
        assert((a + b).drop_last() == a + b.drop_last());
        law_properties_are_searched(a, b.drop_last(), e);
        assert(imports_of_properties(a + b) == imports_of_properties(a) + imports_of_properties(b));
    }
}

/// The mentions in an array are those in each element and in what is spread, in their order.
pub proof fn law_elements_are_searched(a: Seq<Element>, b: Seq<Element>, e: Expr)
    ensures
        imports_of_elements(a + b) == imports_of_elements(a) + imports_of_elements(b),
        imports_of_elements(seq![Element::Expression(e)]) == imports_of_expression(e),
        imports_of_elements(seq![Element::Spread(e)]) == imports_of_expression(e),
        imports_of_elements(seq![Element::Elision]).len() == 0,
        imports_of_elements(Seq::empty()).len() == 0,
        forall|list: Vec<Element>|
            list@ == a ==> #[trigger] imports_of_expression(Expr::Array(list))
                == imports_of_elements(a),
    decreases b.len(),
{
    assert(seq![Element::Expression(e)].drop_last() == Seq::<Element>::empty());
    assert(seq![Element::Spread(e)].drop_last() == Seq::<Element>::empty());
    assert(seq![Element::Elision].drop_last() == Seq::<Element>::empty());
    reveal_with_fuel(imports_of_elements, 2);
    assert(imports_of_elements(seq![Element::Expression(e)]) == imports_of_expression(e));
    assert(imports_of_elements(seq![Element::Spread(e)]) == imports_of_expression(e));
    if b.len() == 0 {
        assert(a + b == a);
        assert(imports_of_elements(a + b) == imports_of_elements(a) + imports_of_elements(b));
    } else {
        assert((a + b).drop_last() == a + b.drop_last());
        law_elements_are_searched(a, b.drop_last(), e);
        assert(imports_of_elements(a + b) == imports_of_elements(a) + imports_of_elements(b));
    }
}

/// The mentions in a declaration of variables are those in each initial value, in their order.
pub proof fn law_initials_are_searched(a: Seq<Option<Expr>>, b: Seq<Option<Expr>>, e: Expr)
    ensures
        imports_of_initials(a + b) == imports_of_initials(a) + imports_of_initials(b),
        imports_of_initials(seq![Some(e)]) == imports_of_expression(e),
        imports_of_initials(seq![None]).len() == 0,
        imports_of_initials(Seq::empty()).len() == 0,
        forall|list: Vec<Option<Expr>>|
            list@ == a ==> #[trigger] imports_of_statement(Stmt::VariableDeclaration(list))
                == imports_of_initials(a),
    decreases b.len(),
{
    assert(seq![Some(e)].drop_last() == Seq::<Option<Expr>>::empty());
    assert(seq![None::<Expr>].drop_last() == Seq::<Option<Expr>>::empty());
    reveal_with_fuel(imports_of_initials, 2);
    assert(imports_of_initials(seq![Some(e)]) == imports_of_expression(e));
    if b.len() == 0 {
        assert(a + b == a);
        assert(imports_of_initials(a + b) == imports_of_initials(a) + imports_of_initials(b));
    } else {
        assert((a + b).drop_last() == a + b.drop_last());
        law_initials_are_searched(a, b.drop_last(), e);
        assert(imports_of_initials(a + b) == imports_of_initials(a) + imports_of_initials(b));
    }
}

/// The mentions in a switch are those in each case, in their order.
pub proof fn law_cases_are_searched(a: Seq<Vec<Stmt>>, b: Seq<Vec<Stmt>>, body: Vec<Stmt>)
    ensures
        imports_of_cases(a + b) == imports_of_cases(a) + imports_of_cases(b),
        imports_of_cases(seq![body]) == imports_of_statements(body@),
        imports_of_cases(Seq::empty()).len() == 0,
        forall|list: Vec<Vec<Stmt>>|
            list@ == a ==> #[trigger] imports_of_statement(Stmt::Switch(list)) == imports_of_cases(a),
    decreases b.len(),
{
    assert(seq![body].drop_last() == Seq::<Vec<Stmt>>::empty());
    reveal_with_fuel(imports_of_cases, 2);
    assert(imports_of_cases(seq![body]) == imports_of_statements(body@));
    if b.len() == 0 {
        assert(a + b == a);
        assert(imports_of_cases(a + b) == imports_of_cases(a) + imports_of_cases(b));
    } else {
        assert((a + b).drop_last() == a + b.drop_last());
        law_cases_are_searched(a, b.drop_last(), body);
        assert(imports_of_cases(a + b) == imports_of_cases(a) + imports_of_cases(b));
    }
}

/// Whatever the parts are, the mentions in a statement are those in its parts, in source order.
pub proof fn law_statements_are_searched(
    e: Expr,
    s: Box<Stmt>,
    t: Box<Stmt>,
    body: Vec<Stmt>,
    handler: Option<Vec<Stmt>>,
    finalizer: Option<Vec<Stmt>>,
)
    ensures
        imports_of_statements(seq![*s]) == imports_of_statement(*s),
        imports_of_statements(Seq::empty()).len() == 0,
        imports_of_statement(Stmt::Expression(e)) == imports_of_expression(e),
        imports_of_statement(Stmt::Return(Some(e))) == imports_of_expression(e),
        imports_of_statement(Stmt::Return(None)).len() == 0,
        imports_of_statement(Stmt::If { consequent: s, alternate: Some(t) })
            == imports_of_statement(*s) + imports_of_statement(*t),
        imports_of_statement(Stmt::If { consequent: s, alternate: None })
            == imports_of_statement(*s),
        imports_of_statement(Stmt::For(s)) == imports_of_statement(*s),
        imports_of_statement(Stmt::ForIn(s)) == imports_of_statement(*s),
        imports_of_statement(Stmt::ForOf(s)) == imports_of_statement(*s),
        imports_of_statement(Stmt::While(s)) == imports_of_statement(*s),
        imports_of_statement(Stmt::Block(body)) == imports_of_statements(body@),
        imports_of_statement(Stmt::Function(Some(body))) == imports_of_statements(body@),
        imports_of_statement(Stmt::Function(None)).len() == 0,
        imports_of_statement(Stmt::ExportDefaultFunction(Some(body))) == imports_of_statements(
            body@,
        ),
        imports_of_statement(Stmt::ExportDefaultFunction(None)).len() == 0,
        imports_of_expression(Expr::ArrowFunction(body)) == imports_of_statements(body@),
        imports_of_statement(Stmt::Try { block: body, handler, finalizer })
            == imports_of_statements(body@) + (match handler {
            Some(statements) => imports_of_statements(statements@),
            None => Seq::empty(),
        }) + (match finalizer {
            Some(statements) => imports_of_statements(statements@),
            None => Seq::empty(),
        }),
        imports_of_statement(Stmt::Item(ModuleItem::Other)).len() == 0,
{
    assert(seq![*s].drop_last() == Seq::<Stmt>::empty());
    reveal_with_fuel(imports_of_statements, 2);
    assert(imports_of_statements(seq![*s]) == imports_of_statement(*s));
    assert(imports_of_statement(*s) + Seq::<ImportInfo>::empty() == imports_of_statement(*s));
    reveal_with_fuel(imports_of_statement, 2);
}

/// A node of the syntax tree.
pub enum Node {
    Expression(Expr),
    Statement(Stmt),
}

/// The mentions at and below a node.
pub open spec fn imports_of_node(node: Node) -> Seq<ImportInfo> {
    match node {
        Node::Expression(e) => imports_of_expression(e),
        Node::Statement(s) => imports_of_statement(s),
    }
}

/// Whether an expression stands in another as a part in which specifiers are looked for.
pub open spec fn is_operand(whole: Expr, part: Expr) -> bool {
    match whole {
        Expr::Sequence(list) => list@.contains(part),
        Expr::Conditional { test, consequent, alternate } => part == *test || part == *consequent
            || part == *alternate,
        Expr::Call { callee, arguments } => part == *callee || arguments@.contains(
            CallArgument::Expression(part),
        ),
        Expr::New { callee, arguments } => part == *callee || arguments@.contains(
            CallArgument::Expression(part),
        ),
        Expr::Assignment(operand) => part == *operand,
        Expr::Await(operand) => part == *operand,
        Expr::Unary(operand) => part == *operand,
        Expr::Parenthesized(operand) => part == *operand,
        Expr::TaggedTemplate(operand) => part == *operand,
        Expr::StaticMember(operand) => part == *operand,
        Expr::Logical { left, right } => part == *left || part == *right,
        Expr::Binary { left, right } => part == *left || part == *right,
        Expr::ComputedMember { object, expression } => part == *object || part == *expression,
        Expr::Object(list) => list@.contains(Property::Property(part)) || list@.contains(
            Property::Spread(part),
        ),
        Expr::Array(list) => list@.contains(Element::Expression(part)) || list@.contains(
            Element::Spread(part),
        ),
        _ => false,
    }
}

/// Whether statements stand in a node, as the body of something.
pub open spec fn is_body(whole: Node, body: Seq<Stmt>) -> bool {
    match whole {
        Node::Expression(e) => e matches Expr::ArrowFunction(list) && body == list@,
        Node::Statement(s) => match s {
            Stmt::Block(list) => body == list@,
            Stmt::Function(list) => list matches Some(list) && body == list@,
            Stmt::ExportDefaultFunction(list) => list matches Some(list) && body == list@,
            Stmt::Switch(cases) => exists|i: int|
                0 <= i < cases@.len() && body == (#[trigger] cases@[i])@,
            Stmt::Try { block, handler, finalizer } => {
                ||| body == block@
                ||| handler matches Some(list) && body == list@
                ||| finalizer matches Some(list) && body == list@
            },
            _ => false,
        },
    }
}

/// Whether a node stands in another as a part in which specifiers are looked for, whatever it is.
pub open spec fn is_part(whole: Node, part: Node) -> bool {
    match (whole, part) {
        (Node::Expression(w), Node::Expression(p)) => is_operand(w, p),
        (Node::Statement(w), Node::Expression(p)) => match w {
            Stmt::Expression(e) => p == e,
            Stmt::VariableDeclaration(list) => list@.contains(Some(p)),
            Stmt::Return(e) => e == Some(p),
            _ => false,
        },
        (_, Node::Statement(p)) => {
            ||| exists|body: Seq<Stmt>| #[trigger] is_body(whole, body) && body.contains(p)
            ||| whole matches Node::Statement(w) && match w {
                Stmt::If { consequent, alternate } => p == *consequent || (alternate matches Some(
                    other,
                ) && p == *other),
                Stmt::For(body) => p == *body,
                Stmt::ForIn(body) => p == *body,
                Stmt::ForOf(body) => p == *body,
                Stmt::While(body) => p == *body,
                _ => false,
            }
        },
    }
}

/// Whether a node is reached from another through as many parts of parts.
pub open spec fn is_reached(from: Node, to: Node, steps: nat) -> bool
    decreases steps,
{
    if steps == 0 {
        from == to
    } else {
        exists|part: Node| #[trigger]
            is_part(from, part) && is_reached(part, to, (steps - 1) as nat)
    }
}

/// Whether a list of mentions stands in another in one piece, from a place on.
pub open spec fn stands_in(infos: Seq<ImportInfo>, whole: Seq<ImportInfo>, at: int) -> bool {
    0 <= at && at + infos.len() <= whole.len() && whole.subrange(at, at + infos.len()) == infos
}

proof fn lemma_stands_between(
    before: Seq<ImportInfo>,
    infos: Seq<ImportInfo>,
    after: Seq<ImportInfo>,
)
    ensures
        stands_in(infos, before + infos + after, before.len() as int),
{
    assert((before + infos + after).subrange(
        before.len() as int,
        before.len() + infos.len() as int,
    ) == infos);
}

proof fn lemma_stands_within(
    inner: Seq<ImportInfo>,
    middle: Seq<ImportInfo>,
    outer: Seq<ImportInfo>,
    i: int,
    j: int,
)
    requires
        stands_in(inner, middle, i),
        stands_in(middle, outer, j),
    ensures
        stands_in(inner, outer, i + j),
{
    assert(outer.subrange(i + j, i + j + inner.len()) == middle.subrange(i, i + inner.len()));
}

proof fn lemma_statement_stands(body: Seq<Stmt>, k: int)
    requires
        0 <= k < body.len(),
    ensures
        exists|at: int| stands_in(imports_of_statement(body[k]), imports_of_statements(body), at),
{
    let before = body.take(k);
    let single = seq![body[k]];
    let after = body.skip(k + 1);
    assert(body == before + single + after);
    law_mentions_follow_source_order(before + single, after);
    law_mentions_follow_source_order(before, single);
    assert(single.drop_last() == Seq::<Stmt>::empty());
    reveal_with_fuel(imports_of_statements, 2);
    assert(imports_of_statements(single) == imports_of_statement(body[k]));
    lemma_stands_between(
        imports_of_statements(before),
        imports_of_statement(body[k]),
        imports_of_statements(after),
    );
}

proof fn lemma_expression_stands(list: Seq<Expr>, k: int, e: Expr)
    requires
        0 <= k < list.len(),
        list[k] == e,
    ensures
        exists|at: int| stands_in(imports_of_expression(e), imports_of_expressions(list), at),
{
    let before = list.take(k);
    let single = seq![list[k]];
    let after = list.skip(k + 1);
    assert(list == before + single + after);
    law_expressions_are_searched(before + single, after, e);
    law_expressions_are_searched(before, single, e);
    lemma_stands_between(
        imports_of_expressions(before),
        imports_of_expression(e),
        imports_of_expressions(after),
    );
}

proof fn lemma_argument_stands(list: Seq<CallArgument>, k: int, e: Expr)
    requires
        0 <= k < list.len(),
        list[k] == CallArgument::Expression(e),
    ensures
        exists|at: int| stands_in(imports_of_expression(e), imports_of_arguments(list), at),
{
    let before = list.take(k);
    let single = seq![list[k]];
    let after = list.skip(k + 1);
    assert(list == before + single + after);
    law_arguments_are_searched(before + single, after, e);
    law_arguments_are_searched(before, single, e);
    lemma_stands_between(
        imports_of_arguments(before),
        imports_of_expression(e),
        imports_of_arguments(after),
    );
}

proof fn lemma_property_stands(list: Seq<Property>, k: int, e: Expr)
    requires
        0 <= k < list.len(),
        list[k] == Property::Property(e) || list[k] == Property::Spread(e),
    ensures
        exists|at: int| stands_in(imports_of_expression(e), imports_of_properties(list), at),
{
    let before = list.take(k);
    let single = seq![list[k]];
    let after = list.skip(k + 1);
    assert(list == before + single + after);
    law_properties_are_searched(before + single, after, e);
    law_properties_are_searched(before, single, e);
    lemma_stands_between(
        imports_of_properties(before),
        imports_of_expression(e),
        imports_of_properties(after),
    );
}

proof fn lemma_element_stands(list: Seq<Element>, k: int, e: Expr)
    requires
        0 <= k < list.len(),
        list[k] == Element::Expression(e) || list[k] == Element::Spread(e),
    ensures
        exists|at: int| stands_in(imports_of_expression(e), imports_of_elements(list), at),
{
    let before = list.take(k);
    let single = seq![list[k]];
    let after = list.skip(k + 1);
    assert(list == before + single + after);
    law_elements_are_searched(before + single, after, e);
    law_elements_are_searched(before, single, e);
    lemma_stands_between(
        imports_of_elements(before),
        imports_of_expression(e),
        imports_of_elements(after),
    );
}

proof fn lemma_initial_stands(list: Seq<Option<Expr>>, k: int, e: Expr)
    requires
        0 <= k < list.len(),
        list[k] == Some(e),
    ensures
        exists|at: int| stands_in(imports_of_expression(e), imports_of_initials(list), at),
{
    let before = list.take(k);
    let single = seq![list[k]];
    let after = list.skip(k + 1);
    assert(list == before + single + after);
    law_initials_are_searched(before + single, after, e);
    law_initials_are_searched(before, single, e);
    lemma_stands_between(
        imports_of_initials(before),
        imports_of_expression(e),
        imports_of_initials(after),
    );
}

proof fn lemma_case_stands(cases: Seq<Vec<Stmt>>, k: int)
    requires
        0 <= k < cases.len(),
    ensures
        exists|at: int|
            stands_in(imports_of_statements(cases[k]@), imports_of_cases(cases), at),
{
    let before = cases.take(k);
    let single = seq![cases[k]];
    let after = cases.skip(k + 1);
    assert(cases == before + single + after);
    law_cases_are_searched(before + single, after, cases[k]);
    law_cases_are_searched(before, single, cases[k]);
    lemma_stands_between(
        imports_of_cases(before),
        imports_of_statements(cases[k]@),
        imports_of_cases(after),
    );
}

proof fn lemma_operand_stands(whole: Expr, part: Expr)
    requires
        is_operand(whole, part),
    ensures
        exists|at: int|
            stands_in(imports_of_expression(part), imports_of_expression(whole), at),
{
    let none = Seq::<ImportInfo>::empty();
    let infos = imports_of_expression(part);
    match whole {
        Expr::Sequence(list) => {
            lemma_expression_stands(list@, list@.index_of(part), part);
            assert(imports_of_expression(whole) == imports_of_expressions(list@));
        },
        Expr::Conditional { test, consequent, alternate } => {
            let (a, b, c) = (
                imports_of_expression(*test),
                imports_of_expression(*consequent),
                imports_of_expression(*alternate),
            );
            assert(imports_of_expression(whole) == a + b + c);
            if part == *test {
                lemma_stands_between(none, a, b + c);
                assert(none + a + (b + c) == a + b + c);
            } else if part == *consequent {
                lemma_stands_between(a, b, c);
            } else {
                lemma_stands_between(a + b, c, none);
                assert(a + b + c + none == a + b + c);
            }
        },
        Expr::Call { callee, arguments } => {
            lemma_call_part_stands(callee, arguments, part);
            law_callees_are_searched(callee, arguments);
        },
        Expr::New { callee, arguments } => {
            lemma_call_part_stands(callee, arguments, part);
            law_callees_are_searched(callee, arguments);
        },
        Expr::Logical { left, right } => {
            lemma_either_stands(left, right, part);
            law_operands_are_searched(left, right, left);
        },
        Expr::Binary { left, right } => {
            lemma_either_stands(left, right, part);
            law_operands_are_searched(left, right, left);
        },
        Expr::ComputedMember { object, expression } => {
            lemma_either_stands(object, expression, part);
            law_operands_are_searched(object, expression, object);
        },
        Expr::Object(list) => {
            let k = if list@.contains(Property::Property(part)) {
                list@.index_of(Property::Property(part))
            } else {
                list@.index_of(Property::Spread(part))
            };
            lemma_property_stands(list@, k, part);
            assert(imports_of_expression(whole) == imports_of_properties(list@));
        },
        Expr::Array(list) => {
            let k = if list@.contains(Element::Expression(part)) {
                list@.index_of(Element::Expression(part))
            } else {
                list@.index_of(Element::Spread(part))
            };
            lemma_element_stands(list@, k, part);
            assert(imports_of_expression(whole) == imports_of_elements(list@));
        },
        _ => {
            lemma_stands_between(none, infos, none);
            assert(none + infos + none == infos);
            assert(imports_of_expression(whole) == infos);
        },
    }
}

proof fn lemma_either_stands(left: Box<Expr>, right: Box<Expr>, part: Expr)
    requires
        part == *left || part == *right,
    ensures
        exists|at: int|
            stands_in(
                imports_of_expression(part),
                imports_of_expression(*left) + imports_of_expression(*right),
                at,
            ),
{
    let none = Seq::<ImportInfo>::empty();
    let (a, b) = (imports_of_expression(*left), imports_of_expression(*right));
    if part == *left {
        lemma_stands_between(none, a, b);
        assert(none + a + b == a + b);
    } else {
        lemma_stands_between(a, b, none);
        assert(a + b + none == a + b);
    }
}

proof fn lemma_call_part_stands(callee: Box<Expr>, arguments: Vec<CallArgument>, part: Expr)
    requires
        part == *callee || arguments@.contains(CallArgument::Expression(part)),
    ensures
        exists|at: int|
            stands_in(
                imports_of_expression(part),
                imports_of_expression(*callee) + imports_of_arguments(arguments@),
                at,
            ),
{
    let none = Seq::<ImportInfo>::empty();
    let (a, b) = (imports_of_expression(*callee), imports_of_arguments(arguments@));
    if part == *callee {
        lemma_stands_between(none, a, b);
        assert(none + a + b == a + b);
    } else {
        let k = arguments@.index_of(CallArgument::Expression(part));
        lemma_argument_stands(arguments@, k, part);
        let i = choose|at: int| stands_in(imports_of_expression(part), b, at);
        lemma_stands_between(a, b, none);
        assert(a + b + none == a + b);
        lemma_stands_within(imports_of_expression(part), b, a + b, i, a.len() as int);
    }
}

proof fn lemma_body_stands(whole: Node, body: Seq<Stmt>)
    requires
        is_body(whole, body),
    ensures
        exists|at: int| stands_in(imports_of_statements(body), imports_of_node(whole), at),
{
    let none = Seq::<ImportInfo>::empty();
    let infos = imports_of_statements(body);
    lemma_stands_between(none, infos, none);
    assert(none + infos + none == infos);
    if let Node::Statement(s) = whole {
        assert(imports_of_node(whole) == imports_of_statement(s));
        match s {
            Stmt::Switch(cases) => {
                let k = choose|i: int| 0 <= i < cases@.len() && body == (#[trigger] cases@[i])@;
                lemma_case_stands(cases@, k);
                assert(imports_of_statement(s) == imports_of_cases(cases@));
            },
            Stmt::Try { block, handler, finalizer } => {
                let (a, b, c) = (
                    imports_of_statements(block@),
                    imports_of_optional_body(handler),
                    imports_of_optional_body(finalizer),
                );
                assert(imports_of_statement(s) == a + b + c);
                if body == block@ {
                    lemma_stands_between(none, a, b + c);
                    assert(none + a + (b + c) == a + b + c);
                } else if handler matches Some(list) && body == list@ {
                    assert(b == infos);
                    lemma_stands_between(a, b, c);
                } else {
                    assert(c == infos);
                    lemma_stands_between(a + b, c, none);
                    assert(a + b + c + none == a + b + c);
                }
            },
            _ => {
                reveal_with_fuel(imports_of_statement, 2);
                assert(imports_of_statement(s) == infos);
            },
        }
    } else {
        assert(imports_of_node(whole) == infos);
    }
}

/// The mentions in a part stand in those of the whole, in one piece.
pub proof fn law_parts_are_searched(whole: Node, part: Node)
    requires
        is_part(whole, part),
    ensures
        exists|at: int| stands_in(imports_of_node(part), imports_of_node(whole), at),
{
    let none = Seq::<ImportInfo>::empty();
    let infos = imports_of_node(part);
    lemma_stands_between(none, infos, none);
    assert(none + infos + none == infos);
    match part {
        Node::Expression(p) => match whole {
            Node::Expression(w) => {
                assert(imports_of_node(whole) == imports_of_expression(w));
                lemma_operand_stands(w, p);
            },
            Node::Statement(w) => {
                assert(imports_of_node(whole) == imports_of_statement(w));
                if let Stmt::VariableDeclaration(list) = w {
                    lemma_initial_stands(list@, list@.index_of(Some(p)), p);
                    assert(imports_of_statement(w) == imports_of_initials(list@));
                } else {
                    reveal_with_fuel(imports_of_statement, 2);
                    assert(imports_of_statement(w) == infos);
                }
            },
        },
        Node::Statement(p) => {
            if exists|body: Seq<Stmt>| #[trigger] is_body(whole, body) && body.contains(p) {
                let body = choose|body: Seq<Stmt>| #[trigger]
                    is_body(whole, body) && body.contains(p);
                lemma_body_stands(whole, body);
                let j = choose|at: int|
                    stands_in(imports_of_statements(body), imports_of_node(whole), at);
                lemma_statement_stands(body, body.index_of(p));
                let i = choose|at: int|
                    stands_in(imports_of_statement(p), imports_of_statements(body), at);
                lemma_stands_within(
                    infos,
                    imports_of_statements(body),
                    imports_of_node(whole),
                    i,
                    j,
                );
            } else if let Node::Statement(Stmt::If { consequent, alternate }) = whole {
                let a = imports_of_statement(*consequent);
                if let Some(other) = alternate {
                    let b = imports_of_statement(*other);
                    assert(imports_of_node(whole) == a + b);
                    if p == *consequent {
                        lemma_stands_between(none, a, b);
                        assert(none + a + b == a + b);
                    } else {
                        lemma_stands_between(a, b, none);
                        assert(a + b + none == a + b);
                    }
                } else {
                    assert(imports_of_node(whole) == a);
                }
            } else {
                assert(imports_of_node(whole) == infos);
            }
        },
    }
}

/// What stands anywhere below a node, however deep, is mentioned with the node.
pub proof fn law_reached_nodes_are_searched(from: Node, to: Node, steps: nat)
    requires
        is_reached(from, to, steps),
    ensures
        exists|at: int| stands_in(imports_of_node(to), imports_of_node(from), at),
    decreases steps,
{
    if steps == 0 {
        let none = Seq::<ImportInfo>::empty();
        let infos = imports_of_node(to);
        lemma_stands_between(none, infos, none);
        assert(none + infos + none == infos);
    } else {
        let part = choose|part: Node| #[trigger]
            is_part(from, part) && is_reached(part, to, (steps - 1) as nat);
        law_parts_are_searched(from, part);
        law_reached_nodes_are_searched(part, to, (steps - 1) as nat);
        let i = choose|at: int| stands_in(imports_of_node(to), imports_of_node(part), at);
        let j = choose|at: int| stands_in(imports_of_node(part), imports_of_node(from), at);
        lemma_stands_within(
            imports_of_node(to),
            imports_of_node(part),
            imports_of_node(from),
            i,
            j,
        );
    }
}

/// Whether a node names a module itself: an `import()` of a string literal, or a declaration that is
/// not there for the types alone.
pub open spec fn names_module(node: Node, info: ImportInfo) -> bool {
    match node {
        Node::Expression(e) => {
            &&& e matches Expr::Import(source)
            &&& *source matches Expr::StringLiteral(literal)
            &&& tells_of(info, literal)
            &&& info.import_type == ImportType::Dynamic
            &&& info.kind == ImportKind::Import
        },
        Node::Statement(s) => {
            &&& s matches Stmt::Item(item)
            &&& info.import_type == ImportType::Static
            &&& match item {
                ModuleItem::Import { kind, source } => kind == DeclarationKind::Value && tells_of(
                    info,
                    source,
                ) && info.kind == ImportKind::Import,
                ModuleItem::ExportAll { kind, source } => kind == DeclarationKind::Value
                    && tells_of(info, source) && info.kind == ImportKind::ExportAll,
                ModuleItem::ExportNamed { kind, source } => {
                    &&& kind == DeclarationKind::Value
                    &&& source matches Some(source)
                    &&& tells_of(info, source)
                    &&& info.kind == ImportKind::Export
                },
                ModuleItem::Other => false,
            }
        },
    }
}

/// Every node of a module that names another module is reported, wherever it stands: there is a
/// mention with its text, its place, its type and its kind.
pub proof fn law_every_named_module_is_reported(
    body: Seq<Stmt>,
    k: int,
    to: Node,
    steps: nat,
    info: ImportInfo,
)
    requires
        0 <= k < body.len(),
        is_reached(Node::Statement(body[k]), to, steps),
        names_module(to, info),
    ensures
        exists|i: int|
            0 <= i < imports_of_statements(body).len() && names_module(
                to,
                #[trigger] imports_of_statements(body)[i],
            ),
{
    let from = Node::Statement(body[k]);
    let whole = imports_of_statements(body);
    law_reached_nodes_are_searched(from, to, steps);
    lemma_statement_stands(body, k);
    let i = choose|at: int| stands_in(imports_of_node(to), imports_of_node(from), at);
    let j = choose|at: int| stands_in(imports_of_node(from), whole, at);
    lemma_stands_within(imports_of_node(to), imports_of_node(from), whole, i, j);
    assert(names_module(to, imports_of_node(to)[0]));
    assert(whole.subrange(i + j, i + j + imports_of_node(to).len())[0] == whole[i + j]);
}

/// Whether every mention is made by a node that is reached from `node`.
pub open spec fn come_from(infos: Seq<ImportInfo>, node: Node) -> bool {
    forall|i: int| 0 <= i < infos.len() ==> comes_from(#[trigger] infos[i], node)
}

/// Whether a mention is made by a node that is reached from `node`.
pub open spec fn comes_from(info: ImportInfo, node: Node) -> bool {
    exists|to: Node, steps: nat| #[trigger] is_reached(node, to, steps) && names_module(to, info)
}

proof fn lemma_from_part(infos: Seq<ImportInfo>, part: Node, whole: Node)
    requires
        come_from(infos, part),
        is_part(whole, part),
    ensures
        come_from(infos, whole),
{
    assert forall|i: int| 0 <= i < infos.len() implies comes_from(#[trigger] infos[i], whole) by {
        assert(comes_from(infos[i], part));
        let (to, steps) = choose|to: Node, steps: nat| #[trigger]
            is_reached(part, to, steps) && names_module(to, infos[i]);
        assert(is_reached(whole, to, steps + 1));
    }
}

proof fn lemma_from_operand(e: Expr, whole: Node)
    requires
        is_part(whole, Node::Expression(e)),
    ensures
        come_from(imports_of_expression(e), whole),
    decreases e, 1int,
{
    lemma_from_expression(e);
    lemma_from_part(imports_of_expression(e), Node::Expression(e), whole);
}

proof fn lemma_from_expressions(list: Seq<Expr>, whole: Node)
    requires
        forall|k: int| 0 <= k < list.len() ==> is_part(whole, Node::Expression(#[trigger] list[k])),
    ensures
        come_from(imports_of_expressions(list), whole),
    decreases list, 0int,
{
    if list.len() > 0 {
        let before = list.drop_last();
        assert(list[list.len() - 1] == list.last());
        assert forall|k: int| 0 <= k < before.len() implies is_part(
            whole,
            Node::Expression(#[trigger] before[k]),
        ) by {
            assert(before[k] == list[k]);
        }
        lemma_from_expressions(before, whole);
        lemma_from_operand(list.last(), whole);
    }
}

proof fn lemma_from_arguments(list: Seq<CallArgument>, whole: Node)
    requires
        forall|k: int|
            0 <= k < list.len() ==> (#[trigger] list[k] matches CallArgument::Expression(e) ==> is_part(
                whole,
                Node::Expression(e),
            )),
    ensures
        come_from(imports_of_arguments(list), whole),
    decreases list, 0int,
{
    if list.len() > 0 {
        let before = list.drop_last();
        assert(list[list.len() - 1] == list.last());
        assert forall|k: int| 0 <= k < before.len() implies (
        #[trigger] before[k] matches CallArgument::Expression(e) ==> is_part(whole, Node::Expression(e))) by {
            assert(before[k] == list[k]);
        }
        lemma_from_arguments(before, whole);
        if let CallArgument::Expression(e) = list.last() {
            lemma_from_operand(e, whole);
        }
    }
}

proof fn lemma_from_properties(list: Seq<Property>, whole: Node)
    requires
        forall|k: int|
            0 <= k < list.len() ==> match #[trigger] list[k] {
                Property::Property(e) => is_part(whole, Node::Expression(e)),
                Property::Spread(e) => is_part(whole, Node::Expression(e)),
            },
    ensures
        come_from(imports_of_properties(list), whole),
    decreases list, 0int,
{
    if list.len() > 0 {
        let before = list.drop_last();
        assert(list[list.len() - 1] == list.last());
        assert forall|k: int| 0 <= k < before.len() implies (match #[trigger] before[k] {
            Property::Property(e) => is_part(whole, Node::Expression(e)),
            Property::Spread(e) => is_part(whole, Node::Expression(e)),
        }) by {
            assert(before[k] == list[k]);
        }
        lemma_from_properties(before, whole);
        match list.last() {
            Property::Property(e) => lemma_from_operand(e, whole),
            Property::Spread(e) => lemma_from_operand(e, whole),
        }
    }
}

proof fn lemma_from_elements(list: Seq<Element>, whole: Node)
    requires
        forall|k: int|
            0 <= k < list.len() ==> match #[trigger] list[k] {
                Element::Expression(e) => is_part(whole, Node::Expression(e)),
                Element::Spread(e) => is_part(whole, Node::Expression(e)),
                Element::Elision => true,
            },
    ensures
        come_from(imports_of_elements(list), whole),
    decreases list, 0int,
{
    if list.len() > 0 {
        let before = list.drop_last();
        assert(list[list.len() - 1] == list.last());
        assert forall|k: int| 0 <= k < before.len() implies (match #[trigger] before[k] {
            Element::Expression(e) => is_part(whole, Node::Expression(e)),
            Element::Spread(e) => is_part(whole, Node::Expression(e)),
            Element::Elision => true,
        }) by {
            assert(before[k] == list[k]);
        }
        lemma_from_elements(before, whole);
        match list.last() {
            Element::Expression(e) => lemma_from_operand(e, whole),
            Element::Spread(e) => lemma_from_operand(e, whole),
            Element::Elision => {},
        }
    }
}

proof fn lemma_from_initials(list: Seq<Option<Expr>>, whole: Node)
    requires
        forall|k: int|
            0 <= k < list.len() ==> (#[trigger] list[k] matches Some(e) ==> is_part(
                whole,
                Node::Expression(e),
            )),
    ensures
        come_from(imports_of_initials(list), whole),
    decreases list, 0int,
{
    if list.len() > 0 {
        let before = list.drop_last();
        assert(list[list.len() - 1] == list.last());
        assert forall|k: int| 0 <= k < before.len() implies (
        #[trigger] before[k] matches Some(e) ==> is_part(whole, Node::Expression(e))) by {
            assert(before[k] == list[k]);
        }
        lemma_from_initials(before, whole);
        assert(imports_of_initials(list) == imports_of_initials(before)
            + imports_of_optional_expression(list.last()));
        if let Some(e) = list.last() {
            lemma_from_operand(e, whole);
        }
    }
}

proof fn lemma_from_statements(list: Seq<Stmt>, whole: Node)
    requires
        forall|k: int| 0 <= k < list.len() ==> is_part(whole, Node::Statement(#[trigger] list[k])),
    ensures
        come_from(imports_of_statements(list), whole),
    decreases list, 0int,
{
    if list.len() > 0 {
        let before = list.drop_last();
        assert(list[list.len() - 1] == list.last());
        assert forall|k: int| 0 <= k < before.len() implies is_part(
            whole,
            Node::Statement(#[trigger] before[k]),
        ) by {
            assert(before[k] == list[k]);
        }
        lemma_from_statements(before, whole);
        lemma_from_statement(list.last());
        lemma_from_part(
            imports_of_statement(list.last()),
            Node::Statement(list.last()),
            whole,
        );
    }
}

proof fn lemma_from_body(body: Seq<Stmt>, whole: Node)
    requires
        is_body(whole, body),
    ensures
        come_from(imports_of_statements(body), whole),
    decreases body, 1int,
{
    assert forall|k: int| 0 <= k < body.len() implies is_part(
        whole,
        Node::Statement(#[trigger] body[k]),
    ) by {
        assert(body.contains(body[k]));
    }
    lemma_from_statements(body, whole);
}

proof fn lemma_from_cases(list: Seq<Vec<Stmt>>, whole: Node)
    requires
        forall|k: int| 0 <= k < list.len() ==> is_body(whole, (#[trigger] list[k])@),
    ensures
        come_from(imports_of_cases(list), whole),
    decreases list, 0int,
{
    if list.len() > 0 {
        let before = list.drop_last();
        assert(list[list.len() - 1] == list.last());
        assert forall|k: int| 0 <= k < before.len() implies is_body(whole, (#[trigger] before[k])@) by {
            assert(before[k] == list[k]);
        }
        lemma_from_cases(before, whole);
        lemma_from_body(list.last()@, whole);
    }
}

proof fn lemma_from_expression(e: Expr)
    ensures
        come_from(imports_of_expression(e), Node::Expression(e)),
    decreases e, 0int,
{
    let whole = Node::Expression(e);
    match e {
        Expr::Import(_) => {
            assert(is_reached(whole, whole, 0));
        },
        Expr::Sequence(list) => {
            assert forall|k: int| 0 <= k < list@.len() implies is_part(
                whole,
                Node::Expression(#[trigger] list@[k]),
            ) by {
                assert(list@.contains(list@[k]));
            }
            lemma_from_expressions(list@, whole);
        },
        Expr::Conditional { test, consequent, alternate } => {
            lemma_from_operand(*test, whole);
            lemma_from_operand(*consequent, whole);
            lemma_from_operand(*alternate, whole);
        },
        Expr::Call { callee, arguments } => {
            lemma_from_operand(*callee, whole);
            assert forall|k: int| 0 <= k < arguments@.len() implies (
            #[trigger] arguments@[k] matches CallArgument::Expression(x) ==> is_part(
                whole,
                Node::Expression(x),
            )) by {
                assert(arguments@.contains(arguments@[k]));
            }
            lemma_from_arguments(arguments@, whole);
        },
        Expr::New { callee, arguments } => {
            lemma_from_operand(*callee, whole);
            assert forall|k: int| 0 <= k < arguments@.len() implies (
            #[trigger] arguments@[k] matches CallArgument::Expression(x) ==> is_part(
                whole,
                Node::Expression(x),
            )) by {
                assert(arguments@.contains(arguments@[k]));
            }
            lemma_from_arguments(arguments@, whole);
        },
        Expr::Assignment(operand) => lemma_from_operand(*operand, whole),
        Expr::Await(operand) => lemma_from_operand(*operand, whole),
        Expr::Unary(operand) => lemma_from_operand(*operand, whole),
        Expr::Parenthesized(operand) => lemma_from_operand(*operand, whole),
        Expr::TaggedTemplate(operand) => lemma_from_operand(*operand, whole),
        Expr::StaticMember(operand) => lemma_from_operand(*operand, whole),
        Expr::Logical { left, right } => {
            lemma_from_operand(*left, whole);
            lemma_from_operand(*right, whole);
        },
        Expr::Binary { left, right } => {
            lemma_from_operand(*left, whole);
            lemma_from_operand(*right, whole);
        },
        Expr::ComputedMember { object, expression } => {
            lemma_from_operand(*object, whole);
            lemma_from_operand(*expression, whole);
        },
        Expr::ArrowFunction(body) => lemma_from_body(body@, whole),
        Expr::Object(list) => {
            assert forall|k: int| 0 <= k < list@.len() implies (match #[trigger] list@[k] {
                Property::Property(x) => is_part(whole, Node::Expression(x)),
                Property::Spread(x) => is_part(whole, Node::Expression(x)),
            }) by {
                assert(list@.contains(list@[k]));
            }
            lemma_from_properties(list@, whole);
        },
        Expr::Array(list) => {
            assert forall|k: int| 0 <= k < list@.len() implies (match #[trigger] list@[k] {
                Element::Expression(x) => is_part(whole, Node::Expression(x)),
                Element::Spread(x) => is_part(whole, Node::Expression(x)),
                Element::Elision => true,
            }) by {
                assert(list@.contains(list@[k]));
            }
            lemma_from_elements(list@, whole);
        },
        _ => {},
    }
}

proof fn lemma_from_nested(s: Stmt, whole: Node)
    requires
        is_part(whole, Node::Statement(s)),
    ensures
        come_from(imports_of_statement(s), whole),
    decreases s, 1int,
{
    lemma_from_statement(s);
    lemma_from_part(imports_of_statement(s), Node::Statement(s), whole);
}

proof fn lemma_from_statement(s: Stmt)
    ensures
        come_from(imports_of_statement(s), Node::Statement(s)),
    decreases s, 0int,
{
    let whole = Node::Statement(s);
    reveal_with_fuel(imports_of_statement, 2);
    match s {
        Stmt::Item(_) => {
            assert(is_reached(whole, whole, 0));
        },
        Stmt::Expression(e) => lemma_from_operand(e, whole),
        Stmt::VariableDeclaration(list) => {
            assert forall|k: int| 0 <= k < list@.len() implies (
            #[trigger] list@[k] matches Some(e) ==> is_part(whole, Node::Expression(e))) by {
                assert(list@.contains(list@[k]));
            }
            lemma_from_initials(list@, whole);
        },
        Stmt::Return(argument) => {
            if let Some(e) = argument {
                lemma_from_operand(e, whole);
            }
        },
        Stmt::If { consequent, alternate } => {
            lemma_from_nested(*consequent, whole);
            if let Some(other) = alternate {
                lemma_from_nested(*other, whole);
            }
        },
        Stmt::Block(body) => lemma_from_body(body@, whole),
        Stmt::Function(body) => {
            if let Some(list) = body {
                lemma_from_body(list@, whole);
            }
        },
        Stmt::ExportDefaultFunction(body) => {
            if let Some(list) = body {
                lemma_from_body(list@, whole);
            }
        },
        Stmt::Switch(cases) => {
            assert forall|k: int| 0 <= k < cases@.len() implies is_body(
                whole,
                (#[trigger] cases@[k])@,
            ) by {}
            lemma_from_cases(cases@, whole);
        },
        Stmt::Try { block, handler, finalizer } => {
            lemma_from_body(block@, whole);
            if let Some(list) = handler {
                lemma_from_body(list@, whole);
            }
            if let Some(list) = finalizer {
                lemma_from_body(list@, whole);
            }
        },
        Stmt::For(body) => lemma_from_nested(*body, whole),
        Stmt::ForIn(body) => lemma_from_nested(*body, whole),
        Stmt::ForOf(body) => lemma_from_nested(*body, whole),
        Stmt::While(body) => lemma_from_nested(*body, whole),
    }
}

/// Nothing else is reported: every mention is made by a node of the module that names another
/// module, with its text, its place, its type and its kind.
pub proof fn law_only_named_modules_are_reported(body: Seq<Stmt>, i: int)
    requires
        0 <= i < imports_of_statements(body).len(),
    ensures
        exists|k: int|
            0 <= k < body.len() && comes_from(
                imports_of_statements(body)[i],
                Node::Statement(#[trigger] body[k]),
            ),
    decreases body.len(),
{
    if body.len() > 0 {
        let before = body.drop_last();
        let infos = imports_of_statements(before);
        assert(body[body.len() - 1] == body.last());
        if i < infos.len() {
            law_only_named_modules_are_reported(before, i);
            let k = choose|k: int|
                0 <= k < before.len() && comes_from(
                    infos[i],
                    Node::Statement(#[trigger] before[k]),
                );
            assert(body[k] == before[k]);
        } else {
            lemma_from_statement(body.last());
            assert(imports_of_statements(body)[i] == imports_of_statement(body.last())[i
                - infos.len()]);
        }
    }
}

} // verus!
