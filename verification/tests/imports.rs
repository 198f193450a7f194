use oxc_ex_nif::imports::{
    collect_imports_from_expression, collect_imports_from_statement,
    collect_imports_from_statements, FieldValue, ImportInfo, ImportKind, ImportType,
};
use oxc_ex_nif::syntax::{
    CallArgument, DeclarationKind, Element, Expr, Literal, ModuleItem, Property, Stmt,
};

fn literal(value: &str) -> Literal {
    Literal { value: value.to_string(), start: 3, end: 8 }
}

fn dynamic(value: &str) -> Expr {
    Expr::Import(Box::new(Expr::StringLiteral(literal(value))))
}

fn boxed(value: &str) -> Box<Expr> {
    Box::new(dynamic(value))
}

fn statement(value: &str) -> Stmt {
    Stmt::Expression(dynamic(value))
}

fn in_expression(expr: &Expr) -> Vec<String> {
    let mut results = Vec::new();
    collect_imports_from_expression(expr, &mut results);
    results.into_iter().map(|info: ImportInfo| info.specifier).collect()
}

fn in_statement(stmt: &Stmt) -> Vec<String> {
    let mut results = Vec::new();
    collect_imports_from_statement(stmt, &mut results);
    results.into_iter().map(|info: ImportInfo| info.specifier).collect()
}

#[test]
fn import_call_is_dynamic() {
    let mut results = Vec::new();
    collect_imports_from_expression(&dynamic("./page"), &mut results);
    assert_eq!(results.len(), 1);
    assert_eq!(results[0].specifier, "./page");
    assert_eq!(results[0].import_type, ImportType::Dynamic);
    assert_eq!(results[0].kind, ImportKind::Import);
    assert_eq!((results[0].start, results[0].end), (3, 8));
}

#[test]
fn import_call_without_a_literal_is_skipped() {
    assert!(in_expression(&Expr::Import(Box::new(Expr::TemplateLiteral))).is_empty());
    assert!(in_expression(&Expr::Import(boxed("inner"))).is_empty());
}

#[test]
fn other_expressions_mention_nothing() {
    assert!(in_expression(&Expr::StringLiteral(literal("a"))).is_empty());
    assert!(in_expression(&Expr::TemplateLiteral).is_empty());
    assert!(in_expression(&Expr::Other).is_empty());
}

#[test]
fn expressions_with_one_operand_are_searched() {
    let cases = [
        Expr::Assignment(boxed("a")),
        Expr::Await(boxed("a")),
        Expr::Unary(boxed("a")),
        Expr::Parenthesized(boxed("a")),
        Expr::TaggedTemplate(boxed("a")),
        Expr::StaticMember(boxed("a")),
    ];
    for case in &cases {
        assert_eq!(in_expression(case), ["a"]);
    }
}

#[test]
fn expressions_with_more_operands_are_searched_in_order() {
    let conditional = Expr::Conditional {
        test: boxed("a"),
        consequent: boxed("b"),
        alternate: boxed("c"),
    };
    assert_eq!(in_expression(&conditional), ["a", "b", "c"]);
    let logical = Expr::Logical { left: boxed("a"), right: boxed("b") };
    assert_eq!(in_expression(&logical), ["a", "b"]);
    let binary = Expr::Binary { left: boxed("a"), right: boxed("b") };
    assert_eq!(in_expression(&binary), ["a", "b"]);
    let member = Expr::ComputedMember { object: boxed("a"), expression: boxed("b") };
    assert_eq!(in_expression(&member), ["a", "b"]);
    let sequence = Expr::Sequence(vec![dynamic("a"), dynamic("b"), dynamic("c")]);
    assert_eq!(in_expression(&sequence), ["a", "b", "c"]);
}

#[test]
fn spread_arguments_are_skipped() {
    let arguments =
        vec![CallArgument::Expression(dynamic("b")), CallArgument::Spread, CallArgument::Expression(dynamic("c"))];
    assert_eq!(in_expression(&Expr::Call { callee: boxed("a"), arguments }), ["a", "b", "c"]);
    let arguments = vec![CallArgument::Spread, CallArgument::Expression(dynamic("b"))];
    assert_eq!(in_expression(&Expr::New { callee: boxed("a"), arguments }), ["a", "b"]);
}

#[test]
fn spread_properties_and_elements_are_searched() {
    let object =
        Expr::Object(vec![Property::Property(dynamic("a")), Property::Spread(dynamic("b"))]);
    assert_eq!(in_expression(&object), ["a", "b"]);
    let array = Expr::Array(vec![
        Element::Spread(dynamic("a")),
        Element::Elision,
        Element::Expression(dynamic("b")),
    ]);
    assert_eq!(in_expression(&array), ["a", "b"]);
}

#[test]
fn arrow_functions_are_searched() {
    let arrow = Expr::ArrowFunction(vec![statement("a"), Stmt::Return(Some(dynamic("b")))]);
    assert_eq!(in_expression(&arrow), ["a", "b"]);
}

#[test]
fn declarations_are_static() {
    let items = vec![
        Stmt::Item(ModuleItem::Import { kind: DeclarationKind::Value, source: literal("a") }),
        Stmt::Item(ModuleItem::ExportNamed {
            kind: DeclarationKind::Value,
            source: Some(literal("b")),
        }),
        Stmt::Item(ModuleItem::ExportAll { kind: DeclarationKind::Value, source: literal("c") }),
    ];
    let mut results = Vec::new();
    collect_imports_from_statements(&items, &mut results);
    let found: Vec<(&str, ImportType, ImportKind)> =
        results.iter().map(|info| (info.specifier.as_str(), info.import_type, info.kind)).collect();
    assert_eq!(
        found,
        [
            ("a", ImportType::Static, ImportKind::Import),
            ("b", ImportType::Static, ImportKind::Export),
            ("c", ImportType::Static, ImportKind::ExportAll),
        ],
    );
}

#[test]
fn declarations_for_types_alone_are_skipped() {
    let kind = DeclarationKind::Type;
    assert!(in_statement(&Stmt::Item(ModuleItem::Import { kind, source: literal("a") })).is_empty());
    assert!(in_statement(&Stmt::Item(ModuleItem::ExportAll { kind, source: literal("a") })).is_empty());
    let named = ModuleItem::ExportNamed { kind, source: Some(literal("a")) };
    assert!(in_statement(&Stmt::Item(named)).is_empty());
    let own = ModuleItem::ExportNamed { kind: DeclarationKind::Value, source: None };
    assert!(in_statement(&Stmt::Item(own)).is_empty());
    assert!(in_statement(&Stmt::Item(ModuleItem::Other)).is_empty());
}

#[test]
fn statements_with_expressions_are_searched() {
    assert_eq!(in_statement(&statement("a")), ["a"]);
    let variables = Stmt::VariableDeclaration(vec![Some(dynamic("a")), None, Some(dynamic("b"))]);
    assert_eq!(in_statement(&variables), ["a", "b"]);
    assert_eq!(in_statement(&Stmt::Return(Some(dynamic("a")))), ["a"]);
    assert!(in_statement(&Stmt::Return(None)).is_empty());
}

#[test]
fn statements_with_bodies_are_searched() {
    let cases = [
        Stmt::Block(vec![statement("a")]),
        Stmt::Function(Some(vec![statement("a")])),
        Stmt::ExportDefaultFunction(Some(vec![statement("a")])),
        Stmt::For(Box::new(statement("a"))),
        Stmt::ForIn(Box::new(statement("a"))),
        Stmt::ForOf(Box::new(statement("a"))),
        Stmt::While(Box::new(statement("a"))),
    ];
    for case in &cases {
        assert_eq!(in_statement(case), ["a"]);
    }
    assert!(in_statement(&Stmt::Function(None)).is_empty());
    assert!(in_statement(&Stmt::ExportDefaultFunction(None)).is_empty());
}

#[test]
fn branches_are_searched_in_order() {
    let both = Stmt::If {
        consequent: Box::new(statement("a")),
        alternate: Some(Box::new(statement("b"))),
    };
    assert_eq!(in_statement(&both), ["a", "b"]);
    let one = Stmt::If { consequent: Box::new(statement("a")), alternate: None };
    assert_eq!(in_statement(&one), ["a"]);
    let switch = Stmt::Switch(vec![vec![statement("a"), statement("b")], vec![], vec![statement("c")]]);
    assert_eq!(in_statement(&switch), ["a", "b", "c"]);
    let guarded = Stmt::Try {
        block: vec![statement("a")],
        handler: Some(vec![statement("b")]),
        finalizer: Some(vec![statement("c")]),
    };
    assert_eq!(in_statement(&guarded), ["a", "b", "c"]);
    let bare = Stmt::Try { block: vec![statement("a")], handler: None, finalizer: None };
    assert_eq!(in_statement(&bare), ["a"]);
}

#[test]
fn mentions_are_appended() {
    let mut results = Vec::new();
    collect_imports_from_statement(&statement("a"), &mut results);
    collect_imports_from_statements(&vec![statement("b"), statement("c")], &mut results);
    let found: Vec<&str> = results.iter().map(|info| info.specifier.as_str()).collect();
    assert_eq!(found, ["a", "b", "c"]);
}

#[test]
fn mention_is_encoded_field_by_field() {
    let info = ImportInfo {
        specifier: "vue".to_string(),
        import_type: ImportType::Static,
        kind: ImportKind::ExportAll,
        start: 14,
        end: 19,
    };
    assert_eq!(
        info.encode(),
        [
            ("specifier".to_string(), FieldValue::Text("vue".to_string())),
            ("type".to_string(), FieldValue::Atom("static".to_string())),
            ("kind".to_string(), FieldValue::Atom("export_all".to_string())),
            ("start".to_string(), FieldValue::Number(14)),
            ("end".to_string(), FieldValue::Number(19)),
        ],
    );
}

#[test]
fn encoded_names_follow_type_and_kind() {
    let encode = |import_type: ImportType, kind: ImportKind| {
        let info = ImportInfo { specifier: String::new(), import_type, kind, start: 0, end: 0 };
        let fields = info.encode();
        format!("{:?} {:?}", fields[1].1, fields[2].1)
    };
    assert_eq!(
        encode(ImportType::Dynamic, ImportKind::Import),
        "Atom(\"dynamic\") Atom(\"import\")",
    );
    assert_eq!(encode(ImportType::Static, ImportKind::Export), "Atom(\"static\") Atom(\"export\")");
}
