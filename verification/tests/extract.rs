use rust_ast_differ::ast_parser::{
    extract_file_ast, extract_module_name, snapshot_or_empty, ExtractError,
};
use rust_ast_differ::name_map::NameMap;
use rust_ast_differ::syntax::{
    DeclKind, Declaration, Expr, ImplMember, LitKind, ParseOutcome, SelfType, SourceFile,
    SourceItem, Span,
};

fn x_decl(kind: DeclKind, name: &str, code: &str) -> Declaration {
    Declaration {
        kind,
        name: name.to_string(),
        code: code.to_string(),
        body: Expr::Other { children: vec![Expr::Lit { kind: LitKind::Int, value: name.len().to_string() }] },
        span: Span { start_line: 2, start_col: 0, end_line: 4, end_col: 1 },
    }
}

fn x_named(kind: DeclKind, name: &str, code: &str) -> SourceItem {
    SourceItem::Named(x_decl(kind, name, code))
}

fn x_impl(self_type: SelfType, members: Vec<ImplMember>) -> SourceItem {
    SourceItem::Impl { self_type, members }
}

fn x_path(segments: &[&str]) -> SelfType {
    SelfType::Path { segments: segments.iter().map(|s| s.to_string()).collect() }
}

fn x_method(name: &str, code: &str) -> ImplMember {
    ImplMember::Function(x_decl(DeclKind::Function, name, code))
}

fn x_parsed(content: &str, items: Vec<SourceItem>) -> ParseOutcome {
    ParseOutcome::Parsed { content: content.to_string(), file: SourceFile { items } }
}

fn x_keys(map: &NameMap<Declaration>) -> Vec<String> {
    map.entries.iter().map(|e| e.0.clone()).collect()
}

fn x_codes(map: &NameMap<Declaration>) -> Vec<String> {
    map.entries.iter().map(|e| e.1.code.clone()).collect()
}

#[test]
fn items_go_to_the_map_of_their_category() {
    let outcome = x_parsed(
        "text of the file",
        vec![
            x_named(DeclKind::Function, "run", "fn run () { }"),
            x_named(DeclKind::Struct, "Point", "struct Point ;"),
            SourceItem::Other,
            x_named(DeclKind::Trait, "Shape", "trait Shape { }"),
            x_named(DeclKind::Enum, "Color", "enum Color { }"),
            SourceItem::Module { name: "inner".to_string() },
            x_named(DeclKind::TypeAlias, "Id", "type Id = u32 ;"),
            x_named(DeclKind::Function, "stop", "fn stop () { }"),
        ],
    );
    let ast = extract_file_ast("src/a.rs", outcome).unwrap();
    assert_eq!(ast.file_path, "src/a.rs");
    assert_eq!(ast.file_content, "text of the file");
    assert_eq!(x_keys(&ast.functions), vec!["run", "stop"]);
    assert_eq!(x_keys(&ast.types), vec!["Point", "Color", "Id"]);
    assert_eq!(x_keys(&ast.interfaces), vec!["Shape"]);
    assert!(ast.methods.is_empty());
    assert_eq!(ast.types.entries[0].1.kind, DeclKind::Struct);
    assert_eq!(ast.types.entries[1].1.kind, DeclKind::Enum);
    assert_eq!(ast.types.entries[2].1.kind, DeclKind::TypeAlias);
    assert_eq!(ast.functions.entries[1].1.code, "fn stop () { }");
    assert_eq!(ast.functions.entries[1].1.span.end_line, 4);
}

#[test]
fn methods_are_named_after_the_type_and_the_function() {
    let outcome = x_parsed(
        "",
        vec![
            x_impl(
                x_path(&["Point"]),
                vec![
                    x_method("new", "fn new () -> Self { }"),
                    ImplMember::Other,
                    x_method("distance", "fn distance (& self) { }"),
                ],
            ),
            x_impl(x_path(&["geo", "Circle"]), vec![x_method("area", "fn area (& self) { }")]),
        ],
    );
    let ast = extract_file_ast("a.rs", outcome).unwrap();
    assert_eq!(x_keys(&ast.methods), vec!["Point.new", "Point.distance", "Circle.area"]);
    assert_eq!(ast.methods.entries[1].1.name, "distance");
    assert_eq!(ast.methods.entries[1].1.code, "fn distance (& self) { }");
    assert!(ast.functions.is_empty());
    assert!(ast.types.is_empty());
    assert!(ast.interfaces.is_empty());
}

#[test]
fn a_block_for_a_type_without_a_simple_name_is_passed_over() {
    let outcome = x_parsed(
        "",
        vec![
            x_named(DeclKind::Struct, "Point", "struct Point ;"),
            x_impl(SelfType::Other, vec![x_method("distance", "fn distance (& self) { }")]),
            x_impl(x_path(&[]), vec![x_method("norm", "fn norm (& self) { }")]),
            x_named(DeclKind::Function, "after", "fn after () { }"),
        ],
    );
    let result = extract_file_ast("a.rs", outcome);
    assert!(result.is_ok());
    let ast = result.unwrap();
    assert!(ast.methods.is_empty());
    assert!(!ast.methods.contains_key(&"Point.distance".to_string()));
    assert_eq!(x_keys(&ast.types), vec!["Point"]);
    assert_eq!(x_keys(&ast.functions), vec!["after"]);
}

#[test]
fn a_later_declaration_replaces_an_earlier_one_of_its_name() {
    let outcome = x_parsed(
        "",
        vec![
            x_named(DeclKind::Function, "f", "fn f () { 1 }"),
            x_named(DeclKind::Function, "g", "fn g () { }"),
            x_named(DeclKind::Function, "f", "fn f () { 2 }"),
            x_named(DeclKind::Struct, "T", "struct T ;"),
            x_named(DeclKind::Enum, "T", "enum T { }"),
            x_impl(x_path(&["T"]), vec![x_method("m", "fn m () { 1 }")]),
            x_impl(x_path(&["T"]), vec![x_method("m", "fn m () { 2 }"), x_method("n", "fn n () { }")]),
        ],
    );
    let ast = extract_file_ast("a.rs", outcome).unwrap();
    assert_eq!(x_keys(&ast.functions), vec!["f", "g"]);
    assert_eq!(x_codes(&ast.functions), vec!["fn f () { 2 }", "fn g () { }"]);
    assert_eq!(x_keys(&ast.types), vec!["T"]);
    assert_eq!(ast.types.entries[0].1.kind, DeclKind::Enum);
    assert_eq!(x_keys(&ast.methods), vec!["T.m", "T.n"]);
    assert_eq!(x_codes(&ast.methods), vec!["fn m () { 2 }", "fn n () { }"]);
}

#[test]
fn a_file_without_items_gives_an_empty_snapshot() {
    let ast = extract_file_ast("e.rs", x_parsed("// nothing", vec![])).unwrap();
    assert!(ast.functions.is_empty() && ast.types.is_empty());
    assert!(ast.interfaces.is_empty() && ast.methods.is_empty());
    assert_eq!(ast.file_content, "// nothing");
}

#[test]
fn a_missing_file_is_not_found() {
    let r = extract_file_ast("a.rs", ParseOutcome::Missing { reason: "no such file".to_string() });
    match r {
        Err(ExtractError::NotFound(reason)) => assert_eq!(reason, "no such file"),
        _ => panic!("expected NotFound"),
    }
    let e = ExtractError::NotFound("no such file".to_string());
    assert_eq!(e.message(), "File not found: no such file");
}

#[test]
fn an_unreadable_file_is_reported_as_such() {
    let r = extract_file_ast("a.rs", ParseOutcome::Unreadable { reason: "denied".to_string() });
    match r {
        Err(ExtractError::Unreadable(reason)) => assert_eq!(reason, "denied"),
        _ => panic!("expected Unreadable"),
    }
    let e = ExtractError::Unreadable("denied".to_string());
    assert_eq!(e.message(), "File couldn't be read: denied");
}

#[test]
fn a_malformed_file_is_a_parse_error() {
    let r = extract_file_ast("a.rs", ParseOutcome::Malformed { reason: "expected `;`".to_string() });
    match r {
        Err(ExtractError::ParseError(reason)) => assert_eq!(reason, "expected `;`"),
        _ => panic!("expected ParseError"),
    }
    let e = ExtractError::ParseError("expected `;`".to_string());
    assert_eq!(e.message(), "Parsing error: expected `;`");
}

#[test]
fn module_name_is_the_first_declared_module() {
    let file = SourceFile {
        items: vec![
            x_named(DeclKind::Function, "f", "fn f () { }"),
            SourceItem::Module { name: "first".to_string() },
            SourceItem::Module { name: "second".to_string() },
        ],
    };
    assert_eq!(extract_module_name(Some(&file), Some("dir")), "first");
    assert_eq!(extract_module_name(Some(&file), None), "first");
}

#[test]
fn module_name_falls_back_to_the_directory_and_then_to_unknown() {
    let file = SourceFile { items: vec![x_named(DeclKind::Function, "f", "fn f () { }")] };
    assert_eq!(extract_module_name(Some(&file), Some("dir")), "dir");
    assert_eq!(extract_module_name(None, Some("dir")), "dir");
    assert_eq!(extract_module_name(Some(&file), None), "unknown");
    assert_eq!(extract_module_name(None, None), "unknown");
}

#[test]
fn a_failed_extraction_goes_on_with_an_empty_snapshot() {
    let failed = extract_file_ast("repo/a.rs", ParseOutcome::Malformed { reason: "bad".to_string() });
    let ast = snapshot_or_empty("a.rs", failed);
    assert_eq!(ast.file_path, "a.rs");
    assert_eq!(ast.file_content, "");
    assert!(ast.functions.is_empty() && ast.types.is_empty());
    assert!(ast.interfaces.is_empty() && ast.methods.is_empty());

    let parsed = extract_file_ast(
        "repo/a.rs",
        x_parsed("fn f() {}", vec![x_named(DeclKind::Function, "f", "fn f () { }")]),
    );
    let ast = snapshot_or_empty("a.rs", parsed);
    assert_eq!(ast.file_path, "repo/a.rs");
    assert_eq!(ast.file_content, "fn f() {}");
    assert_eq!(x_keys(&ast.functions), vec!["f"]);
}
