use rust_ast_differ::granular::{compare_called_functions, get_granular_change_for_functions};
use rust_ast_differ::name_map::NameMap;
use rust_ast_differ::syntax::{DeclKind, Declaration, Expr, LitKind, Span};
use rust_ast_differ::types::{FileASTData, TypedLiteral};

fn g_call(name: &str) -> Expr {
    Expr::Call {
        func: Box::new(Expr::Path { segments: vec![name.to_string()] }),
        args: vec![],
    }
}

fn g_int(value: &str) -> Expr {
    Expr::Lit { kind: LitKind::Int, value: value.to_string() }
}

fn g_path(name: &str) -> Expr {
    Expr::Path { segments: vec![name.to_string()] }
}

fn g_body(children: Vec<Expr>) -> Expr {
    Expr::Other { children }
}

fn g_decl(name: &str, code: &str, body: Expr, line: usize) -> Declaration {
    Declaration {
        kind: DeclKind::Function,
        name: name.to_string(),
        code: code.to_string(),
        body,
        span: Span { start_line: line, start_col: 0, end_line: line + 2, end_col: 1 },
    }
}

fn g_pairs(list: &[TypedLiteral]) -> Vec<(String, String)> {
    list.iter().map(|l| (l.type_tag.clone(), l.value.clone())).collect()
}

fn g_pair(tag: &str, value: &str) -> (String, String) {
    (tag.to_string(), value.to_string())
}

fn g_file(path: &str) -> FileASTData {
    FileASTData::empty(path.to_string())
}

#[test]
fn added_and_removed_calls_are_listed_once_in_first_seen_order() {
    let a = g_decl("f", "a", g_body(vec![g_call("f"), g_call("g"), g_call("f")]), 1);
    let b = g_decl("f", "b", g_body(vec![g_call("g"), g_call("h")]), 1);
    let delta = compare_called_functions(&a, &b, &g_file("x.rs"), &g_file("x.rs"));
    assert_eq!(delta.added_functions, vec!["h"]);
    assert_eq!(delta.removed_functions, vec!["f"]);
    assert!(delta.added_literals.is_empty());
    assert!(delta.removed_literals.is_empty());
}

#[test]
fn repeated_new_calls_collapse_to_their_first_place() {
    let a = g_decl("f", "a", g_body(vec![g_call("k")]), 1);
    let b = g_decl(
        "f",
        "b",
        g_body(vec![g_call("y"), g_call("k"), g_call("x"), g_call("y"), g_call("x")]),
        1,
    );
    let delta = compare_called_functions(&a, &b, &g_file("x.rs"), &g_file("x.rs"));
    assert_eq!(delta.added_functions, vec!["y", "x"]);
    assert!(delta.removed_functions.is_empty());
}

#[test]
fn every_occurrence_of_a_removed_literal_is_listed() {
    let a = g_decl("f", "a", g_body(vec![g_int("1"), g_int("1")]), 1);
    let b = g_decl("f", "b", g_body(vec![]), 1);
    let delta = compare_called_functions(&a, &b, &g_file("x.rs"), &g_file("x.rs"));
    assert_eq!(g_pairs(&delta.removed_literals), vec![g_pair("INT", "1"), g_pair("INT", "1")]);
    assert!(delta.added_literals.is_empty());
    let back = compare_called_functions(&b, &a, &g_file("x.rs"), &g_file("x.rs"));
    assert_eq!(g_pairs(&back.added_literals), vec![g_pair("INT", "1"), g_pair("INT", "1")]);
    assert!(back.removed_literals.is_empty());
}

#[test]
fn a_literal_that_the_other_body_holds_is_not_listed() {
    let a = g_decl("f", "a", g_body(vec![g_int("1"), g_int("1")]), 1);
    let b = g_decl("f", "b", g_body(vec![g_int("1")]), 1);
    let delta = compare_called_functions(&a, &b, &g_file("x.rs"), &g_file("x.rs"));
    assert!(delta.removed_literals.is_empty());
    assert!(delta.added_literals.is_empty());
}

#[test]
fn literals_are_compared_by_tag_and_text() {
    let a = g_decl(
        "f",
        "a",
        g_body(vec![g_int("1"), Expr::Lit { kind: LitKind::Str, value: "1".to_string() }]),
        1,
    );
    let b = g_decl(
        "f",
        "b",
        g_body(vec![Expr::Lit { kind: LitKind::Float, value: "1".to_string() }, g_int("1")]),
        1,
    );
    let delta = compare_called_functions(&a, &b, &g_file("x.rs"), &g_file("x.rs"));
    assert_eq!(g_pairs(&delta.removed_literals), vec![g_pair("STRING", "1")]);
    assert_eq!(g_pairs(&delta.added_literals), vec![g_pair("FLOAT", "1")]);
}

#[test]
fn the_add_example_adds_one_literal_and_no_call() {
    let plus = |l: Expr, r: Expr| Expr::Other { children: vec![l, r] };
    let old_body = g_body(vec![plus(g_path("a"), g_path("b"))]);
    let new_body = g_body(vec![plus(plus(g_path("a"), g_path("b")), g_int("1"))]);
    let old = g_decl("add", "fn add (a , b) { a + b }", old_body, 1);
    let new = g_decl("add", "fn add (a , b) { a + b + 1 }", new_body, 1);
    let delta = compare_called_functions(&old, &new, &g_file("m.rs"), &g_file("m.rs"));
    assert_eq!(g_pairs(&delta.added_literals), vec![g_pair("INT", "1")]);
    assert!(delta.removed_literals.is_empty());
    assert!(delta.added_functions.is_empty());
    assert!(delta.removed_functions.is_empty());
}

#[test]
fn locations_are_given_also_where_nothing_changed() {
    let a = g_decl("f", "a", g_body(vec![g_call("g")]), 10);
    let b = g_decl("f", "b", g_body(vec![g_call("g")]), 20);
    let delta = compare_called_functions(&a, &b, &g_file("old/x.rs"), &g_file("new/x.rs"));
    assert!(delta.added_functions.is_empty() && delta.removed_functions.is_empty());
    assert!(delta.added_literals.is_empty() && delta.removed_literals.is_empty());
    assert_eq!(delta.old_function_src_loc.start_line, 10);
    assert_eq!(delta.old_function_src_loc.start_col, 0);
    assert_eq!(delta.old_function_src_loc.end_line, 12);
    assert_eq!(delta.old_function_src_loc.end_col, 1);
    assert_eq!(delta.old_function_src_loc.file_name, "old/x.rs");
    assert_eq!(delta.new_function_src_loc.start_line, 20);
    assert_eq!(delta.new_function_src_loc.end_line, 22);
    assert_eq!(delta.new_function_src_loc.file_name, "new/x.rs");
}

#[test]
fn a_function_compared_with_itself_has_no_delta() {
    let a = g_decl("f", "a", g_body(vec![g_call("g"), g_int("1"), g_call("g")]), 1);
    let delta = compare_called_functions(&a, &a, &g_file("x.rs"), &g_file("x.rs"));
    assert!(delta.added_functions.is_empty() && delta.removed_functions.is_empty());
    assert!(delta.added_literals.is_empty() && delta.removed_literals.is_empty());
}

fn g_snapshot(path: &str, functions: Vec<Declaration>, methods: Vec<(&str, Declaration)>) -> FileASTData {
    let mut ast = FileASTData::new(path.to_string(), String::new());
    for d in functions {
        ast.functions.insert(d.name.clone(), d);
    }
    for (k, d) in methods {
        ast.methods.insert(k.to_string(), d);
    }
    ast
}

#[test]
fn a_run_lists_the_functions_and_methods_whose_text_changed() {
    let mut old = NameMap::new();
    old.insert(
        "a.rs".to_string(),
        g_snapshot(
            "old/a.rs",
            vec![
                g_decl("same", "fn same () { g () }", g_body(vec![g_call("g")]), 1),
                g_decl("edit", "fn edit () { g () }", g_body(vec![g_call("g")]), 5),
                g_decl("gone", "fn gone () { }", g_body(vec![]), 9),
            ],
            vec![("T.m", g_decl("m", "fn m () { 1 }", g_body(vec![g_int("1")]), 20))],
        ),
    );
    old.insert(
        "b.rs".to_string(),
        g_snapshot("old/b.rs", vec![g_decl("f", "fn f () { }", g_body(vec![]), 1)], vec![]),
    );
    let mut new = NameMap::new();
    new.insert(
        "a.rs".to_string(),
        g_snapshot(
            "new/a.rs",
            vec![
                g_decl("edit", "fn edit () { h () }", g_body(vec![g_call("h")]), 6),
                g_decl("same", "fn same () { g () }", g_body(vec![g_call("g")]), 1),
                g_decl("fresh", "fn fresh () { }", g_body(vec![]), 12),
            ],
            vec![("T.m", g_decl("m", "fn m () { 2 }", g_body(vec![g_int("2")]), 22))],
        ),
    );
    new.insert(
        "b.rs".to_string(),
        g_snapshot("new/b.rs", vec![g_decl("f", "fn f () { }", g_body(vec![]), 1)], vec![]),
    );
    let files = vec!["a.rs".to_string(), "b.rs".to_string(), "c.rs".to_string(), "a.rs".to_string()];
    let granular = get_granular_change_for_functions(&files, &old, &new);
    assert_eq!(granular.len(), 1);
    assert_eq!(granular.entries[0].0, "a.rs");
    let changes = &granular.entries[0].1;
    assert_eq!(changes.len(), 2);
    assert_eq!(changes.entries[0].0, "edit");
    assert_eq!(changes.entries[0].1.added_functions, vec!["h"]);
    assert_eq!(changes.entries[0].1.removed_functions, vec!["g"]);
    assert_eq!(changes.entries[0].1.old_function_src_loc.file_name, "old/a.rs");
    assert_eq!(changes.entries[0].1.old_function_src_loc.start_line, 5);
    assert_eq!(changes.entries[0].1.new_function_src_loc.file_name, "new/a.rs");
    assert_eq!(changes.entries[0].1.new_function_src_loc.start_line, 6);
    assert_eq!(changes.entries[1].0, "T.m");
    assert_eq!(g_pairs(&changes.entries[1].1.added_literals), vec![g_pair("INT", "2")]);
    assert_eq!(g_pairs(&changes.entries[1].1.removed_literals), vec![g_pair("INT", "1")]);
}

#[test]
fn a_run_without_changed_functions_lists_nothing() {
    let mut old = NameMap::new();
    old.insert(
        "a.rs".to_string(),
        g_snapshot("a.rs", vec![g_decl("f", "fn f () { }", g_body(vec![]), 1)], vec![]),
    );
    let new: NameMap<FileASTData> = NameMap::new();
    let granular = get_granular_change_for_functions(&vec!["a.rs".to_string()], &old, &new);
    assert!(granular.is_empty());
}
