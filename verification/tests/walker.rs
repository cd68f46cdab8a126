use rust_ast_differ::ast_parser::{
    extract_function_calls, extract_literals, format_node, get_source_location, remove_duplicates,
};
use rust_ast_differ::syntax::{DeclKind, Declaration, Expr, LitKind, Span};
use rust_ast_differ::types::{FunctionCallVisitor, LiteralVisitor, TypedLiteral};

fn w_path(segments: &[&str]) -> Expr {
    Expr::Path { segments: segments.iter().map(|s| s.to_string()).collect() }
}

fn w_call(func: Expr, args: Vec<Expr>) -> Expr {
    Expr::Call { func: Box::new(func), args }
}

fn w_method(receiver: Expr, method: &str, args: Vec<Expr>) -> Expr {
    Expr::MethodCall { receiver: Box::new(receiver), method: method.to_string(), args }
}

fn w_field(base: Expr, member: &str) -> Expr {
    Expr::Field { base: Box::new(base), member: member.to_string() }
}

fn w_lit(kind: LitKind, value: &str) -> Expr {
    Expr::Lit { kind, value: value.to_string() }
}

fn w_other(children: Vec<Expr>) -> Expr {
    Expr::Other { children }
}

fn w_calls(e: &Expr) -> Vec<String> {
    let mut v = FunctionCallVisitor::new();
    v.visit_expr(e);
    v.calls
}

fn w_literals(e: &Expr) -> Vec<(String, String)> {
    let mut v = LiteralVisitor::new();
    v.visit_expr(e);
    v.literals.into_iter().map(|l: TypedLiteral| (l.type_tag, l.value)).collect()
}

fn w_pair(tag: &str, value: &str) -> (String, String) {
    (tag.to_string(), value.to_string())
}

fn w_decl(body: Expr) -> Declaration {
    Declaration {
        kind: DeclKind::Function,
        name: "f".to_string(),
        code: "fn f () { }".to_string(),
        body,
        span: Span { start_line: 1, start_col: 0, end_line: 1, end_col: 11 },
    }
}

#[test]
fn direct_call_is_labelled_by_its_whole_path() {
    let e = w_call(w_path(&["module", "func"]), vec![]);
    assert_eq!(w_calls(&e), vec!["module::func"]);
    let e = w_call(w_path(&["f"]), vec![]);
    assert_eq!(w_calls(&e), vec!["f"]);
    let e = w_call(w_path(&["a", "b", "c"]), vec![]);
    assert_eq!(w_calls(&e), vec!["a::b::c"]);
}

#[test]
fn call_of_an_empty_path_has_no_label() {
    let e = w_call(w_path(&[]), vec![w_call(w_path(&["g"]), vec![])]);
    assert_eq!(w_calls(&e), vec!["g"]);
}

#[test]
fn method_call_on_a_name() {
    let e = w_method(w_path(&["point"]), "distance", vec![]);
    assert_eq!(w_calls(&e), vec!["point.distance"]);
    let e = w_method(w_path(&["a", "b"]), "m", vec![]);
    assert_eq!(w_calls(&e), vec!["b.m"]);
    let e = w_method(w_path(&[]), "m", vec![]);
    assert_eq!(w_calls(&e), vec!["m"]);
}

#[test]
fn method_call_on_a_field() {
    let e = w_method(w_field(w_path(&["self"]), "items"), "len", vec![]);
    assert_eq!(w_calls(&e), vec!["field.items.len"]);
    let e = w_method(w_field(w_path(&["pair"]), "0"), "clone", vec![]);
    assert_eq!(w_calls(&e), vec!["field.0.clone"]);
}

#[test]
fn method_call_on_a_method_call() {
    let inner = w_method(w_path(&["a"]), "b", vec![]);
    let e = w_method(inner, "c", vec![]);
    assert_eq!(w_calls(&e), vec!["chain.b.c", "a.b"]);
}

#[test]
fn method_call_on_anything_else() {
    let e = w_method(w_lit(LitKind::Str, "x"), "len", vec![]);
    assert_eq!(w_calls(&e), vec!["expr.len"]);
    let e = w_method(w_call(w_path(&["make"]), vec![]), "run", vec![]);
    assert_eq!(w_calls(&e), vec!["expr.run", "make"]);
}

#[test]
fn call_through_a_field() {
    let e = w_call(w_field(w_path(&["handlers"]), "on_click"), vec![]);
    assert_eq!(w_calls(&e), vec!["handlers.on_click"]);
    let e = w_call(w_field(w_call(w_path(&["get"]), vec![]), "on_click"), vec![]);
    assert_eq!(w_calls(&e), vec!["expr.on_click", "get"]);
    let e = w_call(w_field(w_path(&[]), "cb"), vec![]);
    assert_eq!(w_calls(&e), Vec::<String>::new());
}

#[test]
fn macro_invocation() {
    let e = Expr::Macro { path: vec!["println".to_string()] };
    assert_eq!(w_calls(&e), vec!["macro!println"]);
    let e = Expr::Macro { path: vec!["std".to_string(), "vec".to_string()] };
    assert_eq!(w_calls(&e), vec!["macro!vec"]);
    let e = Expr::Macro { path: vec![] };
    assert_eq!(w_calls(&e), Vec::<String>::new());
}

#[test]
fn any_other_callee_is_a_complex_call() {
    let e = w_call(w_call(w_path(&["f"]), vec![]), vec![]);
    assert_eq!(w_calls(&e), vec!["complex_call", "f"]);
    let e = w_call(w_other(vec![]), vec![w_lit(LitKind::Int, "1")]);
    assert_eq!(w_calls(&e), vec!["complex_call"]);
}

#[test]
fn calls_nested_in_arguments_are_recorded_in_pre_order() {
    let e = w_call(
        w_path(&["f"]),
        vec![
            w_call(w_path(&["g"]), vec![w_call(w_path(&["h"]), vec![])]),
            w_method(w_path(&["x"]), "m", vec![w_call(w_path(&["k"]), vec![])]),
        ],
    );
    assert_eq!(w_calls(&e), vec!["f", "g", "h", "x.m", "k"]);
}

#[test]
fn calls_below_other_nodes_are_found() {
    let e = w_other(vec![
        w_path(&["a"]),
        w_other(vec![w_call(w_path(&["f"]), vec![])]),
        Expr::Struct {
            path: vec!["P".to_string()],
            fields: vec![w_call(w_path(&["g"]), vec![])],
        },
        Expr::Array { elems: vec![w_call(w_path(&["h"]), vec![])] },
        Expr::Tuple { elems: vec![w_call(w_path(&["i"]), vec![])] },
        w_field(w_call(w_path(&["j"]), vec![]), "x"),
    ]);
    assert_eq!(w_calls(&e), vec!["f", "g", "h", "i", "j"]);
}

#[test]
fn the_visitor_appends_to_what_it_holds() {
    let mut v = FunctionCallVisitor { calls: vec!["first".to_string()] };
    v.visit_expr(&w_call(w_path(&["f"]), vec![]));
    v.visit_exprs(&vec![w_call(w_path(&["g"]), vec![]), w_call(w_path(&["h"]), vec![])]);
    assert_eq!(v.calls, vec!["first", "f", "g", "h"]);
}

#[test]
fn each_kind_of_literal_has_its_tag() {
    let cases = vec![
        (LitKind::Str, "STRING"),
        (LitKind::Int, "INT"),
        (LitKind::Float, "FLOAT"),
        (LitKind::Bool, "BOOL"),
        (LitKind::Char, "CHAR"),
        (LitKind::Byte, "BYTE"),
        (LitKind::ByteStr, "BYTE_STR"),
        (LitKind::CStr, "CSTR"),
        (LitKind::Verbatim, "VERBATIM"),
    ];
    for (kind, tag) in cases {
        let e = w_lit(kind, "v");
        assert_eq!(w_literals(&e), vec![w_pair(tag, "v")]);
    }
}

#[test]
fn literal_text_is_kept_as_it_is() {
    let e = w_other(vec![w_lit(LitKind::Int, "42"), w_lit(LitKind::Float, "3.14")]);
    assert_eq!(w_literals(&e), vec![w_pair("INT", "42"), w_pair("FLOAT", "3.14")]);
}

#[test]
fn struct_literal_gives_one_entry_and_its_fields() {
    let e = Expr::Struct {
        path: vec!["geo".to_string(), "Point".to_string()],
        fields: vec![w_lit(LitKind::Int, "1"), w_lit(LitKind::Int, "2")],
    };
    assert_eq!(
        w_literals(&e),
        vec![
            w_pair("CompositeLit:Point", "struct-literal"),
            w_pair("INT", "1"),
            w_pair("INT", "2"),
        ]
    );
    let e = Expr::Struct { path: vec![], fields: vec![w_lit(LitKind::Int, "1")] };
    assert_eq!(w_literals(&e), vec![w_pair("INT", "1")]);
}

#[test]
fn array_and_tuple_literals_give_one_entry_and_their_elements() {
    let e = Expr::Array {
        elems: vec![
            w_lit(LitKind::Int, "1"),
            Expr::Tuple { elems: vec![w_lit(LitKind::Str, "x"), w_lit(LitKind::Bool, "true")] },
        ],
    };
    assert_eq!(
        w_literals(&e),
        vec![
            w_pair("CompositeLit:Array", "array-literal"),
            w_pair("INT", "1"),
            w_pair("CompositeLit:Tuple", "tuple-literal"),
            w_pair("STRING", "x"),
            w_pair("BOOL", "true"),
        ]
    );
}

#[test]
fn literals_in_calls_are_found() {
    let e = w_call(
        w_field(w_lit(LitKind::Int, "0"), "f"),
        vec![w_method(w_lit(LitKind::Str, "s"), "len", vec![w_lit(LitKind::Char, "c")])],
    );
    assert_eq!(
        w_literals(&e),
        vec![w_pair("INT", "0"), w_pair("STRING", "s"), w_pair("CHAR", "c")]
    );
    assert_eq!(w_literals(&Expr::Macro { path: vec!["m".to_string()] }), vec![]);
    assert_eq!(w_literals(&w_path(&["a"])), vec![]);
}

#[test]
fn the_literal_visitor_appends_to_what_it_holds() {
    let mut v = LiteralVisitor {
        literals: vec![TypedLiteral { type_tag: "INT".to_string(), value: "0".to_string() }],
    };
    v.visit_lit(LitKind::Bool, &"false".to_string());
    v.visit_exprs(&vec![w_lit(LitKind::Int, "1"), w_lit(LitKind::Int, "2")]);
    let got: Vec<(String, String)> =
        v.literals.into_iter().map(|l| (l.type_tag, l.value)).collect();
    assert_eq!(
        got,
        vec![w_pair("INT", "0"), w_pair("BOOL", "false"), w_pair("INT", "1"), w_pair("INT", "2")]
    );
}

#[test]
fn extraction_walks_the_body_of_a_declaration() {
    let d = w_decl(w_other(vec![
        w_call(w_path(&["f"]), vec![w_lit(LitKind::Int, "7")]),
        w_call(w_path(&["f"]), vec![]),
    ]));
    assert_eq!(extract_function_calls(&d), vec!["f", "f"]);
    let lits: Vec<(String, String)> =
        extract_literals(&d).into_iter().map(|l| (l.type_tag, l.value)).collect();
    assert_eq!(lits, vec![w_pair("INT", "7")]);
    assert_eq!(format_node(&d), "fn f () { }");
}

#[test]
fn remove_duplicates_keeps_first_occurrences() {
    let v = vec!["f", "g", "f", "h", "g", "f"].into_iter().map(String::from).collect();
    assert_eq!(remove_duplicates(v), vec!["f", "g", "h"]);
    assert_eq!(remove_duplicates(vec![]), Vec::<String>::new());
    let v = vec!["a".to_string(), "a".to_string()];
    assert_eq!(remove_duplicates(v), vec!["a"]);
}

#[test]
fn source_location_takes_the_span_and_the_file() {
    let span = Span { start_line: 3, start_col: 4, end_line: 9, end_col: 1 };
    let loc = get_source_location(span, "src/lib.rs");
    assert_eq!(loc.start_line, 3);
    assert_eq!(loc.start_col, 4);
    assert_eq!(loc.end_line, 9);
    assert_eq!(loc.end_col, 1);
    assert_eq!(loc.file_name, "src/lib.rs");
}

#[test]
fn typed_literal_clone_keeps_both_fields() {
    let l = TypedLiteral { type_tag: "INT".to_string(), value: "1".to_string() };
    let c = l.clone();
    assert_eq!(c.type_tag, "INT");
    assert_eq!(c.value, "1");
}
