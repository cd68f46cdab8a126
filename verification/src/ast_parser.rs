//! Reading a syntax tree: the declarations of a file, and the labels of the
//! calls and the literals below a declaration.
use crate::name_map::{
    last_bound,
    lemma_put_all,
    lemma_put_all_add,
    lemma_put_all_lookup,
    lemma_put_all_push,
    lookup,
    put_all,
};
use crate::syntax::{
    category_of,
    Category,
    DeclKind,
    Declaration,
    Expr,
    ImplMember,
    LitKind,
    ParseOutcome,
    SelfType,
    SourceFile,
    SourceItem,
    Span,
};
use crate::types::{
    FileASTData,
    FileASTDataView,
    FunctionCallVisitor,
    LiteralVisitor,
    SourceLocation,
    TypedLiteral,
};
use vstd::prelude::*;

verus! {

/// Nothing or one element, as a sequence.
pub open spec fn optional<A>(o: Option<A>) -> Seq<A> {
    match o {
        Some(a) => seq![a],
        None => Seq::empty(),
    }
}

/// The segments of a path joined by `::`.
pub open spec fn join_path(segments: Seq<String>) -> Seq<char>
    decreases segments.len(),
{
    if segments.len() == 0 {
        Seq::empty()
    } else if segments.len() == 1 {
        segments[0]@
    } else {
        join_path(segments.drop_last()) + "::"@ + segments.last()@
    }
}

/// The label of a call through a field, `base.member(..)`: the last segment
/// of the base and the member where the base is a path, `expr.` and the
/// member where it is anything else. A path without segments gives no label.
pub open spec fn field_call_label(base: Expr, member: Seq<char>) -> Option<Seq<char>> {
    match base {
        Expr::Path { segments } => if segments@.len() > 0 {
            Some(segments@.last()@ + "."@ + member)
        } else {
            None
        },
        _ => Some("expr."@ + member),
    }
}

/// The label of a call `func(..)`: the whole path where `func` is a path,
/// the label of a call through a field where it is a field access, and
/// `complex_call` for any other callee. A path without segments gives no
/// label.
pub open spec fn call_label(func: Expr) -> Option<Seq<char>> {
    match func {
        Expr::Path { segments } => if segments@.len() > 0 {
            Some(join_path(segments@))
        } else {
            None
        },
        Expr::Field { base, member } => field_call_label(*base, member@),
        _ => Some("complex_call"@),
    }
}

/// The label of a method call `receiver.method(..)`, by the shape of the
/// receiver: a path gives its last segment, a field access `field.` and the
/// field, a method call `chain.` and that call's method, anything else
/// `expr`; the method's name follows after a dot.
pub open spec fn method_call_label(receiver: Expr, method: Seq<char>) -> Seq<char> {
    match receiver {
        Expr::Path { segments } => if segments@.len() > 0 {
            segments@.last()@ + "."@ + method
        } else {
            method
        },
        Expr::Field { base, member } => "field."@ + member@ + "."@ + method,
        Expr::MethodCall { receiver: inner, method: inner_method, args } => "chain."@
            + inner_method@ + "."@ + method,
        _ => "expr."@ + method,
    }
}

/// The label of a macro invocation: `macro!` and the last segment of the
/// macro's path.
pub open spec fn macro_label(path: Seq<String>) -> Option<Seq<char>> {
    if path.len() > 0 {
        Some("macro!"@ + path.last()@)
    } else {
        None
    }
}

/// The label that a node contributes by itself.
pub open spec fn node_label(e: Expr) -> Option<Seq<char>> {
    match e {
        Expr::Call { func, args } => call_label(*func),
        Expr::MethodCall { receiver, method, args } => Some(
            method_call_label(*receiver, method@),
        ),
        Expr::Macro { path } => macro_label(path@),
        _ => None,
    }
}

/// The labels of the calls in `e`, in pre-order: the label of a node comes
/// before those of the expressions below it, and these come in source order.
pub open spec fn calls_of(e: Expr) -> Seq<Seq<char>>
    decreases e,
{
    optional(node_label(e)) + match e {
        Expr::Call { func, args } => calls_of(*func) + calls_of_all(args@),
        Expr::MethodCall { receiver, method, args } => calls_of(*receiver) + calls_of_all(args@),
        Expr::Field { base, member } => calls_of(*base),
        Expr::Struct { path, fields } => calls_of_all(fields@),
        Expr::Array { elems } => calls_of_all(elems@),
        Expr::Tuple { elems } => calls_of_all(elems@),
        Expr::Other { children } => calls_of_all(children@),
        Expr::Path { segments } => Seq::empty(),
        Expr::Macro { path } => Seq::empty(),
        Expr::Lit { kind, value } => Seq::empty(),
    }
}

/// The labels of the calls in each of `es`, one expression after the other.
pub open spec fn calls_of_all(es: Seq<Expr>) -> Seq<Seq<char>>
    decreases es,
{
    if es.len() == 0 {
        Seq::empty()
    } else {
        calls_of_all(es.drop_last()) + calls_of(es.last())
    }
}

/// The tag under which a literal of the given kind is reported.
pub open spec fn lit_tag(kind: LitKind) -> Seq<char> {
    match kind {
        LitKind::Str => "STRING"@,
        LitKind::ByteStr => "BYTE_STR"@,
        LitKind::CStr => "CSTR"@,
        LitKind::Byte => "BYTE"@,
        LitKind::Char => "CHAR"@,
        LitKind::Int => "INT"@,
        LitKind::Float => "FLOAT"@,
        LitKind::Bool => "BOOL"@,
        LitKind::Verbatim => "VERBATIM"@,
    }
}

/// The entry that stands for a struct literal of the type at `path`: the
/// last segment names the type. A path without segments gives no entry.
pub open spec fn struct_literal(path: Seq<String>) -> Option<(Seq<char>, Seq<char>)> {
    if path.len() > 0 {
        Some(("CompositeLit:"@ + path.last()@, "struct-literal"@))
    } else {
        None
    }
}

/// The literal that a node contributes by itself: a literal its tag and
/// text, a struct, array or tuple literal one entry that stands for the
/// aggregate.
pub open spec fn node_literal(e: Expr) -> Option<(Seq<char>, Seq<char>)> {
    match e {
        Expr::Lit { kind, value } => Some((lit_tag(kind), value@)),
        Expr::Struct { path, fields } => struct_literal(path@),
        Expr::Array { elems } => Some(("CompositeLit:Array"@, "array-literal"@)),
        Expr::Tuple { elems } => Some(("CompositeLit:Tuple"@, "tuple-literal"@)),
        _ => None,
    }
}

/// The literals in `e`, in pre-order.
pub open spec fn literals_of(e: Expr) -> Seq<(Seq<char>, Seq<char>)>
    decreases e,
{
    optional(node_literal(e)) + match e {
        Expr::Call { func, args } => literals_of(*func) + literals_of_all(args@),
        Expr::MethodCall { receiver, method, args } => literals_of(*receiver) + literals_of_all(
            args@,
        ),
        Expr::Field { base, member } => literals_of(*base),
        Expr::Struct { path, fields } => literals_of_all(fields@),
        Expr::Array { elems } => literals_of_all(elems@),
        Expr::Tuple { elems } => literals_of_all(elems@),
        Expr::Other { children } => literals_of_all(children@),
        Expr::Path { segments } => Seq::empty(),
        Expr::Macro { path } => Seq::empty(),
        Expr::Lit { kind, value } => Seq::empty(),
    }
}

/// The literals in each of `es`, one expression after the other.
pub open spec fn literals_of_all(es: Seq<Expr>) -> Seq<(Seq<char>, Seq<char>)>
    decreases es,
{
    if es.len() == 0 {
        Seq::empty()
    } else {
        literals_of_all(es.drop_last()) + literals_of(es.last())
    }
}

/// `s` without the repeats of its elements: each element stays where it
/// first stood.
pub open spec fn dedup(s: Seq<Seq<char>>) -> Seq<Seq<char>>
    decreases s.len(),
{
    if s.len() == 0 {
        s
    } else {
        let rest = dedup(s.drop_last());
        if rest.contains(s.last()) {
            rest
        } else {
            rest.push(s.last())
        }
    }
}

/// `dedup` keeps exactly the elements of its argument, each once.
pub proof fn lemma_dedup(s: Seq<Seq<char>>)
    ensures
        dedup(s).no_duplicates(),
        forall|x: Seq<char>| #[trigger] dedup(s).contains(x) <==> s.contains(x),
        dedup(s).len() <= s.len(),
    decreases s.len(),
{
    if s.len() > 0 {
        let front = s.drop_last();
        lemma_dedup(front);
        let rest = dedup(front);
        assert forall|x: Seq<char>| #[trigger] dedup(s).contains(x) <==> s.contains(x) by {
            if s.contains(x) {
                let i = choose|i: int| 0 <= i < s.len() && s[i] == x;
                if i < s.len() - 1 {
                    assert(front[i] == x);
                    assert(rest.contains(x));
                    let j = choose|j: int| 0 <= j < rest.len() && rest[j] == x;
                    assert(dedup(s)[j] == x);
                } else if !rest.contains(x) {
                    assert(dedup(s)[rest.len() as int] == x);
                }
            }
            if dedup(s).contains(x) {
                let j = choose|j: int| 0 <= j < dedup(s).len() && dedup(s)[j] == x;
                if j < rest.len() {
                    assert(rest[j] == x);
                    assert(rest.contains(x));
                    assert(front.contains(x));
                    let i = choose|i: int| 0 <= i < front.len() && front[i] == x;
                    assert(s[i] == x);
                } else {
                    assert(s[s.len() - 1] == x);
                }
            }
        }
    }
}

/// Appends `b` to a copy of `a`.
fn concat2(a: &str, b: &str) -> (s: String)
    ensures
        s@ == a@ + b@,
{
    let mut s = String::from_str(a);
    s.append(b);
    s
}

/// The segments of a path joined by `::`.
fn join_segments(segments: &Vec<String>) -> (s: String)
    ensures
        s@ == join_path(segments@),
{
    let mut out = String::new();
    let mut i: usize = 0;
    while i < segments.len()
        invariant
            i <= segments.len(),
            out@ == join_path(segments@.take(i as int)),
        decreases segments.len() - i,
    {
        if i > 0 {
            out.append("::");
        }
        out.append(segments[i].as_str());
        proof {
            let t = segments@.take(i + 1);
            assert(t.drop_last() =~= segments@.take(i as int));
            assert(t.last() == segments@[i as int]);
            assert(out@ =~= join_path(t));
        }
        i = i + 1;
    }
    assert(segments@.take(i as int) =~= segments@);
    out
}

/// Whether `v` holds a string equal to `s`.
pub(crate) fn contains_string(v: &Vec<String>, s: &String) -> (b: bool)
    ensures
        b == v.deep_view().contains(s@),
{
    let mut i: usize = 0;
    while i < v.len()
        invariant
            i <= v.len(),
            forall|j: int| 0 <= j < i ==> v.deep_view()[j] != s@,
        decreases v.len() - i,
    {
        if v[i] == *s {
            assert(v.deep_view()[i as int] == s@);
            return true;
        }
        i = i + 1;
    }
    false
}

/// Removes the repeats from a list of strings: each string stays where it
/// first stood.
pub fn remove_duplicates(strings: Vec<String>) -> (result: Vec<String>)
    ensures
        result.deep_view() == dedup(strings.deep_view()),
        result.deep_view().no_duplicates(),
        forall|x: Seq<char>| #[trigger]
            result.deep_view().contains(x) <==> strings.deep_view().contains(x),
{
    let mut result: Vec<String> = Vec::new();
    let mut i: usize = 0;
    assert(strings.deep_view().take(0) =~= Seq::<Seq<char>>::empty());
    while i < strings.len()
        invariant
            i <= strings.len(),
            result.deep_view() == dedup(strings.deep_view().take(i as int)),
        decreases strings.len() - i,
    {
        let seen = contains_string(&result, &strings[i]);
        proof {
            let t = strings.deep_view().take(i + 1);
            assert(t.drop_last() =~= strings.deep_view().take(i as int));
            assert(t.last() == strings[i as int]@);
        }
        if !seen {
            let ghost before = result.deep_view();
            result.push(strings[i].clone());
            assert(result.deep_view() =~= before.push(strings[i as int]@));
        }
        i = i + 1;
    }
    proof {
        assert(strings.deep_view().take(i as int) =~= strings.deep_view());
        lemma_dedup(strings.deep_view());
    }
    result
}

/// The location of a node with the given span in the file named `filename`.
pub fn get_source_location(span: Span, filename: &str) -> (loc: SourceLocation)
    ensures
        loc@.start_line == span.start_line,
        loc@.start_col == span.start_col,
        loc@.end_line == span.end_line,
        loc@.end_col == span.end_col,
        loc@.file_name == filename@,
{
    SourceLocation {
        start_line: span.start_line,
        start_col: span.start_col,
        end_line: span.end_line,
        end_col: span.end_col,
        file_name: String::from_str(filename),
    }
}

/// The canonical text of a declaration.
pub fn format_node(node: &Declaration) -> (code: String)
    ensures
        code@ == node.code@,
{
    node.code.clone()
}

impl FunctionCallVisitor {
    /// A visitor that has seen no call.
    pub fn new() -> (v: Self)
        ensures
            v.calls.deep_view() == Seq::<Seq<char>>::empty(),
    {
        let v = FunctionCallVisitor { calls: Vec::new() };
        assert(v.calls.deep_view() =~= Seq::<Seq<char>>::empty());
        v
    }

    fn push_label(&mut self, label: String)
        ensures
            final(self).calls.deep_view() == old(self).calls.deep_view().push(label@),
    {
        self.calls.push(label);
        assert(self.calls.deep_view() =~= old(self).calls.deep_view().push(label@));
    }

    /// Records the label of a call through the field `member` of `base`.
    fn process_field_call(&mut self, base: &Expr, member: &String)
        ensures
            final(self).calls.deep_view() == old(self).calls.deep_view() + optional(
                field_call_label(*base, member@),
            ),
    {
        match base {
            Expr::Path { segments } => {
                if segments.len() > 0 {
                    let mut label = concat2(segments[segments.len() - 1].as_str(), ".");
                    label.append(member.as_str());
                    self.push_label(label);
                }
            },
            _ => {
                self.push_label(concat2("expr.", member.as_str()));
            },
        }
        assert(self.calls.deep_view() =~= old(self).calls.deep_view() + optional(
            field_call_label(*base, member@),
        ));
    }

    /// Records the label of a call of `func`.
    fn process_call(&mut self, func: &Expr)
        ensures
            final(self).calls.deep_view() == old(self).calls.deep_view() + optional(
                call_label(*func),
            ),
    {
        match func {
            Expr::Path { segments } => {
                if segments.len() > 0 {
                    self.push_label(join_segments(segments));
                }
            },
            Expr::Field { base, member } => {
                self.process_field_call(base, member);
            },
            _ => {
                self.push_label(String::from_str("complex_call"));
            },
        }
        assert(self.calls.deep_view() =~= old(self).calls.deep_view() + optional(
            call_label(*func),
        ));
    }

    /// Records the label of a call of `method` on `receiver`.
    fn process_method_call(&mut self, receiver: &Expr, method: &String)
        ensures
            final(self).calls.deep_view() == old(self).calls.deep_view().push(
                method_call_label(*receiver, method@),
            ),
    {
        let label = match receiver {
            Expr::Path { segments } => {
                if segments.len() > 0 {
                    let mut label = concat2(segments[segments.len() - 1].as_str(), ".");
                    label.append(method.as_str());
                    label
                } else {
                    method.clone()
                }
            },
            Expr::Field { base, member } => {
                let mut label = concat2("field.", member.as_str());
                label.append(".");
                label.append(method.as_str());
                label
            },
            Expr::MethodCall { receiver: inner, method: inner_method, args } => {
                let mut label = concat2("chain.", inner_method.as_str());
                label.append(".");
                label.append(method.as_str());
                label
            },
            _ => concat2("expr.", method.as_str()),
        };
        self.push_label(label);
    }

    /// Records the label of an invocation of the macro at `path`.
    fn process_macro(&mut self, path: &Vec<String>)
        ensures
            final(self).calls.deep_view() == old(self).calls.deep_view() + optional(
                macro_label(path@),
            ),
    {
        if path.len() > 0 {
            self.push_label(concat2("macro!", path[path.len() - 1].as_str()));
        }
        assert(self.calls.deep_view() =~= old(self).calls.deep_view() + optional(
            macro_label(path@),
        ));
    }

    /// Walks `expr` and records the label of every call in it.
    pub fn visit_expr(&mut self, expr: &Expr)
        ensures
            final(self).calls.deep_view() == old(self).calls.deep_view() + calls_of(*expr),
        decreases *expr,
    {
        let ghost start = self.calls.deep_view();
        match expr {
            Expr::Call { func, args } => {
                self.process_call(func);
                self.visit_expr(func);
                self.visit_exprs(args);
            },
            Expr::MethodCall { receiver, method, args } => {
                self.process_method_call(receiver, method);
                self.visit_expr(receiver);
                self.visit_exprs(args);
            },
            Expr::Macro { path } => {
                self.process_macro(path);
            },
            Expr::Field { base, member } => {
                self.visit_expr(base);
            },
            Expr::Struct { path, fields } => {
                self.visit_exprs(fields);
            },
            Expr::Array { elems } => {
                self.visit_exprs(elems);
            },
            Expr::Tuple { elems } => {
                self.visit_exprs(elems);
            },
            Expr::Other { children } => {
                self.visit_exprs(children);
            },
            Expr::Path { segments } => {},
            Expr::Lit { kind, value } => {},
        }
        assert(self.calls.deep_view() =~= start + calls_of(*expr));
    }

    /// Walks each of `exprs` in turn.
    pub fn visit_exprs(&mut self, exprs: &Vec<Expr>)
        ensures
            final(self).calls.deep_view() == old(self).calls.deep_view() + calls_of_all(exprs@),
        decreases *exprs,
    {
        let ghost start = self.calls.deep_view();
        let mut i: usize = 0;
        assert(exprs@.take(0) =~= Seq::<Expr>::empty());
        while i < exprs.len()
            invariant
                i <= exprs.len(),
                self.calls.deep_view() == start + calls_of_all(exprs@.take(i as int)),
            decreases exprs.len() - i,
        {
            let ghost before = self.calls.deep_view();
            self.visit_expr(&exprs[i]);
            proof {
                let t = exprs@.take(i + 1);
                assert(t.drop_last() =~= exprs@.take(i as int));
                assert(t.last() == exprs@[i as int]);
                assert(self.calls.deep_view() =~= start + calls_of_all(t));
            }
            i = i + 1;
        }
        assert(exprs@.take(i as int) =~= exprs@);
    }
}

/// The labels of the calls in a declaration, in the order of the walk.
pub fn extract_function_calls(func: &Declaration) -> (calls: Vec<String>)
    ensures
        calls.deep_view() == calls_of(func.body),
{
    let mut visitor = FunctionCallVisitor::new();
    visitor.visit_expr(&func.body);
    visitor.calls
}

impl LiteralVisitor {
    /// A visitor that has seen no literal.
    pub fn new() -> (v: Self)
        ensures
            v.literals.deep_view() == Seq::<(Seq<char>, Seq<char>)>::empty(),
    {
        let v = LiteralVisitor { literals: Vec::new() };
        assert(v.literals.deep_view() =~= Seq::<(Seq<char>, Seq<char>)>::empty());
        v
    }

    fn push_literal(&mut self, type_tag: String, value: String)
        ensures
            final(self).literals.deep_view() == old(self).literals.deep_view().push(
                (type_tag@, value@),
            ),
    {
        self.literals.push(TypedLiteral { type_tag, value });
        assert(self.literals.deep_view() =~= old(self).literals.deep_view().push(
            (type_tag@, value@),
        ));
    }

    /// Records a literal of the given kind and text.
    pub fn visit_lit(&mut self, kind: LitKind, value: &String)
        ensures
            final(self).literals.deep_view() == old(self).literals.deep_view().push(
                (lit_tag(kind), value@),
            ),
    {
        let tag = match kind {
            LitKind::Str => "STRING",
            LitKind::ByteStr => "BYTE_STR",
            LitKind::CStr => "CSTR",
            LitKind::Byte => "BYTE",
            LitKind::Char => "CHAR",
            LitKind::Int => "INT",
            LitKind::Float => "FLOAT",
            LitKind::Bool => "BOOL",
            LitKind::Verbatim => "VERBATIM",
        };
        self.push_literal(String::from_str(tag), value.clone());
    }

    /// Records the entry that stands for a struct literal of the type at
    /// `path`.
    fn visit_expr_struct(&mut self, path: &Vec<String>)
        ensures
            final(self).literals.deep_view() == old(self).literals.deep_view() + optional(
                struct_literal(path@),
            ),
    {
        if path.len() > 0 {
            self.push_literal(
                concat2("CompositeLit:", path[path.len() - 1].as_str()),
                String::from_str("struct-literal"),
            );
        }
        assert(self.literals.deep_view() =~= old(self).literals.deep_view() + optional(
            struct_literal(path@),
        ));
    }

    /// Records the entry that stands for an array literal.
    fn visit_expr_array(&mut self)
        ensures
            final(self).literals.deep_view() == old(self).literals.deep_view().push(
                ("CompositeLit:Array"@, "array-literal"@),
            ),
    {
        self.push_literal(String::from_str("CompositeLit:Array"), String::from_str("array-literal"));
    }

    /// Records the entry that stands for a tuple literal.
    fn visit_expr_tuple(&mut self)
        ensures
            final(self).literals.deep_view() == old(self).literals.deep_view().push(
                ("CompositeLit:Tuple"@, "tuple-literal"@),
            ),
    {
        self.push_literal(String::from_str("CompositeLit:Tuple"), String::from_str("tuple-literal"));
    }

    /// Walks `expr` and records every literal in it.
    pub fn visit_expr(&mut self, expr: &Expr)
        ensures
            final(self).literals.deep_view() == old(self).literals.deep_view() + literals_of(
                *expr,
            ),
        decreases *expr,
    {
        let ghost start = self.literals.deep_view();
        match expr {
            Expr::Lit { kind, value } => {
                self.visit_lit(*kind, value);
            },
            Expr::Struct { path, fields } => {
                self.visit_expr_struct(path);
                self.visit_exprs(fields);
            },
            Expr::Array { elems } => {
                self.visit_expr_array();
                self.visit_exprs(elems);
            },
            Expr::Tuple { elems } => {
                self.visit_expr_tuple();
                self.visit_exprs(elems);
            },
            Expr::Call { func, args } => {
                self.visit_expr(func);
                self.visit_exprs(args);
            },
            Expr::MethodCall { receiver, method, args } => {
                self.visit_expr(receiver);
                self.visit_exprs(args);
            },
            Expr::Field { base, member } => {
                self.visit_expr(base);
            },
            Expr::Other { children } => {
                self.visit_exprs(children);
            },
            Expr::Path { segments } => {},
            Expr::Macro { path } => {},
        }
        assert(self.literals.deep_view() =~= start + literals_of(*expr));
    }

    /// Walks each of `exprs` in turn.
    pub fn visit_exprs(&mut self, exprs: &Vec<Expr>)
        ensures
            final(self).literals.deep_view() == old(self).literals.deep_view() + literals_of_all(
                exprs@,
            ),
        decreases *exprs,
    {
        let ghost start = self.literals.deep_view();
        let mut i: usize = 0;
        assert(exprs@.take(0) =~= Seq::<Expr>::empty());
        while i < exprs.len()
            invariant
                i <= exprs.len(),
                self.literals.deep_view() == start + literals_of_all(exprs@.take(i as int)),
            decreases exprs.len() - i,
        {
            self.visit_expr(&exprs[i]);
            proof {
                let t = exprs@.take(i + 1);
                assert(t.drop_last() =~= exprs@.take(i as int));
                assert(t.last() == exprs@[i as int]);
                assert(self.literals.deep_view() =~= start + literals_of_all(t));
            }
            i = i + 1;
        }
        assert(exprs@.take(i as int) =~= exprs@);
    }
}

/// The literals in a declaration, in the order of the walk.
pub fn extract_literals(func: &Declaration) -> (literals: Vec<TypedLiteral>)
    ensures
        literals.deep_view() == literals_of(func.body),
{
    let mut visitor = LiteralVisitor::new();
    visitor.visit_expr(&func.body);
    visitor.literals
}

/// Why a file gave no snapshot.
#[derive(Debug)]
pub enum ExtractError {
    /// The file does not exist at the revision.
    NotFound(String),
    /// The file could not be read.
    Unreadable(String),
    /// The file is not valid source text.
    ParseError(String),
}

impl ExtractError {
    /// The text of the error's message.
    pub open spec fn message_text(self) -> Seq<char> {
        match self {
            ExtractError::NotFound(reason) => "File not found: "@ + reason@,
            ExtractError::Unreadable(reason) => "File couldn't be read: "@ + reason@,
            ExtractError::ParseError(reason) => "Parsing error: "@ + reason@,
        }
    }

    /// The error as a message: what went wrong, then the reason given.
    pub fn message(&self) -> (text: String)
        ensures
            text@ == self.message_text(),
    {
        match self {
            ExtractError::NotFound(reason) => concat2("File not found: ", reason.as_str()),
            ExtractError::Unreadable(reason) => concat2("File couldn't be read: ", reason.as_str()),
            ExtractError::ParseError(reason) => concat2("Parsing error: ", reason.as_str()),
        }
    }
}

/// The entry of a top-level item in the given category: its name and the
/// item itself, where the item is named and of that category.
pub open spec fn named_entry(category: Category) -> spec_fn(SourceItem) -> Option<
    (Seq<char>, Declaration),
> {
    |item: SourceItem|
        match item {
            SourceItem::Named(decl) => if category_of(decl.kind) == category {
                Some((decl.name@, decl))
            } else {
                None
            },
            _ => None,
        }
}

/// The simple name of the type that an implementation block is for: the
/// last segment of a path type. Any other type has none.
pub open spec fn self_type_name(self_type: SelfType) -> Option<Seq<char>> {
    match self_type {
        SelfType::Path { segments } => if segments@.len() > 0 {
            Some(segments@.last()@)
        } else {
            None
        },
        SelfType::Other => None,
    }
}

/// The entry of a member of an implementation block for the type named
/// `owner`: a function is kept under `owner.function`.
pub open spec fn member_entry(owner: Seq<char>) -> spec_fn(ImplMember) -> Option<
    (Seq<char>, Declaration),
> {
    |member: ImplMember|
        match member {
            ImplMember::Function(decl) => Some((owner + "."@ + decl.name@, decl)),
            ImplMember::Other => None,
        }
}

/// The methods that an implementation block gives. A block whose type has
/// no simple name gives none.
pub open spec fn block_methods(self_type: SelfType, members: Seq<ImplMember>) -> Seq<
    (Seq<char>, Declaration),
> {
    match self_type_name(self_type) {
        Some(owner) => members.filter_map(member_entry(owner)),
        None => Seq::empty(),
    }
}

/// The methods that a top-level item gives.
pub open spec fn item_methods() -> spec_fn(SourceItem) -> Seq<(Seq<char>, Declaration)> {
    |item: SourceItem|
        match item {
            SourceItem::Impl { self_type, members } => block_methods(self_type, members@),
            _ => Seq::empty(),
        }
}

/// The snapshot `start` after the declarations of `items` are entered, in
/// source order: functions, types and traits under their names, the
/// functions of implementation blocks under the type's and their own name.
/// A declaration entered later replaces one of the same category and name.
pub open spec fn extracted(start: FileASTDataView, items: Seq<SourceItem>) -> FileASTDataView {
    FileASTDataView {
        functions: put_all(start.functions, items.filter_map(named_entry(Category::Function))),
        types: put_all(start.types, items.filter_map(named_entry(Category::Type))),
        interfaces: put_all(start.interfaces, items.filter_map(named_entry(Category::Interface))),
        methods: put_all(start.methods, items.flat_map(item_methods())),
        file_content: start.file_content,
        file_path: start.file_path,
    }
}

/// What a name stands for after `entries` were entered into `before`: the
/// last of the entries of that name, or what it stood for before.
pub open spec fn latest(
    before: Seq<(Seq<char>, Declaration)>,
    entries: Seq<(Seq<char>, Declaration)>,
    name: Seq<char>,
) -> Option<Declaration> {
    match last_bound(entries, name) {
        Some(decl) => Some(decl),
        None => lookup(before, name),
    }
}

/// Extraction keeps the names of each category unique, and under each name
/// the snapshot holds the last declaration of that name.
pub proof fn lemma_extracted(start: FileASTDataView, items: Seq<SourceItem>, name: Seq<char>)
    ensures
        start.wf() ==> extracted(start, items).wf(),
        lookup(extracted(start, items).functions, name) == latest(
            start.functions,
            items.filter_map(named_entry(Category::Function)),
            name,
        ),
        lookup(extracted(start, items).types, name) == latest(
            start.types,
            items.filter_map(named_entry(Category::Type)),
            name,
        ),
        lookup(extracted(start, items).interfaces, name) == latest(
            start.interfaces,
            items.filter_map(named_entry(Category::Interface)),
            name,
        ),
        lookup(extracted(start, items).methods, name) == latest(
            start.methods,
            items.flat_map(item_methods()),
            name,
        ),
{
    let functions = items.filter_map(named_entry(Category::Function));
    let types = items.filter_map(named_entry(Category::Type));
    let interfaces = items.filter_map(named_entry(Category::Interface));
    let methods = items.flat_map(item_methods());
    lemma_put_all(start.functions, functions);
    lemma_put_all(start.types, types);
    lemma_put_all(start.interfaces, interfaces);
    lemma_put_all(start.methods, methods);
    lemma_put_all_lookup(start.functions, functions, name);
    lemma_put_all_lookup(start.types, types, name);
    lemma_put_all_lookup(start.interfaces, interfaces, name);
    lemma_put_all_lookup(start.methods, methods, name);
}

/// The name of the first module declared in `items`.
pub open spec fn first_module(items: Seq<SourceItem>) -> Option<Seq<char>>
    decreases items.len(),
{
    if items.len() == 0 {
        None
    } else {
        match items.first() {
            SourceItem::Module { name } => Some(name@),
            _ => first_module(items.drop_first()),
        }
    }
}

/// The module name of a file: the first module that the file declares;
/// else, or where the file did not parse, the name of the directory that
/// holds it; else `unknown`.
pub open spec fn module_name_of(parsed: Option<SourceFile>, directory: Option<Seq<char>>) -> Seq<
    char,
> {
    let declared = match parsed {
        Some(file) => first_module(file.items@),
        None => None,
    };
    match declared {
        Some(name) => name,
        None => match directory {
            Some(name) => name,
            None => "unknown"@,
        },
    }
}

/// The module name of a file, from the parsed file, if it parsed, and the
/// name of the directory that holds it, if it has one.
pub fn extract_module_name(parsed: Option<&SourceFile>, directory: Option<&str>) -> (name: String)
    ensures
        name@ == module_name_of(
            match parsed {
                Some(file) => Some(*file),
                None => None,
            },
            match directory {
                Some(dir) => Some(dir@),
                None => None,
            },
        ),
{
    if let Some(file) = parsed {
        let mut i: usize = 0;
        assert(file.items@.skip(0) =~= file.items@);
        while i < file.items.len()
            invariant
                i <= file.items.len(),
                parsed == Some(file),
                first_module(file.items@) == first_module(file.items@.skip(i as int)),
            decreases file.items.len() - i,
        {
            proof {
                let rest = file.items@.skip(i as int);
                assert(rest.first() == file.items@[i as int]);
                assert(rest.drop_first() =~= file.items@.skip(i + 1));
            }
            if let SourceItem::Module { name } = &file.items[i] {
                assert(first_module(file.items@.skip(i as int)) == Some(name@));
                return name.clone();
            }
            i = i + 1;
        }
        assert(first_module(file.items@.skip(i as int)) is None);
    }
    match directory {
        Some(dir) => String::from_str(dir),
        None => String::from_str("unknown"),
    }
}

/// Enters the functions of one implementation block into `ast_data`, each
/// under the name of the block's type, a dot and its own name. A block for
/// a type without a simple name is passed over.
fn process_impl_block(self_type: SelfType, members: Vec<ImplMember>, ast_data: &mut FileASTData)
    ensures
        final(ast_data)@.methods == put_all(
            old(ast_data)@.methods,
            block_methods(self_type, members@),
        ),
        final(ast_data)@.functions == old(ast_data)@.functions,
        final(ast_data)@.types == old(ast_data)@.types,
        final(ast_data)@.interfaces == old(ast_data)@.interfaces,
        final(ast_data)@.file_content == old(ast_data)@.file_content,
        final(ast_data)@.file_path == old(ast_data)@.file_path,
        old(ast_data).wf() ==> final(ast_data).wf(),
{
    let owner = match &self_type {
        SelfType::Path { segments } => {
            if segments.len() > 0 {
                segments[segments.len() - 1].clone()
            } else {
                return ;
            }
        },
        SelfType::Other => {
            return ;
        },
    };
    let ghost entry = member_entry(owner@);
    assert(members@.take(0) =~= Seq::<ImplMember>::empty());
    for member in it: members.into_iter()
        invariant
            it.seq() == members@,
            entry == member_entry(owner@),
            ast_data@.methods == put_all(
                old(ast_data)@.methods,
                members@.take(it.index() as int).filter_map(entry),
            ),
            ast_data@.functions == old(ast_data)@.functions,
            ast_data@.types == old(ast_data)@.types,
            ast_data@.interfaces == old(ast_data)@.interfaces,
            ast_data@.file_content == old(ast_data)@.file_content,
            ast_data@.file_path == old(ast_data)@.file_path,
            old(ast_data).wf() ==> ast_data.wf(),
    {
        proof {
            members@.lemma_filter_map_take_succ(entry, it.index() as int);
        }
        let ghost done = members@.take(it.index() as int).filter_map(entry);
        match member {
            ImplMember::Function(decl) => {
                let mut key = concat2(owner.as_str(), ".");
                key.append(decl.name.as_str());
                proof {
                    lemma_put_all_push(old(ast_data)@.methods, done, (key@, decl));
                    assert(done + seq![(key@, decl)] =~= done.push((key@, decl)));
                }
                ast_data.methods.insert(key, decl);
            },
            ImplMember::Other => {
                assert(done + Seq::<(Seq<char>, Declaration)>::empty() =~= done);
            },
        }
    }
    assert(members@.take(members@.len() as int) =~= members@);
}

/// Enters the declarations of `file` into `ast_data`, in source order.
fn process_file_items(file: SourceFile, ast_data: &mut FileASTData)
    ensures
        final(ast_data)@ == extracted(old(ast_data)@, file.items@),
        old(ast_data).wf() ==> final(ast_data).wf(),
{
    let ghost items = file.items@;
    let ghost start = ast_data@;
    let ghost functions = named_entry(Category::Function);
    let ghost types = named_entry(Category::Type);
    let ghost interfaces = named_entry(Category::Interface);
    let ghost methods = item_methods();
    proof {
        assert(items.take(0) =~= Seq::<SourceItem>::empty());
        assert(items.take(0).flat_map(methods) =~= Seq::<(Seq<char>, Declaration)>::empty());
    }
    for item in it: file.items.into_iter()
        invariant
            it.seq() == items,
            start == old(ast_data)@,
            functions == named_entry(Category::Function),
            types == named_entry(Category::Type),
            interfaces == named_entry(Category::Interface),
            methods == item_methods(),
            ast_data@ == extracted(start, items.take(it.index() as int)),
            old(ast_data).wf() ==> ast_data.wf(),
    {
        let ghost n = it.index() as int;
        let ghost before = ast_data@;
        proof {
            items.lemma_filter_map_take_succ(functions, n);
            items.lemma_filter_map_take_succ(types, n);
            items.lemma_filter_map_take_succ(interfaces, n);
            items.lemma_flat_map_take_append(methods, n);
            let empty = Seq::<(Seq<char>, Declaration)>::empty();
            assert(items.take(n).filter_map(functions) + empty =~= items.take(n).filter_map(
                functions,
            ));
            assert(items.take(n).filter_map(types) + empty =~= items.take(n).filter_map(types));
            assert(items.take(n).filter_map(interfaces) + empty =~= items.take(n).filter_map(
                interfaces,
            ));
            assert(items.take(n).flat_map(methods) + empty =~= items.take(n).flat_map(methods));
        }
        match item {
            SourceItem::Named(decl) => {
                let key = decl.name.clone();
                let ghost entry = (key@, decl);
                match decl.kind {
                    DeclKind::Function => {
                        proof {
                            let done = items.take(n).filter_map(functions);
                            lemma_put_all_push(start.functions, done, entry);
                            assert(done + seq![entry] =~= done.push(entry));
                        }
                        ast_data.functions.insert(key, decl);
                    },
                    DeclKind::Trait => {
                        proof {
                            let done = items.take(n).filter_map(interfaces);
                            lemma_put_all_push(start.interfaces, done, entry);
                            assert(done + seq![entry] =~= done.push(entry));
                        }
                        ast_data.interfaces.insert(key, decl);
                    },
                    _ => {
                        proof {
                            let done = items.take(n).filter_map(types);
                            lemma_put_all_push(start.types, done, entry);
                            assert(done + seq![entry] =~= done.push(entry));
                        }
                        ast_data.types.insert(key, decl);
                    },
                }
            },
            SourceItem::Impl { self_type, members } => {
                proof {
                    lemma_put_all_add(
                        start.methods,
                        items.take(n).flat_map(methods),
                        block_methods(self_type, members@),
                    );
                }
                process_impl_block(self_type, members, ast_data);
            },
            _ => {},
        }
    }
    assert(items.take(items.len() as int) =~= items);
}

/// The snapshot that `extract_file_ast` gives for a parsed file.
pub open spec fn snapshot_of(path: Seq<char>, content: Seq<char>, file: SourceFile)
    -> FileASTDataView {
    extracted(
        FileASTDataView { file_content: content, ..FileASTDataView::empty(path) },
        file.items@,
    )
}

/// The snapshot of the file at `file_path`, from what reading and parsing
/// it came to.
///
/// A parsed file gives the snapshot of its declarations. A file that is
/// missing, unreadable or malformed gives the error that says so, with the
/// reason handed in.
pub fn extract_file_ast(file_path: &str, outcome: ParseOutcome) -> (result: Result<
    FileASTData,
    ExtractError,
>)
    ensures
        match outcome {
            ParseOutcome::Parsed { content, file } => result is Ok && result->Ok_0@ == snapshot_of(
                file_path@,
                content@,
                file,
            ) && result->Ok_0.wf(),
            ParseOutcome::Missing { reason } => result is Err && result->Err_0
                is NotFound && result->Err_0->NotFound_0@ == reason@,
            ParseOutcome::Unreadable { reason } => result is Err && result->Err_0
                is Unreadable && result->Err_0->Unreadable_0@ == reason@,
            ParseOutcome::Malformed { reason } => result is Err && result->Err_0
                is ParseError && result->Err_0->ParseError_0@ == reason@,
        },
{
    match outcome {
        ParseOutcome::Missing { reason } => Err(ExtractError::NotFound(reason)),
        ParseOutcome::Unreadable { reason } => Err(ExtractError::Unreadable(reason)),
        ParseOutcome::Malformed { reason } => Err(ExtractError::ParseError(reason)),
        ParseOutcome::Parsed { content, file } => {
            let mut ast_data = FileASTData::new(String::from_str(file_path), content);
            process_file_items(file, &mut ast_data);
            Ok(ast_data)
        },
    }
}

/// The snapshot to go on with after an extraction: the one extracted, or,
/// where there is none, the empty snapshot of `file`, so that the file
/// counts as added or deleted as a whole.
pub fn snapshot_or_empty(file: &str, result: Result<FileASTData, ExtractError>) -> (ast: FileASTData)
    ensures
        match result {
            Ok(extracted) => ast == extracted,
            Err(_) => ast@ == FileASTDataView::empty(file@) && ast.wf(),
        },
{
    match result {
        Ok(extracted) => extracted,
        Err(_) => FileASTData::empty(String::from_str(file)),
    }
}

} // verus!
