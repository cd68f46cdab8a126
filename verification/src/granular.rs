//! The change inside one function: the calls and literals that a new
//! revision of it adds or drops.
use crate::ast_parser::{
    calls_of,
    contains_string,
    dedup,
    extract_function_calls,
    extract_literals,
    format_node,
    get_source_location,
    lemma_dedup,
    literals_of,
    remove_duplicates,
};
use crate::differ::{changed_in, snapshot_at, Decls};
use crate::name_map::{
    lemma_put_all_push,
    lemma_put_map_entries,
    lookup,
    map_entries,
    put_all,
    NameMap,
};
use crate::syntax::{Declaration, Span};
use crate::types::{
    CalledFunctionChanges,
    CalledFunctionChangesView,
    FileASTData,
    FileASTDataView,
    SourceLocationView,
    TypedLiteral,
};
use vstd::prelude::*;
use vstd::seq_lib::{to_multiset_build, to_multiset_contains};

verus! {

/// The test "does not occur in `other`".
pub open spec fn absent_in<A>(other: Seq<A>) -> spec_fn(A) -> bool {
    |x: A| !other.contains(x)
}

/// The elements of `of` that do not occur in `other`, in the order and as
/// often as they stand in `of`.
pub open spec fn missing_from<A>(of: Seq<A>, other: Seq<A>) -> Seq<A> {
    of.filter(absent_in(other))
}

/// The location of a declaration with the given span in the file at `path`.
pub open spec fn location_of(span: Span, path: Seq<char>) -> SourceLocationView {
    SourceLocationView {
        start_line: span.start_line,
        start_col: span.start_col,
        end_line: span.end_line,
        end_col: span.end_col,
        file_name: path,
    }
}

/// The change from `old_func` to `new_func`.
///
/// A call is added where its label occurs in the new body and not in the
/// old one, and removed the other way round; each label is listed once, in
/// the order in which the walk first meets it. A literal is added where no
/// literal of the old body has its tag and text, and removed the other way
/// round; each occurrence is listed. The locations are those of the two
/// declarations, whether or not anything changed.
pub open spec fn function_delta(
    old_func: Declaration,
    new_func: Declaration,
    old_path: Seq<char>,
    new_path: Seq<char>,
) -> CalledFunctionChangesView {
    CalledFunctionChangesView {
        added_functions: dedup(missing_from(calls_of(new_func.body), calls_of(old_func.body))),
        removed_functions: dedup(missing_from(calls_of(old_func.body), calls_of(new_func.body))),
        added_literals: missing_from(literals_of(new_func.body), literals_of(old_func.body)),
        removed_literals: missing_from(literals_of(old_func.body), literals_of(new_func.body)),
        old_function_src_loc: location_of(old_func.span, old_path),
        new_function_src_loc: location_of(new_func.span, new_path),
    }
}

/// What is missing from a sequence is in the one and not in the other, and
/// nothing is missing from a sequence with respect to itself.
pub proof fn lemma_missing_from<A>(of: Seq<A>, other: Seq<A>)
    ensures
        forall|x: A| #[trigger]
            missing_from(of, other).contains(x) <==> (of.contains(x) && !other.contains(x)),
        missing_from(of, of) == Seq::<A>::empty(),
        missing_from(of, other).len() <= of.len(),
    decreases of.len(),
{
    reveal(Seq::filter);
    let pred = absent_in(other);
    if of.len() > 0 {
        let front = of.drop_last();
        lemma_missing_from(front, other);
        let kept = missing_from(front, other);
        assert forall|x: A| #[trigger]
            missing_from(of, other).contains(x) <==> (of.contains(x) && !other.contains(x)) by {
            let all = missing_from(of, other);
            if all.contains(x) {
                let j = choose|j: int| 0 <= j < all.len() && all[j] == x;
                if j < kept.len() {
                    assert(kept[j] == x);
                    assert(kept.contains(x));
                    assert(front.contains(x));
                    let i = choose|i: int| 0 <= i < front.len() && front[i] == x;
                    assert(of[i] == x);
                } else {
                    assert(of[of.len() - 1] == x);
                }
            }
            if of.contains(x) && !other.contains(x) {
                let i = choose|i: int| 0 <= i < of.len() && of[i] == x;
                if i < of.len() - 1 {
                    assert(front[i] == x);
                    assert(kept.contains(x));
                    let j = choose|j: int| 0 <= j < kept.len() && kept[j] == x;
                    assert(all[j] == x);
                } else {
                    assert(all[kept.len() as int] == x);
                }
            }
        }
    }
    lemma_missing_from_self(of, of.len() as int);
    assert(of.take(of.len() as int) =~= of);
}

proof fn lemma_missing_from_self<A>(of: Seq<A>, n: int)
    requires
        0 <= n <= of.len(),
    ensures
        missing_from(of.take(n), of) == Seq::<A>::empty(),
    decreases n,
{
    reveal(Seq::filter);
    if n > 0 {
        lemma_missing_from_self(of, n - 1);
        assert(of.take(n).drop_last() =~= of.take(n - 1));
        assert(of.take(n).last() == of[n - 1]);
        assert(of.contains(of[n - 1]));
    }
}

/// How often an element is listed as missing: as often as it stands in
/// `of` where `other` lacks it, and not at all where `other` holds it.
pub proof fn lemma_missing_from_count<A>(of: Seq<A>, other: Seq<A>, x: A)
    ensures
        missing_from(of, other).to_multiset().count(x) == if other.contains(x) {
            0
        } else {
            of.to_multiset().count(x)
        },
    decreases of.len(),
{
    let pred = absent_in(other);
    if of.len() == 0 {
        reveal(Seq::filter);
        assert(missing_from(of, other) =~= of);
        to_multiset_contains(of, x);
    } else {
        let front = of.drop_last();
        let last = of.last();
        lemma_missing_from_count(front, other, x);
        front.lemma_filter_push(last, pred);
        assert(front.push(last) =~= of);
        to_multiset_build(front, last);
        if pred(last) {
            to_multiset_build(missing_from(front, other), last);
        }
    }
}

/// A function compared with itself has no added or removed call or literal.
pub proof fn lemma_function_delta_same(func: Declaration, path: Seq<char>)
    ensures
        function_delta(func, func, path, path).added_functions.len() == 0,
        function_delta(func, func, path, path).removed_functions.len() == 0,
        function_delta(func, func, path, path).added_literals.len() == 0,
        function_delta(func, func, path, path).removed_literals.len() == 0,
{
    lemma_missing_from(calls_of(func.body), calls_of(func.body));
    lemma_missing_from(literals_of(func.body), literals_of(func.body));
}

/// The calls listed as added occur in the new body only, those listed as
/// removed in the old body only, and no label is listed twice.
pub proof fn lemma_function_delta_calls(
    old_func: Declaration,
    new_func: Declaration,
    old_path: Seq<char>,
    new_path: Seq<char>,
)
    ensures
        ({
            let delta = function_delta(old_func, new_func, old_path, new_path);
            &&& delta.added_functions.no_duplicates()
            &&& delta.removed_functions.no_duplicates()
            &&& forall|x: Seq<char>| #[trigger]
                delta.added_functions.contains(x) <==> (calls_of(new_func.body).contains(x)
                    && !calls_of(old_func.body).contains(x))
            &&& forall|x: Seq<char>| #[trigger]
                delta.removed_functions.contains(x) <==> (calls_of(old_func.body).contains(x)
                    && !calls_of(new_func.body).contains(x))
        }),
{
    let old_calls = calls_of(old_func.body);
    let new_calls = calls_of(new_func.body);
    lemma_missing_from(new_calls, old_calls);
    lemma_missing_from(old_calls, new_calls);
    lemma_dedup(missing_from(new_calls, old_calls));
    lemma_dedup(missing_from(old_calls, new_calls));
}

/// Whether `v` holds a literal with the tag and text of `lit`.
fn has_literal(v: &Vec<TypedLiteral>, lit: &TypedLiteral) -> (b: bool)
    ensures
        b == v.deep_view().contains(lit@),
{
    let mut i: usize = 0;
    while i < v.len()
        invariant
            i <= v.len(),
            forall|j: int| 0 <= j < i ==> v.deep_view()[j] != lit@,
        decreases v.len() - i,
    {
        if v[i].type_tag == lit.type_tag && v[i].value == lit.value {
            assert(v.deep_view()[i as int] == lit@);
            return true;
        }
        i = i + 1;
    }
    false
}

/// The strings of `of` that `other` does not hold.
fn missing_strings(of: &Vec<String>, other: &Vec<String>) -> (result: Vec<String>)
    ensures
        result.deep_view() == missing_from(of.deep_view(), other.deep_view()),
{
    let ghost pred = absent_in(other.deep_view());
    let mut result: Vec<String> = Vec::new();
    let mut i: usize = 0;
    proof {
        reveal(Seq::filter);
        assert(of.deep_view().take(0) =~= Seq::<Seq<char>>::empty());
        assert(result.deep_view() =~= Seq::<Seq<char>>::empty());
    }
    while i < of.len()
        invariant
            i <= of.len(),
            pred == absent_in(other.deep_view()),
            result.deep_view() == of.deep_view().take(i as int).filter(pred),
        decreases of.len() - i,
    {
        let found = contains_string(other, &of[i]);
        proof {
            let front = of.deep_view().take(i as int);
            front.lemma_filter_push(of[i as int]@, pred);
            assert(front.push(of[i as int]@) =~= of.deep_view().take(i + 1));
        }
        if !found {
            let ghost before = result.deep_view();
            result.push(of[i].clone());
            assert(result.deep_view() =~= before.push(of[i as int]@));
        }
        i = i + 1;
    }
    assert(of.deep_view().take(i as int) =~= of.deep_view());
    result
}

/// The literals of `of` that `other` does not hold.
fn missing_literals(of: &Vec<TypedLiteral>, other: &Vec<TypedLiteral>) -> (result: Vec<
    TypedLiteral,
>)
    ensures
        result.deep_view() == missing_from(of.deep_view(), other.deep_view()),
{
    let ghost pred = absent_in(other.deep_view());
    let mut result: Vec<TypedLiteral> = Vec::new();
    let mut i: usize = 0;
    proof {
        reveal(Seq::filter);
        assert(of.deep_view().take(0) =~= Seq::<(Seq<char>, Seq<char>)>::empty());
        assert(result.deep_view() =~= Seq::<(Seq<char>, Seq<char>)>::empty());
    }
    while i < of.len()
        invariant
            i <= of.len(),
            pred == absent_in(other.deep_view()),
            result.deep_view() == of.deep_view().take(i as int).filter(pred),
        decreases of.len() - i,
    {
        let found = has_literal(other, &of[i]);
        proof {
            let front = of.deep_view().take(i as int);
            front.lemma_filter_push(of[i as int]@, pred);
            assert(front.push(of[i as int]@) =~= of.deep_view().take(i + 1));
        }
        if !found {
            let ghost before = result.deep_view();
            result.push(of[i].clone());
            assert(result.deep_view() =~= before.push(of[i as int]@));
        }
        i = i + 1;
    }
    assert(of.deep_view().take(i as int) =~= of.deep_view());
    result
}

/// Compares two revisions of one function: the calls and literals that the
/// new one adds and drops, and where each revision stands in its file.
pub fn compare_called_functions(
    old_func: &Declaration,
    new_func: &Declaration,
    old_ast: &FileASTData,
    new_ast: &FileASTData,
) -> (changes: CalledFunctionChanges)
    ensures
        changes@ == function_delta(*old_func, *new_func, old_ast@.file_path, new_ast@.file_path),
{
    let old_calls = extract_function_calls(old_func);
    let new_calls = extract_function_calls(new_func);
    let added_functions = missing_strings(&new_calls, &old_calls);
    let removed_functions = missing_strings(&old_calls, &new_calls);

    let old_literals = extract_literals(old_func);
    let new_literals = extract_literals(new_func);
    let added_literals = missing_literals(&new_literals, &old_literals);
    let removed_literals = missing_literals(&old_literals, &new_literals);

    let old_function_src_loc = get_source_location(old_func.span, old_ast.file_path.as_str());
    let new_function_src_loc = get_source_location(new_func.span, new_ast.file_path.as_str());

    CalledFunctionChanges {
        added_functions: remove_duplicates(added_functions),
        removed_functions: remove_duplicates(removed_functions),
        added_literals,
        removed_literals,
        old_function_src_loc,
        new_function_src_loc,
    }
}

/// The changes inside the functions of one file, each under the function's
/// name.
pub type Deltas = Seq<(Seq<char>, CalledFunctionChangesView)>;

/// The function from the changes inside a function to their view.
pub open spec fn changes_view() -> spec_fn(CalledFunctionChanges) -> CalledFunctionChangesView {
    |changes: CalledFunctionChanges| changes@
}

/// The function from the changes of one file to their view.
pub open spec fn file_changes_view() -> spec_fn(NameMap<CalledFunctionChanges>) -> Deltas {
    |changes: NameMap<CalledFunctionChanges>| map_entries(changes@, changes_view())
}

/// The view of the changes of a run: for each file its functions' changes.
pub open spec fn granular_view(granular: Seq<(Seq<char>, NameMap<CalledFunctionChanges>)>) -> Seq<
    (Seq<char>, Deltas),
> {
    map_entries(granular, file_changes_view())
}

/// The change inside a declaration of the old snapshot with respect to the
/// declaration of its name in `new`, under that name.
pub open spec fn delta_entry(new: Decls, old_path: Seq<char>, new_path: Seq<char>) -> spec_fn(
    (Seq<char>, Declaration),
) -> (Seq<char>, CalledFunctionChangesView) {
    |e: (Seq<char>, Declaration)|
        (
            e.0,
            function_delta(
                e.1,
                match lookup(new, e.0) {
                    Some(d) => d,
                    None => e.1,
                },
                old_path,
                new_path,
            ),
        )
}

/// For each declaration of `old` that `new` holds under the same name with
/// another text, in the order of `old`: the change inside it.
pub open spec fn modified_deltas(old: Decls, new: Decls, old_path: Seq<char>, new_path: Seq<char>)
    -> Deltas {
    old.filter(changed_in(new)).map_values(delta_entry(new, old_path, new_path))
}

/// The changes inside the functions and methods of one file whose text
/// differs between the two snapshots: first the functions, then the
/// methods, a later one replacing an earlier one of the same name.
pub open spec fn file_deltas(old: FileASTDataView, new: FileASTDataView) -> Deltas {
    put_all(
        put_all(
            Seq::empty(),
            modified_deltas(old.functions, new.functions, old.file_path, new.file_path),
        ),
        modified_deltas(old.methods, new.methods, old.file_path, new.file_path),
    )
}

/// The entry of a file in the changes of a run: its name and the changes
/// inside its functions, where there are any.
pub open spec fn granular_entry(
    old_asts: Seq<(Seq<char>, FileASTData)>,
    new_asts: Seq<(Seq<char>, FileASTData)>,
) -> spec_fn(Seq<char>) -> Option<(Seq<char>, Deltas)> {
    |file: Seq<char>|
        {
            let deltas = file_deltas(snapshot_at(old_asts, file), snapshot_at(new_asts, file));
            if deltas.len() > 0 {
                Some((file, deltas))
            } else {
                None
            }
        }
}

/// The changes of a run: for each of `files` that has a function or method
/// whose text changed, the changes inside those. A file that a table lacks
/// counts as empty.
pub open spec fn granular_changes(
    files: Seq<Seq<char>>,
    old_asts: Seq<(Seq<char>, FileASTData)>,
    new_asts: Seq<(Seq<char>, FileASTData)>,
) -> Seq<(Seq<char>, Deltas)> {
    put_all(Seq::empty(), files.filter_map(granular_entry(old_asts, new_asts)))
}

/// Enters into `file_changes` the change inside each declaration of
/// `old_map` that `new_map` holds with another text.
fn collect_modified(
    old_map: &NameMap<Declaration>,
    new_map: &NameMap<Declaration>,
    old_ast: &FileASTData,
    new_ast: &FileASTData,
    file_changes: &mut NameMap<CalledFunctionChanges>,
)
    ensures
        map_entries(final(file_changes)@, changes_view()) == put_all(
            map_entries(old(file_changes)@, changes_view()),
            modified_deltas(old_map@, new_map@, old_ast@.file_path, new_ast@.file_path),
        ),
{
    let ghost pred = changed_in(new_map@);
    let ghost to_delta = delta_entry(new_map@, old_ast@.file_path, new_ast@.file_path);
    let ghost start = map_entries(file_changes@, changes_view());
    let mut i: usize = 0;
    proof {
        reveal(Seq::filter);
        assert(old_map@.take(0) =~= Decls::empty());
        assert(old_map@.take(0).filter(pred).map_values(to_delta) =~= Deltas::empty());
    }
    while i < old_map.entries.len()
        invariant
            i <= old_map.entries.len(),
            pred == changed_in(new_map@),
            to_delta == delta_entry(new_map@, old_ast@.file_path, new_ast@.file_path),
            map_entries(file_changes@, changes_view()) == put_all(
                start,
                old_map@.take(i as int).filter(pred).map_values(to_delta),
            ),
        decreases old_map.entries.len() - i,
    {
        let ghost front = old_map@.take(i as int);
        let ghost done = front.filter(pred).map_values(to_delta);
        proof {
            front.lemma_filter_push(old_map@[i as int], pred);
            assert(front.push(old_map@[i as int]) =~= old_map@.take(i + 1));
        }
        let name = &old_map.entries[i].0;
        let old_func = &old_map.entries[i].1;
        assert(old_map@[i as int] == (name@, *old_func));
        let mut modified = false;
        if let Some(new_func) = new_map.get(name) {
            if format_node(old_func) != format_node(new_func) {
                modified = true;
                let changes = compare_called_functions(old_func, new_func, old_ast, new_ast);
                proof {
                    let entry = to_delta(old_map@[i as int]);
                    assert(entry == (name@, changes@));
                    assert(front.filter(pred).push(old_map@[i as int]).map_values(to_delta)
                        =~= done.push(entry));
                    lemma_put_all_push(start, done, entry);
                    lemma_put_map_entries(file_changes@, name@, changes, changes_view());
                }
                file_changes.insert(name.clone(), changes);
            }
        }
        assert(modified == pred(old_map@[i as int]));
        i = i + 1;
    }
    assert(old_map@.take(i as int) =~= old_map@);
}

/// The changes inside the functions and methods of every file of
/// `rust_files` whose text differs between the snapshots taken at the base
/// revision, `old_asts`, and those taken at the target revision, `new_asts`.
pub fn get_granular_change_for_functions(
    rust_files: &Vec<String>,
    old_asts: &NameMap<FileASTData>,
    new_asts: &NameMap<FileASTData>,
) -> (granular: NameMap<NameMap<CalledFunctionChanges>>)
    ensures
        granular_view(granular@) == granular_changes(rust_files.deep_view(), old_asts@, new_asts@),
        granular.wf(),
{
    let ghost files = rust_files.deep_view();
    let ghost to_entry = granular_entry(old_asts@, new_asts@);
    let mut granular: NameMap<NameMap<CalledFunctionChanges>> = NameMap::new();
    let mut i: usize = 0;
    proof {
        assert(files.take(0) =~= Seq::<Seq<char>>::empty());
        assert(granular_view(granular@) =~= Seq::<(Seq<char>, Deltas)>::empty());
    }
    while i < rust_files.len()
        invariant
            i <= rust_files.len(),
            files == rust_files.deep_view(),
            to_entry == granular_entry(old_asts@, new_asts@),
            granular_view(granular@) == put_all(
                Seq::empty(),
                files.take(i as int).filter_map(to_entry),
            ),
            granular.wf(),
        decreases rust_files.len() - i,
    {
        let file = &rust_files[i];
        let empty = FileASTData::empty(file.clone());
        let old_ast = match old_asts.get(file) {
            Some(ast) => ast,
            None => &empty,
        };
        let new_ast = match new_asts.get(file) {
            Some(ast) => ast,
            None => &empty,
        };
        let mut file_changes: NameMap<CalledFunctionChanges> = NameMap::new();
        assert(map_entries(file_changes@, changes_view()) =~= Deltas::empty());
        collect_modified(
            &old_ast.functions,
            &new_ast.functions,
            old_ast,
            new_ast,
            &mut file_changes,
        );
        collect_modified(&old_ast.methods, &new_ast.methods, old_ast, new_ast, &mut file_changes);
        proof {
            let done = files.take(i as int).filter_map(to_entry);
            assert(files[i as int] == file@);
            files.lemma_filter_map_take_succ(to_entry, i as int);
            let deltas = file_deltas(old_ast@, new_ast@);
            assert(map_entries(file_changes@, changes_view()) == deltas);
            if deltas.len() > 0 {
                assert(done + seq![(file@, deltas)] =~= done.push((file@, deltas)));
                lemma_put_all_push(Seq::empty(), done, (file@, deltas));
                lemma_put_map_entries(granular@, file@, file_changes, file_changes_view());
            } else {
                assert(done + Seq::<(Seq<char>, Deltas)>::empty() =~= done);
            }
        }
        if !file_changes.is_empty() {
            granular.insert(file.clone(), file_changes);
        }
        i = i + 1;
    }
    assert(files.take(i as int) =~= files);
    granular
}

} // verus!
