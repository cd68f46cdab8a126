//! The structural diff: which declarations of a file were added, modified
//! and deleted between two snapshots.
use crate::ast_parser::{contains_string, format_node};
use crate::name_map::{has_key, is_first_at, lemma_position_of, lookup, position_of, unique_keys, NameMap};
use crate::syntax::Declaration;
use crate::types::{DetailedChanges, DetailedChangesView, Entries, FileASTData, FileASTDataView};
use vstd::prelude::*;

verus! {

/// The declarations of one category of a snapshot, each under its name.
pub type Decls = Seq<(Seq<char>, Declaration)>;

/// An entry of a name and one text.
pub open spec fn text_entry(name: Seq<char>, code: Seq<char>) -> Seq<Seq<char>> {
    seq![name, code]
}

/// An entry of a name, the text before and the text after.
pub open spec fn change_entry(name: Seq<char>, before: Seq<char>, after: Seq<char>) -> Seq<
    Seq<char>,
> {
    seq![name, before, after]
}

/// The entry of an added or deleted declaration: its name and its text.
pub open spec fn plain_entry() -> spec_fn((Seq<char>, Declaration)) -> Seq<Seq<char>> {
    |e: (Seq<char>, Declaration)| text_entry(e.0, e.1.code@)
}

/// The test "`other` has no declaration of this name".
pub open spec fn absent_from(other: Decls) -> spec_fn((Seq<char>, Declaration)) -> bool {
    |e: (Seq<char>, Declaration)| !has_key(other, e.0)
}

/// The test "`other` has a declaration of this name with another text".
pub open spec fn changed_in(other: Decls) -> spec_fn((Seq<char>, Declaration)) -> bool {
    |e: (Seq<char>, Declaration)|
        match lookup(other, e.0) {
            Some(d) => d.code@ != e.1.code@,
            None => false,
        }
}

/// The entry of a modified declaration: its name, its text, and the text
/// of the declaration of that name in `other`.
pub open spec fn changed_entry(other: Decls) -> spec_fn((Seq<char>, Declaration)) -> Seq<
    Seq<char>,
> {
    |e: (Seq<char>, Declaration)|
        change_entry(
            e.0,
            e.1.code@,
            match lookup(other, e.0) {
                Some(d) => d.code@,
                None => Seq::empty(),
            },
        )
}

/// Every declaration of `decls` as an entry, in order.
pub open spec fn all_entries(decls: Decls) -> Entries {
    decls.map_values(plain_entry())
}

/// The declarations of `new` whose names `old` does not have, in the order
/// of `new`.
pub open spec fn added_entries(old: Decls, new: Decls) -> Entries {
    new.filter(absent_from(old)).map_values(plain_entry())
}

/// The declarations of `old` whose names `new` does not have, in the order
/// of `old`.
pub open spec fn deleted_entries(old: Decls, new: Decls) -> Entries {
    old.filter(absent_from(new)).map_values(plain_entry())
}

/// The declarations of `old` that `new` has under the same name with
/// another text, in the order of `old`, each with both texts.
pub open spec fn modified_entries(old: Decls, new: Decls) -> Entries {
    old.filter(changed_in(new)).map_values(changed_entry(new))
}

/// The change report of the file at `file_path` from snapshot `old` to
/// snapshot `new`.
///
/// For a new file every declaration of `new` is added, whatever `old`
/// holds. For a removed file every declaration of `old` is deleted,
/// whatever `new` holds. Otherwise each category is compared by itself:
/// added are the names only `new` has, deleted the names only `old` has,
/// modified the names both have with different texts.
pub open spec fn change_report(
    old: FileASTDataView,
    new: FileASTDataView,
    file_path: Seq<char>,
    is_new_file: bool,
    is_removed_file: bool,
) -> DetailedChangesView {
    if is_new_file {
        DetailedChangesView {
            module_name: file_path,
            added_functions: all_entries(new.functions),
            modified_functions: Seq::empty(),
            deleted_functions: Seq::empty(),
            added_types: all_entries(new.types),
            modified_types: Seq::empty(),
            deleted_types: Seq::empty(),
            added_interfaces: all_entries(new.interfaces),
            modified_interfaces: Seq::empty(),
            deleted_interfaces: Seq::empty(),
            added_methods: all_entries(new.methods),
            modified_methods: Seq::empty(),
            deleted_methods: Seq::empty(),
        }
    } else if is_removed_file {
        DetailedChangesView {
            module_name: file_path,
            added_functions: Seq::empty(),
            modified_functions: Seq::empty(),
            deleted_functions: all_entries(old.functions),
            added_types: Seq::empty(),
            modified_types: Seq::empty(),
            deleted_types: all_entries(old.types),
            added_interfaces: Seq::empty(),
            modified_interfaces: Seq::empty(),
            deleted_interfaces: all_entries(old.interfaces),
            added_methods: Seq::empty(),
            modified_methods: Seq::empty(),
            deleted_methods: all_entries(old.methods),
        }
    } else {
        DetailedChangesView {
            module_name: file_path,
            added_functions: added_entries(old.functions, new.functions),
            modified_functions: modified_entries(old.functions, new.functions),
            deleted_functions: deleted_entries(old.functions, new.functions),
            added_types: added_entries(old.types, new.types),
            modified_types: modified_entries(old.types, new.types),
            deleted_types: deleted_entries(old.types, new.types),
            added_interfaces: added_entries(old.interfaces, new.interfaces),
            modified_interfaces: modified_entries(old.interfaces, new.interfaces),
            deleted_interfaces: deleted_entries(old.interfaces, new.interfaces),
            added_methods: added_entries(old.methods, new.methods),
            modified_methods: modified_entries(old.methods, new.methods),
            deleted_methods: deleted_entries(old.methods, new.methods),
        }
    }
}

/// An entry of a name and one text.
fn entry_of(name: &String, node: &Declaration) -> (entry: Vec<String>)
    ensures
        entry.deep_view() == seq![name@, node.code@],
{
    let mut entry: Vec<String> = Vec::new();
    entry.push(name.clone());
    entry.push(format_node(node));
    assert(entry.deep_view() =~= seq![name@, node.code@]);
    entry
}

/// Every declaration of `map` as an entry.
fn all_elements(map: &NameMap<Declaration>) -> (entries: Vec<Vec<String>>)
    ensures
        entries.deep_view() == all_entries(map@),
{
    let mut entries: Vec<Vec<String>> = Vec::new();
    let mut i: usize = 0;
    while i < map.entries.len()
        invariant
            i <= map.entries.len(),
            entries.deep_view() =~= all_entries(map@.take(i as int)),
        decreases map.entries.len() - i,
    {
        let ghost before = entries.deep_view();
        let entry = entry_of(&map.entries[i].0, &map.entries[i].1);
        entries.push(entry);
        proof {
            assert(entries.deep_view() =~= before.push(entry.deep_view()));
            assert(map@.take(i + 1) =~= map@.take(i as int).push(map@[i as int]));
        }
        i = i + 1;
    }
    assert(map@.take(i as int) =~= map@);
    entries
}

/// The declarations of `of` whose names `other` does not have.
fn names_missing(of: &NameMap<Declaration>, other: &NameMap<Declaration>) -> (entries: Vec<
    Vec<String>,
>)
    ensures
        entries.deep_view() == of@.filter(absent_from(other@)).map_values(plain_entry()),
{
    let ghost pred = absent_from(other@);
    let mut entries: Vec<Vec<String>> = Vec::new();
    let mut i: usize = 0;
    proof {
        reveal(Seq::filter);
        assert(of@.take(0) =~= Decls::empty());
    }
    while i < of.entries.len()
        invariant
            i <= of.entries.len(),
            pred == absent_from(other@),
            entries.deep_view() =~= of@.take(i as int).filter(pred).map_values(plain_entry()),
        decreases of.entries.len() - i,
    {
        let ghost before = entries.deep_view();
        let ghost front = of@.take(i as int);
        proof {
            front.lemma_filter_push(of@[i as int], pred);
            assert(front.push(of@[i as int]) =~= of@.take(i + 1));
        }
        if !other.contains_key(&of.entries[i].0) {
            let entry = entry_of(&of.entries[i].0, &of.entries[i].1);
            entries.push(entry);
            assert(entries.deep_view() =~= before.push(entry.deep_view()));
        }
        i = i + 1;
    }
    assert(of@.take(i as int) =~= of@);
    entries
}

/// The declarations that `new_map` has and `old_map` has not.
fn find_added_elements(old_map: &NameMap<Declaration>, new_map: &NameMap<Declaration>) -> (added:
    Vec<Vec<String>>)
    ensures
        added.deep_view() == added_entries(old_map@, new_map@),
{
    names_missing(new_map, old_map)
}

/// The declarations that `old_map` has and `new_map` has not.
fn find_deleted_elements(old_map: &NameMap<Declaration>, new_map: &NameMap<Declaration>) -> (deleted:
    Vec<Vec<String>>)
    ensures
        deleted.deep_view() == deleted_entries(old_map@, new_map@),
{
    names_missing(old_map, new_map)
}

/// The declarations that both maps have, with different texts.
fn find_modified_elements(old_map: &NameMap<Declaration>, new_map: &NameMap<Declaration>) -> (modified:
    Vec<Vec<String>>)
    ensures
        modified.deep_view() == modified_entries(old_map@, new_map@),
{
    let ghost pred = changed_in(new_map@);
    let ghost to_entry = changed_entry(new_map@);
    let mut modified: Vec<Vec<String>> = Vec::new();
    let mut i: usize = 0;
    proof {
        reveal(Seq::filter);
        assert(old_map@.take(0) =~= Decls::empty());
    }
    while i < old_map.entries.len()
        invariant
            i <= old_map.entries.len(),
            pred == changed_in(new_map@),
            to_entry == changed_entry(new_map@),
            modified.deep_view() =~= old_map@.take(i as int).filter(pred).map_values(to_entry),
        decreases old_map.entries.len() - i,
    {
        let ghost before = modified.deep_view();
        let ghost front = old_map@.take(i as int);
        proof {
            front.lemma_filter_push(old_map@[i as int], pred);
            assert(front.push(old_map@[i as int]) =~= old_map@.take(i + 1));
        }
        let name = &old_map.entries[i].0;
        let old_node = &old_map.entries[i].1;
        assert(old_map@[i as int] == (name@, *old_node));
        if let Some(new_node) = new_map.get(name) {
            let old_code = format_node(old_node);
            let new_code = format_node(new_node);
            if old_code != new_code {
                let mut entry: Vec<String> = Vec::new();
                entry.push(name.clone());
                entry.push(old_code);
                entry.push(new_code);
                proof {
                    assert(entry.deep_view() =~= seq![name@, old_node.code@, new_node.code@]);
                    assert(pred(old_map@[i as int]));
                    assert(to_entry(old_map@[i as int]) =~= entry.deep_view());
                }
                modified.push(entry);
                assert(modified.deep_view() =~= before.push(entry.deep_view()));
            } else {
                assert(!pred(old_map@[i as int]));
            }
        } else {
            assert(!pred(old_map@[i as int]));
        }
        i = i + 1;
    }
    assert(old_map@.take(i as int) =~= old_map@);
    modified
}

/// Compares two snapshots of the file at `file_path`.
///
/// The report is named after the file; `package_name` is taken for the
/// caller's convenience and does not enter the report.
pub fn compare_asts(
    old_ast: &FileASTData,
    new_ast: &FileASTData,
    package_name: &str,
    file_path: &str,
    is_new_file: bool,
    is_removed_file: bool,
) -> (changes: DetailedChanges)
    ensures
        changes@ == change_report(old_ast@, new_ast@, file_path@, is_new_file, is_removed_file),
        changes@.well_formed(),
{
    let mut changes = DetailedChanges::new(String::from_str(file_path));
    if is_new_file {
        changes.added_functions = all_elements(&new_ast.functions);
        changes.added_types = all_elements(&new_ast.types);
        changes.added_interfaces = all_elements(&new_ast.interfaces);
        changes.added_methods = all_elements(&new_ast.methods);
    } else if is_removed_file {
        changes.deleted_functions = all_elements(&old_ast.functions);
        changes.deleted_types = all_elements(&old_ast.types);
        changes.deleted_interfaces = all_elements(&old_ast.interfaces);
        changes.deleted_methods = all_elements(&old_ast.methods);
    } else {
        changes.added_functions = find_added_elements(&old_ast.functions, &new_ast.functions);
        changes.modified_functions = find_modified_elements(&old_ast.functions, &new_ast.functions);
        changes.deleted_functions = find_deleted_elements(&old_ast.functions, &new_ast.functions);

        changes.added_types = find_added_elements(&old_ast.types, &new_ast.types);
        changes.modified_types = find_modified_elements(&old_ast.types, &new_ast.types);
        changes.deleted_types = find_deleted_elements(&old_ast.types, &new_ast.types);

        changes.added_interfaces = find_added_elements(&old_ast.interfaces, &new_ast.interfaces);
        changes.modified_interfaces = find_modified_elements(
            &old_ast.interfaces,
            &new_ast.interfaces,
        );
        changes.deleted_interfaces = find_deleted_elements(
            &old_ast.interfaces,
            &new_ast.interfaces,
        );

        changes.added_methods = find_added_elements(&old_ast.methods, &new_ast.methods);
        changes.modified_methods = find_modified_elements(&old_ast.methods, &new_ast.methods);
        changes.deleted_methods = find_deleted_elements(&old_ast.methods, &new_ast.methods);
    }
    proof {
        let report = change_report(old_ast@, new_ast@, file_path@, is_new_file, is_removed_file);
        assert(changes@.modified_functions =~= report.modified_functions);
        assert(changes@.deleted_functions =~= report.deleted_functions);
        assert(changes@.added_functions =~= report.added_functions);
        assert(changes@.modified_types =~= report.modified_types);
        assert(changes@.deleted_types =~= report.deleted_types);
        assert(changes@.added_types =~= report.added_types);
        assert(changes@.modified_interfaces =~= report.modified_interfaces);
        assert(changes@.deleted_interfaces =~= report.deleted_interfaces);
        assert(changes@.added_interfaces =~= report.added_interfaces);
        assert(changes@.modified_methods =~= report.modified_methods);
        assert(changes@.deleted_methods =~= report.deleted_methods);
        assert(changes@.added_methods =~= report.added_methods);
        lemma_report_well_formed(old_ast@, new_ast@, file_path@, is_new_file, is_removed_file);
    }
    changes
}

/// In every report each added and deleted entry is a name and a text, and
/// each modified entry a name and two texts.
pub proof fn lemma_report_well_formed(
    old: FileASTDataView,
    new: FileASTDataView,
    file_path: Seq<char>,
    is_new_file: bool,
    is_removed_file: bool,
)
    ensures
        change_report(old, new, file_path, is_new_file, is_removed_file).well_formed(),
{
}

/// The snapshot that `table` holds for `file`; the empty snapshot where it
/// holds none.
pub open spec fn snapshot_at(table: Seq<(Seq<char>, FileASTData)>, file: Seq<char>)
    -> FileASTDataView {
    match lookup(table, file) {
        Some(ast) => ast@,
        None => FileASTDataView::empty(file),
    }
}

/// The change report of one file of a run.
///
/// A file listed as new is compared as a new file, with nothing on the old
/// side. A file listed as deleted, and not as new, is compared as a removed
/// file, with nothing on the new side. For any other file both snapshots
/// are taken from the tables, and a file that a table lacks counts as empty.
pub open spec fn file_report(
    file: Seq<char>,
    branch_asts: Seq<(Seq<char>, FileASTData)>,
    current_asts: Seq<(Seq<char>, FileASTData)>,
    new_files: Seq<Seq<char>>,
    deleted_files: Seq<Seq<char>>,
) -> DetailedChangesView {
    let is_new = new_files.contains(file);
    let is_deleted = deleted_files.contains(file);
    let old = if is_new {
        FileASTDataView::empty(file)
    } else {
        snapshot_at(branch_asts, file)
    };
    let new = if !is_new && is_deleted {
        FileASTDataView::empty(file)
    } else {
        snapshot_at(current_asts, file)
    };
    change_report(old, new, file, is_new, is_deleted)
}

/// The function from a file to its report.
pub open spec fn report_of(
    branch_asts: Seq<(Seq<char>, FileASTData)>,
    current_asts: Seq<(Seq<char>, FileASTData)>,
    new_files: Seq<Seq<char>>,
    deleted_files: Seq<Seq<char>>,
) -> spec_fn(Seq<char>) -> DetailedChangesView {
    |file: Seq<char>| file_report(file, branch_asts, current_asts, new_files, deleted_files)
}

/// The test "the report has an entry".
pub open spec fn with_changes() -> spec_fn(DetailedChangesView) -> bool {
    |report: DetailedChangesView| report.has_changes()
}

/// The reports of a run: one for each of `files`, in order, without those
/// that have no entry.
pub open spec fn run_reports(
    files: Seq<Seq<char>>,
    branch_asts: Seq<(Seq<char>, FileASTData)>,
    current_asts: Seq<(Seq<char>, FileASTData)>,
    new_files: Seq<Seq<char>>,
    deleted_files: Seq<Seq<char>>,
) -> Seq<DetailedChangesView> {
    files.map_values(report_of(branch_asts, current_asts, new_files, deleted_files)).filter(
        with_changes(),
    )
}

/// Compares every file of `rust_files` between the snapshots taken at the
/// base revision, `branch_asts`, and those taken at the target revision,
/// `current_asts`, and keeps the reports that have an entry.
pub fn process_rust_files(
    rust_files: &Vec<String>,
    branch_asts: &NameMap<FileASTData>,
    current_asts: &NameMap<FileASTData>,
    new_files: &Vec<String>,
    deleted_files: &Vec<String>,
) -> (all_changes: Vec<DetailedChanges>)
    ensures
        all_changes.deep_view() == run_reports(
            rust_files.deep_view(),
            branch_asts@,
            current_asts@,
            new_files.deep_view(),
            deleted_files.deep_view(),
        ),
        forall|i: int| 0 <= i < all_changes.len() ==> (#[trigger] all_changes[i])@.well_formed(),
{
    let ghost to_report = report_of(
        branch_asts@,
        current_asts@,
        new_files.deep_view(),
        deleted_files.deep_view(),
    );
    let ghost files = rust_files.deep_view();
    let mut all_changes: Vec<DetailedChanges> = Vec::new();
    let mut i: usize = 0;
    proof {
        reveal(Seq::filter);
        assert(files.take(0).map_values(to_report) =~= Seq::<DetailedChangesView>::empty());
    }
    while i < rust_files.len()
        invariant
            i <= rust_files.len(),
            files == rust_files.deep_view(),
            to_report == report_of(
                branch_asts@,
                current_asts@,
                new_files.deep_view(),
                deleted_files.deep_view(),
            ),
            all_changes.deep_view() =~= files.take(i as int).map_values(to_report).filter(
                with_changes(),
            ),
            forall|j: int|
                0 <= j < all_changes.len() ==> (#[trigger] all_changes[j])@.well_formed(),
        decreases rust_files.len() - i,
    {
        let file = &rust_files[i];
        let empty = FileASTData::empty(file.clone());
        let is_new = contains_string(new_files, file);
        let is_deleted = contains_string(deleted_files, file);
        let old_ast = if is_new {
            &empty
        } else {
            match branch_asts.get(file) {
                Some(ast) => ast,
                None => &empty,
            }
        };
        let new_ast = if !is_new && is_deleted {
            &empty
        } else {
            match current_asts.get(file) {
                Some(ast) => ast,
                None => &empty,
            }
        };
        let changes = compare_asts(old_ast, new_ast, "", file.as_str(), is_new, is_deleted);
        proof {
            let done = files.take(i as int).map_values(to_report);
            assert(files[i as int] == file@);
            assert(changes@ == to_report(file@));
            assert(files.take(i + 1).map_values(to_report) =~= done.push(to_report(file@)));
            done.lemma_filter_push(to_report(file@), with_changes());
        }
        if changes.has_changes() {
            let ghost before = all_changes.deep_view();
            all_changes.push(changes);
            assert(all_changes.deep_view() =~= before.push(changes@));
        }
        i = i + 1;
    }
    assert(files.take(i as int) =~= files);
    all_changes
}

/// Some entry of `entries` is for the declaration named `name`.
pub open spec fn names(entries: Entries, name: Seq<char>) -> bool {
    exists|j: int| 0 <= j < entries.len() && (#[trigger] entries[j]).len() > 0 && entries[j][0] == name
}

/// Both snapshots declare `name`, with different texts.
pub open spec fn differs(old: Decls, new: Decls, name: Seq<char>) -> bool {
    &&& lookup(old, name) is Some
    &&& lookup(new, name) is Some
    &&& lookup(old, name)->Some_0.code@ != lookup(new, name)->Some_0.code@
}

/// In a list of unique names, a declaration is found under its name.
proof fn lemma_lookup_member(decls: Decls, k: int)
    requires
        unique_keys(decls),
        0 <= k < decls.len(),
    ensures
        lookup(decls, decls[k].0) == Some(decls[k].1),
        position_of(decls, decls[k].0) == k,
{
    assert forall|j: int| 0 <= j < k implies (#[trigger] decls[j]).0 != decls[k].0 by {
        assert(decls[j].0 != decls[k].0);
    }
    assert(is_first_at(decls, decls[k].0, k));
    lemma_position_of(decls, decls[k].0);
}

/// The names that the list of the declarations missing from `other` holds:
/// those that `of` declares and `other` does not.
proof fn lemma_missing_names(of: Decls, other: Decls)
    ensures
        forall|name: Seq<char>|
            names(of.filter(absent_from(other)).map_values(plain_entry()), name) <==> (has_key(
                of,
                name,
            ) && !has_key(other, name)),
{
    let pred = absent_from(other);
    let kept = of.filter(pred);
    let list = kept.map_values(plain_entry());
    assert forall|name: Seq<char>|
        names(list, name) <==> (has_key(of, name) && !has_key(other, name)) by {
        if names(list, name) {
            let j = choose|j: int|
                0 <= j < list.len() && (#[trigger] list[j]).len() > 0 && list[j][0] == name;
            let e = kept[j];
            assert(pred(e));
            assert(kept.contains(e));
            of.lemma_filter_contains_rev(pred, e);
            let k = choose|k: int| 0 <= k < of.len() && of[k] == e;
            assert(of[k].0 == name);
        }
        if has_key(of, name) && !has_key(other, name) {
            let k = choose|k: int| 0 <= k < of.len() && (#[trigger] of[k]).0 == name;
            assert(pred(of[k]));
            assert(kept.contains(of[k]));
            let j = choose|j: int| 0 <= j < kept.len() && kept[j] == of[k];
            assert(list[j][0] == name);
        }
    }
}

/// The names that the list of modified declarations holds: names that both
/// snapshots declare, and, where the old snapshot declares no name twice,
/// exactly those under which the two hold different texts.
proof fn lemma_modified_names(old: Decls, new: Decls)
    ensures
        forall|name: Seq<char>|
            names(modified_entries(old, new), name) ==> has_key(old, name) && has_key(new, name),
        unique_keys(old) ==> forall|name: Seq<char>|
            names(modified_entries(old, new), name) <==> differs(old, new, name),
{
    let pred = changed_in(new);
    let kept = old.filter(pred);
    let list = modified_entries(old, new);
    assert forall|name: Seq<char>| names(list, name) implies has_key(old, name) && has_key(
        new,
        name,
    ) && (unique_keys(old) ==> differs(old, new, name)) by {
        let j = choose|j: int|
            0 <= j < list.len() && (#[trigger] list[j]).len() > 0 && list[j][0] == name;
        let e = kept[j];
        assert(pred(e));
        assert(kept.contains(e));
        old.lemma_filter_contains_rev(pred, e);
        let k = choose|k: int| 0 <= k < old.len() && old[k] == e;
        assert(old[k].0 == name);
        if unique_keys(old) {
            lemma_lookup_member(old, k);
        }
    }
    assert forall|name: Seq<char>| differs(old, new, name) implies names(list, name) by {
        lemma_position_of(old, name);
        let k = position_of(old, name);
        assert(pred(old[k]));
        assert(kept.contains(old[k]));
        let j = choose|j: int| 0 <= j < kept.len() && kept[j] == old[k];
        assert(list[j][0] == name);
    }
}

/// What the list of modified declarations holds: an entry for each name
/// under which the two snapshots hold different texts, with the two texts.
proof fn lemma_modified_entries(old: Decls, new: Decls)
    requires
        unique_keys(old),
    ensures
        forall|name: Seq<char>, before: Seq<char>, after: Seq<char>| #[trigger]
            modified_entries(old, new).contains(change_entry(name, before, after)) <==> (before
                != after && lookup(old, name) is Some && lookup(old, name)->Some_0.code@ == before
                && lookup(new, name) is Some && lookup(new, name)->Some_0.code@ == after),
{
    let pred = changed_in(new);
    let kept = old.filter(pred);
    let list = modified_entries(old, new);
    assert forall|name: Seq<char>, before: Seq<char>, after: Seq<char>| #[trigger]
        list.contains(change_entry(name, before, after)) <==> (before != after && lookup(old, name)
            is Some && lookup(old, name)->Some_0.code@ == before && lookup(new, name) is Some
            && lookup(new, name)->Some_0.code@ == after) by {
        let entry = change_entry(name, before, after);
        if list.contains(entry) {
            let j = choose|j: int| 0 <= j < list.len() && list[j] == entry;
            let e = kept[j];
            assert(list[j][0] == name && list[j][1] == before && list[j][2] == after);
            assert(pred(e));
            assert(kept.contains(e));
            old.lemma_filter_contains_rev(pred, e);
            let k = choose|k: int| 0 <= k < old.len() && old[k] == e;
            lemma_lookup_member(old, k);
        }
        if before != after && lookup(old, name) is Some && lookup(old, name)->Some_0.code@
            == before && lookup(new, name) is Some && lookup(new, name)->Some_0.code@ == after {
            lemma_position_of(old, name);
            let k = position_of(old, name);
            assert(pred(old[k]));
            assert(kept.contains(old[k]));
            let j = choose|j: int| 0 <= j < kept.len() && kept[j] == old[k];
            assert(list[j] =~= entry);
        }
    }
}

/// One category of a snapshot compared with itself has nothing added,
/// modified or deleted.
pub proof fn lemma_same_decls(decls: Decls)
    requires
        unique_keys(decls),
    ensures
        added_entries(decls, decls).len() == 0,
        modified_entries(decls, decls).len() == 0,
        deleted_entries(decls, decls).len() == 0,
{
    let missing = decls.filter(absent_from(decls));
    if missing.len() > 0 {
        let e = missing[0];
        assert(absent_from(decls)(e));
        assert(missing.contains(e));
        decls.lemma_filter_contains_rev(absent_from(decls), e);
        let k = choose|k: int| 0 <= k < decls.len() && decls[k] == e;
        assert(decls[k].0 == e.0);
    }
    let changed = decls.filter(changed_in(decls));
    if changed.len() > 0 {
        let e = changed[0];
        assert(changed_in(decls)(e));
        assert(changed.contains(e));
        decls.lemma_filter_contains_rev(changed_in(decls), e);
        let k = choose|k: int| 0 <= k < decls.len() && decls[k] == e;
        lemma_lookup_member(decls, k);
    }
}

/// A snapshot compared with itself gives an empty report.
pub proof fn lemma_same_snapshot(snapshot: FileASTDataView, file_path: Seq<char>)
    requires
        snapshot.wf(),
    ensures
        !change_report(snapshot, snapshot, file_path, false, false).has_changes(),
{
    lemma_same_decls(snapshot.functions);
    lemma_same_decls(snapshot.types);
    lemma_same_decls(snapshot.interfaces);
    lemma_same_decls(snapshot.methods);
}

/// The modified entries of `there` are those of `here` with the two texts
/// exchanged.
pub open spec fn exchanged(here: Entries, there: Entries) -> bool {
    forall|name: Seq<char>, before: Seq<char>, after: Seq<char>|
        #![trigger here.contains(change_entry(name, before, after))]
        #![trigger there.contains(change_entry(name, after, before))]
        here.contains(change_entry(name, before, after)) <==> there.contains(
            change_entry(name, after, before),
        )
}

/// Comparing one category the other way round exchanges what is added and
/// what is deleted, and keeps what is modified, with the texts exchanged.
pub proof fn lemma_swap_decls(old: Decls, new: Decls)
    requires
        unique_keys(old),
        unique_keys(new),
    ensures
        added_entries(new, old) == deleted_entries(old, new),
        deleted_entries(new, old) == added_entries(old, new),
        exchanged(modified_entries(old, new), modified_entries(new, old)),
{
    lemma_modified_entries(old, new);
    lemma_modified_entries(new, old);
}

/// Comparing two snapshots the other way round exchanges what is added and
/// what is deleted, and keeps what is modified, with the texts exchanged.
pub proof fn lemma_swap_snapshots(old: FileASTDataView, new: FileASTDataView, file_path: Seq<char>)
    requires
        old.wf(),
        new.wf(),
    ensures
        ({
            let forth = change_report(old, new, file_path, false, false);
            let back = change_report(new, old, file_path, false, false);
            &&& back.added_functions == forth.deleted_functions
            &&& back.deleted_functions == forth.added_functions
            &&& exchanged(forth.modified_functions, back.modified_functions)
            &&& back.added_types == forth.deleted_types
            &&& back.deleted_types == forth.added_types
            &&& exchanged(forth.modified_types, back.modified_types)
            &&& back.added_interfaces == forth.deleted_interfaces
            &&& back.deleted_interfaces == forth.added_interfaces
            &&& exchanged(forth.modified_interfaces, back.modified_interfaces)
            &&& back.added_methods == forth.deleted_methods
            &&& back.deleted_methods == forth.added_methods
            &&& exchanged(forth.modified_methods, back.modified_methods)
        }),
{
    lemma_swap_decls(old.functions, new.functions);
    lemma_swap_decls(old.types, new.types);
    lemma_swap_decls(old.interfaces, new.interfaces);
    lemma_swap_decls(old.methods, new.methods);
}

/// The report of a new file does not depend on the old snapshot, nor on
/// whether the file is also said to be removed; the report of a removed
/// file does not depend on the new snapshot.
pub proof fn lemma_override(
    old: FileASTDataView,
    new: FileASTDataView,
    other: FileASTDataView,
    file_path: Seq<char>,
    is_removed_file: bool,
    other_flag: bool,
)
    ensures
        change_report(old, new, file_path, true, is_removed_file) == change_report(
            other,
            new,
            file_path,
            true,
            other_flag,
        ),
        change_report(old, new, file_path, false, true) == change_report(
            old,
            other,
            file_path,
            false,
            true,
        ),
{
}

/// The report of a new file lists every declaration of the new snapshot as
/// added, in the snapshot's order, and nothing else; it has an entry
/// exactly if the snapshot has a declaration.
pub proof fn lemma_new_file(old: FileASTDataView, new: FileASTDataView, file_path: Seq<char>)
    ensures
        ({
            let report = change_report(old, new, file_path, true, false);
            &&& report.added_functions.len() == new.functions.len()
            &&& report.added_types.len() == new.types.len()
            &&& report.added_interfaces.len() == new.interfaces.len()
            &&& report.added_methods.len() == new.methods.len()
            &&& forall|i: int|
                0 <= i < new.functions.len() ==> #[trigger] report.added_functions[i]
                    == text_entry(new.functions[i].0, new.functions[i].1.code@)
            &&& forall|i: int|
                0 <= i < new.types.len() ==> #[trigger] report.added_types[i]
                    == text_entry(new.types[i].0, new.types[i].1.code@)
            &&& forall|i: int|
                0 <= i < new.interfaces.len() ==> #[trigger] report.added_interfaces[i]
                    == text_entry(new.interfaces[i].0, new.interfaces[i].1.code@)
            &&& forall|i: int|
                0 <= i < new.methods.len() ==> #[trigger] report.added_methods[i]
                    == text_entry(new.methods[i].0, new.methods[i].1.code@)
            &&& report.modified_functions.len() + report.deleted_functions.len() == 0
            &&& report.modified_types.len() + report.deleted_types.len() == 0
            &&& report.modified_interfaces.len() + report.deleted_interfaces.len() == 0
            &&& report.modified_methods.len() + report.deleted_methods.len() == 0
            &&& report.has_changes() <==> !new.is_empty()
        }),
{
}

/// The names of the three lists of one category: added are the names that
/// only the new snapshot declares, deleted those that only the old one
/// declares, modified those that both declare with different texts.
pub proof fn lemma_listed_names(old: Decls, new: Decls, name: Seq<char>)
    requires
        unique_keys(old),
    ensures
        names(added_entries(old, new), name) <==> (has_key(new, name) && !has_key(old, name)),
        names(deleted_entries(old, new), name) <==> (has_key(old, name) && !has_key(new, name)),
        names(modified_entries(old, new), name) <==> differs(old, new, name),
{
    lemma_missing_names(new, old);
    lemma_missing_names(old, new);
    lemma_modified_names(old, new);
}

/// Within one category no name is listed under two of added, modified and
/// deleted.
pub proof fn lemma_one_list_per_name(old: Decls, new: Decls, name: Seq<char>)
    ensures
        !(names(added_entries(old, new), name) && names(modified_entries(old, new), name)),
        !(names(added_entries(old, new), name) && names(deleted_entries(old, new), name)),
        !(names(modified_entries(old, new), name) && names(deleted_entries(old, new), name)),
{
    lemma_missing_names(new, old);
    lemma_missing_names(old, new);
    lemma_modified_names(old, new);
}

} // verus!
