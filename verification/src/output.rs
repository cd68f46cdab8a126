//! The shape in which a run's reports are handed to the writer: for each
//! category one list of added, one of modified and one of deleted
//! declarations over all files.
use crate::syntax::Category;
use crate::types::{DetailedChanges, DetailedChangesView, Entries, ModifiedCode, NamedCode};
use vstd::prelude::*;

verus! {

/// An added or deleted declaration and the module it belongs to.
#[derive(Debug)]
pub struct CodeRecord {
    pub module: String,
    pub item: NamedCode,
}

impl DeepView for CodeRecord {
    type V = (Seq<char>, Seq<char>, Seq<char>);

    open spec fn deep_view(&self) -> (Seq<char>, Seq<char>, Seq<char>) {
        (self.module@, self.item.name@, self.item.code@)
    }
}

/// A modified declaration and the module it belongs to.
#[derive(Debug)]
pub struct ModifiedRecord {
    pub module: String,
    pub item: ModifiedCode,
}

impl DeepView for ModifiedRecord {
    type V = (Seq<char>, Seq<char>, Seq<char>, Seq<char>);

    open spec fn deep_view(&self) -> (Seq<char>, Seq<char>, Seq<char>, Seq<char>) {
        (self.module@, self.item.name@, self.item.old_code@, self.item.new_code@)
    }
}

/// The changes of one category over all files of a run.
#[derive(Debug)]
pub struct TypeSpecificChanges {
    pub added: Vec<CodeRecord>,
    pub modified: Vec<ModifiedRecord>,
    pub deleted: Vec<CodeRecord>,
}

/// The changes of one category with every record as a tuple of texts:
/// module, name and text, or module, name, old text and new text.
pub struct TypeSpecificChangesView {
    pub added: Seq<(Seq<char>, Seq<char>, Seq<char>)>,
    pub modified: Seq<(Seq<char>, Seq<char>, Seq<char>, Seq<char>)>,
    pub deleted: Seq<(Seq<char>, Seq<char>, Seq<char>)>,
}

impl View for TypeSpecificChanges {
    type V = TypeSpecificChangesView;

    open spec fn view(&self) -> TypeSpecificChangesView {
        TypeSpecificChangesView {
            added: self.added.deep_view(),
            modified: self.modified.deep_view(),
            deleted: self.deleted.deep_view(),
        }
    }
}

/// The changes of a run, category by category.
#[derive(Debug)]
pub struct OutputFiles {
    pub function_changes: TypeSpecificChanges,
    pub type_changes: TypeSpecificChanges,
    pub interface_changes: TypeSpecificChanges,
    pub method_changes: TypeSpecificChanges,
}

/// The added entries of a report in the given category.
pub open spec fn added_of(report: DetailedChangesView, category: Category) -> Entries {
    match category {
        Category::Function => report.added_functions,
        Category::Type => report.added_types,
        Category::Interface => report.added_interfaces,
        Category::Method => report.added_methods,
    }
}

/// The modified entries of a report in the given category.
pub open spec fn modified_of(report: DetailedChangesView, category: Category) -> Entries {
    match category {
        Category::Function => report.modified_functions,
        Category::Type => report.modified_types,
        Category::Interface => report.modified_interfaces,
        Category::Method => report.modified_methods,
    }
}

/// The deleted entries of a report in the given category.
pub open spec fn deleted_of(report: DetailedChangesView, category: Category) -> Entries {
    match category {
        Category::Function => report.deleted_functions,
        Category::Type => report.deleted_types,
        Category::Interface => report.deleted_interfaces,
        Category::Method => report.deleted_methods,
    }
}

/// The record of an entry of a name and a text in `module`.
pub open spec fn code_record(module: Seq<char>) -> spec_fn(Seq<Seq<char>>) -> (
    Seq<char>,
    Seq<char>,
    Seq<char>,
) {
    |entry: Seq<Seq<char>>| (module, entry[0], entry[1])
}

/// The record of an entry of a name and two texts in `module`.
pub open spec fn modified_record(module: Seq<char>) -> spec_fn(Seq<Seq<char>>) -> (
    Seq<char>,
    Seq<char>,
    Seq<char>,
    Seq<char>,
) {
    |entry: Seq<Seq<char>>| (module, entry[0], entry[1], entry[2])
}

/// The records of the added entries of a report in `category`.
pub open spec fn added_records(category: Category) -> spec_fn(DetailedChangesView) -> Seq<
    (Seq<char>, Seq<char>, Seq<char>),
> {
    |report: DetailedChangesView|
        added_of(report, category).map_values(code_record(report.module_name))
}

/// The records of the modified entries of a report in `category`.
pub open spec fn modified_records(category: Category) -> spec_fn(DetailedChangesView) -> Seq<
    (Seq<char>, Seq<char>, Seq<char>, Seq<char>),
> {
    |report: DetailedChangesView|
        modified_of(report, category).map_values(modified_record(report.module_name))
}

/// The records of the deleted entries of a report in `category`.
pub open spec fn deleted_records(category: Category) -> spec_fn(DetailedChangesView) -> Seq<
    (Seq<char>, Seq<char>, Seq<char>),
> {
    |report: DetailedChangesView|
        deleted_of(report, category).map_values(code_record(report.module_name))
}

/// The changes of one category over all of `reports`: the entries of each
/// report in turn, each with the report's module name.
pub open spec fn type_specific_changes(reports: Seq<DetailedChangesView>, category: Category)
    -> TypeSpecificChangesView {
    TypeSpecificChangesView {
        added: reports.flat_map(added_records(category)),
        modified: reports.flat_map(modified_records(category)),
        deleted: reports.flat_map(deleted_records(category)),
    }
}

/// The name of the file that holds the changes of a category.
pub open spec fn file_name_of(category: Category) -> Seq<char> {
    match category {
        Category::Function => "function_changes.json"@,
        Category::Type => "type_changes.json"@,
        Category::Interface => "interface_changes.json"@,
        Category::Method => "method_changes.json"@,
    }
}

/// The name of the file that holds the changes of a category.
pub fn output_file_name(category: Category) -> (name: &'static str)
    ensures
        name@ == file_name_of(category),
{
    match category {
        Category::Function => "function_changes.json",
        Category::Type => "type_changes.json",
        Category::Interface => "interface_changes.json",
        Category::Method => "method_changes.json",
    }
}

/// The three lists of a report in the given category: added, modified,
/// deleted.
fn lists_of(changes: &DetailedChanges, category: Category) -> (lists: (
    &Vec<Vec<String>>,
    &Vec<Vec<String>>,
    &Vec<Vec<String>>,
))
    ensures
        lists.0.deep_view() == added_of(changes@, category),
        lists.1.deep_view() == modified_of(changes@, category),
        lists.2.deep_view() == deleted_of(changes@, category),
{
    match category {
        Category::Function => (
            &changes.added_functions,
            &changes.modified_functions,
            &changes.deleted_functions,
        ),
        Category::Type => (&changes.added_types, &changes.modified_types, &changes.deleted_types),
        Category::Interface => (
            &changes.added_interfaces,
            &changes.modified_interfaces,
            &changes.deleted_interfaces,
        ),
        Category::Method => (
            &changes.added_methods,
            &changes.modified_methods,
            &changes.deleted_methods,
        ),
    }
}

/// Appends to `records` the record of each of `entries` in `module`.
fn push_code_records(module: &String, entries: &Vec<Vec<String>>, records: &mut Vec<CodeRecord>)
    requires
        DetailedChangesView::each_has(entries.deep_view(), 2),
    ensures
        final(records).deep_view() == old(records).deep_view() + entries.deep_view().map_values(
            code_record(module@),
        ),
{
    let ghost start = records.deep_view();
    let ghost to_record = code_record(module@);
    let mut i: usize = 0;
    while i < entries.len()
        invariant
            i <= entries.len(),
            DetailedChangesView::each_has(entries.deep_view(), 2),
            to_record == code_record(module@),
            records.deep_view() =~= start + entries.deep_view().take(i as int).map_values(
                to_record,
            ),
        decreases entries.len() - i,
    {
        let ghost before = records.deep_view();
        let entry = &entries[i];
        assert(entries.deep_view()[i as int] == entry.deep_view());
        assert(entry.deep_view().len() == 2);
        let record = CodeRecord {
            module: module.clone(),
            item: NamedCode { name: entry[0].clone(), code: entry[1].clone() },
        };
        records.push(record);
        proof {
            assert(record.deep_view() == to_record(entry.deep_view()));
            assert(records.deep_view() =~= before.push(record.deep_view()));
            assert(entries.deep_view().take(i + 1) =~= entries.deep_view().take(i as int).push(
                entry.deep_view(),
            ));
        }
        i = i + 1;
    }
    assert(entries.deep_view().take(i as int) =~= entries.deep_view());
}

/// Appends to `records` the record of each of `entries` in `module`.
fn push_modified_records(
    module: &String,
    entries: &Vec<Vec<String>>,
    records: &mut Vec<ModifiedRecord>,
)
    requires
        DetailedChangesView::each_has(entries.deep_view(), 3),
    ensures
        final(records).deep_view() == old(records).deep_view() + entries.deep_view().map_values(
            modified_record(module@),
        ),
{
    let ghost start = records.deep_view();
    let ghost to_record = modified_record(module@);
    let mut i: usize = 0;
    while i < entries.len()
        invariant
            i <= entries.len(),
            DetailedChangesView::each_has(entries.deep_view(), 3),
            to_record == modified_record(module@),
            records.deep_view() =~= start + entries.deep_view().take(i as int).map_values(
                to_record,
            ),
        decreases entries.len() - i,
    {
        let ghost before = records.deep_view();
        let entry = &entries[i];
        assert(entries.deep_view()[i as int] == entry.deep_view());
        assert(entry.deep_view().len() == 3);
        let record = ModifiedRecord {
            module: module.clone(),
            item: ModifiedCode {
                name: entry[0].clone(),
                old_code: entry[1].clone(),
                new_code: entry[2].clone(),
            },
        };
        records.push(record);
        proof {
            assert(record.deep_view() == to_record(entry.deep_view()));
            assert(records.deep_view() =~= before.push(record.deep_view()));
            assert(entries.deep_view().take(i + 1) =~= entries.deep_view().take(i as int).push(
                entry.deep_view(),
            ));
        }
        i = i + 1;
    }
    assert(entries.deep_view().take(i as int) =~= entries.deep_view());
}

/// Every report of `reports` is well formed.
pub open spec fn all_well_formed(reports: Seq<DetailedChangesView>) -> bool {
    forall|i: int| 0 <= i < reports.len() ==> (#[trigger] reports[i]).well_formed()
}

/// Gathers the changes of one category from all reports of a run.
pub fn create_type_specific_file(all_changes: &Vec<DetailedChanges>, category: Category) -> (changes:
    TypeSpecificChanges)
    requires
        all_well_formed(all_changes.deep_view()),
    ensures
        changes@ == type_specific_changes(all_changes.deep_view(), category),
{
    let ghost reports = all_changes.deep_view();
    let mut changes = TypeSpecificChanges {
        added: Vec::new(),
        modified: Vec::new(),
        deleted: Vec::new(),
    };
    let mut i: usize = 0;
    proof {
        assert(reports.take(0) =~= Seq::<DetailedChangesView>::empty());
        assert(reports.take(0).flat_map(added_records(category)) =~= Seq::empty());
        assert(reports.take(0).flat_map(modified_records(category)) =~= Seq::empty());
        assert(reports.take(0).flat_map(deleted_records(category)) =~= Seq::empty());
    }
    while i < all_changes.len()
        invariant
            i <= all_changes.len(),
            reports == all_changes.deep_view(),
            all_well_formed(reports),
            changes@.added =~= reports.take(i as int).flat_map(added_records(category)),
            changes@.modified =~= reports.take(i as int).flat_map(modified_records(category)),
            changes@.deleted =~= reports.take(i as int).flat_map(deleted_records(category)),
        decreases all_changes.len() - i,
    {
        let report = &all_changes[i];
        assert(reports[i as int] == report@);
        assert(report@.well_formed());
        let (added, modified, deleted) = lists_of(report, category);
        proof {
            reports.lemma_flat_map_take_append(added_records(category), i as int);
            reports.lemma_flat_map_take_append(modified_records(category), i as int);
            reports.lemma_flat_map_take_append(deleted_records(category), i as int);
        }
        push_code_records(&report.module_name, added, &mut changes.added);
        push_modified_records(&report.module_name, modified, &mut changes.modified);
        push_code_records(&report.module_name, deleted, &mut changes.deleted);
        i = i + 1;
    }
    assert(reports.take(i as int) =~= reports);
    changes
}

/// Gathers the changes of a run category by category.
pub fn create_output_files(all_changes: &Vec<DetailedChanges>) -> (files: OutputFiles)
    requires
        all_well_formed(all_changes.deep_view()),
    ensures
        files.function_changes@ == type_specific_changes(
            all_changes.deep_view(),
            Category::Function,
        ),
        files.type_changes@ == type_specific_changes(all_changes.deep_view(), Category::Type),
        files.interface_changes@ == type_specific_changes(
            all_changes.deep_view(),
            Category::Interface,
        ),
        files.method_changes@ == type_specific_changes(all_changes.deep_view(), Category::Method),
{
    OutputFiles {
        function_changes: create_type_specific_file(all_changes, Category::Function),
        type_changes: create_type_specific_file(all_changes, Category::Type),
        interface_changes: create_type_specific_file(all_changes, Category::Interface),
        method_changes: create_type_specific_file(all_changes, Category::Method),
    }
}

} // verus!
