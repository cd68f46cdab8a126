use rust_ast_differ::output::{
    create_output_files, create_type_specific_file, output_file_name, CodeRecord, ModifiedRecord,
};
use rust_ast_differ::syntax::Category;
use rust_ast_differ::types::DetailedChanges;

fn o_entry(parts: &[&str]) -> Vec<String> {
    parts.iter().map(|s| s.to_string()).collect()
}

fn o_code(records: &[CodeRecord]) -> Vec<(String, String, String)> {
    records
        .iter()
        .map(|r| (r.module.clone(), r.item.name.clone(), r.item.code.clone()))
        .collect()
}

fn o_modified(records: &[ModifiedRecord]) -> Vec<(String, String, String, String)> {
    records
        .iter()
        .map(|r| {
            (r.module.clone(), r.item.name.clone(), r.item.old_code.clone(), r.item.new_code.clone())
        })
        .collect()
}

fn o_t3(a: &str, b: &str, c: &str) -> (String, String, String) {
    (a.to_string(), b.to_string(), c.to_string())
}

fn o_reports() -> Vec<DetailedChanges> {
    let mut first = DetailedChanges::new("a.rs".to_string());
    first.added_functions.push(o_entry(&["f", "fn f () { }"]));
    first.added_functions.push(o_entry(&["g", "fn g () { }"]));
    first.modified_functions.push(o_entry(&["h", "fn h () { 1 }", "fn h () { 2 }"]));
    first.deleted_types.push(o_entry(&["T", "struct T ;"]));
    first.added_methods.push(o_entry(&["T.m", "fn m () { }"]));
    let mut second = DetailedChanges::new("b.rs".to_string());
    second.deleted_functions.push(o_entry(&["k", "fn k () { }"]));
    second.added_functions.push(o_entry(&["l", "fn l () { }"]));
    second.modified_interfaces.push(o_entry(&["I", "trait I { }", "trait I : J { }"]));
    vec![first, second]
}

#[test]
fn records_of_one_category_over_all_reports() {
    let reports = o_reports();
    let functions = create_type_specific_file(&reports, Category::Function);
    assert_eq!(
        o_code(&functions.added),
        vec![
            o_t3("a.rs", "f", "fn f () { }"),
            o_t3("a.rs", "g", "fn g () { }"),
            o_t3("b.rs", "l", "fn l () { }"),
        ]
    );
    assert_eq!(
        o_modified(&functions.modified),
        vec![("a.rs".to_string(), "h".to_string(), "fn h () { 1 }".to_string(), "fn h () { 2 }".to_string())]
    );
    assert_eq!(o_code(&functions.deleted), vec![o_t3("b.rs", "k", "fn k () { }")]);
}

#[test]
fn each_category_takes_its_own_lists() {
    let reports = o_reports();
    let files = create_output_files(&reports);
    assert_eq!(files.function_changes.added.len(), 3);
    assert_eq!(o_code(&files.type_changes.deleted), vec![o_t3("a.rs", "T", "struct T ;")]);
    assert!(files.type_changes.added.is_empty() && files.type_changes.modified.is_empty());
    assert_eq!(
        o_modified(&files.interface_changes.modified),
        vec![("b.rs".to_string(), "I".to_string(), "trait I { }".to_string(), "trait I : J { }".to_string())]
    );
    assert!(files.interface_changes.added.is_empty());
    assert_eq!(o_code(&files.method_changes.added), vec![o_t3("a.rs", "T.m", "fn m () { }")]);
    assert!(files.method_changes.deleted.is_empty());
}

#[test]
fn no_reports_give_no_records() {
    let files = create_output_files(&vec![]);
    assert!(files.function_changes.added.is_empty());
    assert!(files.function_changes.modified.is_empty());
    assert!(files.function_changes.deleted.is_empty());
    assert!(files.method_changes.added.is_empty());
}

#[test]
fn the_file_of_each_category() {
    assert_eq!(output_file_name(Category::Function), "function_changes.json");
    assert_eq!(output_file_name(Category::Type), "type_changes.json");
    assert_eq!(output_file_name(Category::Interface), "interface_changes.json");
    assert_eq!(output_file_name(Category::Method), "method_changes.json");
}
