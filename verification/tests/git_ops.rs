use rust_ast_differ::git_ops::{file_list, is_rust_file, parse_file_list, rust_files, trim};

fn v_names(list: &[&str]) -> Vec<String> {
    list.iter().map(|s| s.to_string()).collect()
}

#[test]
fn a_listing_names_one_path_on_each_line() {
    assert_eq!(file_list("a.rs\nsrc/b.rs\nc.txt"), v_names(&["a.rs", "src/b.rs", "c.txt"]));
    assert_eq!(file_list("a.rs"), v_names(&["a.rs"]));
}

#[test]
fn an_empty_listing_names_nothing() {
    assert_eq!(file_list(""), Vec::<String>::new());
}

#[test]
fn line_feeds_at_the_ends_and_in_a_row_leave_empty_names() {
    assert_eq!(file_list("a\n"), v_names(&["a", ""]));
    assert_eq!(file_list("\na"), v_names(&["", "a"]));
    assert_eq!(file_list("a\n\nb"), v_names(&["a", "", "b"]));
    assert_eq!(file_list("\n"), v_names(&["", ""]));
}

#[test]
fn names_may_hold_any_characters() {
    assert_eq!(file_list("dir/\u{e9}t\u{e9}.rs\n\u{4e2d}.rs"), v_names(&["dir/\u{e9}t\u{e9}.rs", "\u{4e2d}.rs"]));
}

#[test]
fn command_output_is_trimmed_before_it_is_split() {
    assert_eq!(parse_file_list("a.rs\nsrc/b.rs\n"), v_names(&["a.rs", "src/b.rs"]));
    assert_eq!(parse_file_list("  a.rs \nb.rs\n\n"), v_names(&["a.rs ", "b.rs"]));
    assert_eq!(parse_file_list("\n \t\n"), Vec::<String>::new());
    assert_eq!(parse_file_list(""), Vec::<String>::new());
}

#[test]
fn rust_files_end_in_rs() {
    assert!(is_rust_file("a.rs"));
    assert!(is_rust_file("src/deep/mod.rs"));
    assert!(is_rust_file(".rs"));
    assert!(!is_rust_file("rs"));
    assert!(!is_rust_file(""));
    assert!(!is_rust_file("a.rs.bak"));
    assert!(!is_rust_file("a.RS"));
    assert!(!is_rust_file("ars"));
    assert!(!is_rust_file("a.r"));
    assert!(is_rust_file("\u{4e2d}.rs"));
}

#[test]
fn only_rust_files_are_kept_in_order() {
    let files = v_names(&["README.md", "src/b.rs", "Cargo.toml", "a.rs", "x.rsx"]);
    assert_eq!(rust_files(&files), v_names(&["src/b.rs", "a.rs"]));
    assert_eq!(rust_files(&vec![]), Vec::<String>::new());
}

#[test]
fn trim_drops_the_white_space_at_both_ends() {
    assert_eq!(trim("  a b  "), "a b");
    assert_eq!(trim("\t\n a\r\n"), "a");
    assert_eq!(trim("a"), "a");
    assert_eq!(trim("a  "), "a");
    assert_eq!(trim("  a"), "a");
    assert_eq!(trim("\u{a0}\u{3000}x y\u{2003}"), "x y");
    assert_eq!(trim("\u{e9} \u{4e2d} "), "\u{e9} \u{4e2d}");
}

#[test]
fn trim_of_white_space_alone_is_empty() {
    assert_eq!(trim(""), "");
    assert_eq!(trim(" "), "");
    assert_eq!(trim(" \t\n\r "), "");
}

#[test]
fn trim_keeps_characters_that_are_no_white_space() {
    assert_eq!(trim("_a_"), "_a_");
    assert_eq!(trim("\u{200b}a"), "\u{200b}a");
    assert_eq!(trim("0"), "0");
}
