use lib_file::csv::{split_csv_cells, trim_spaces};

#[test]
fn trim_strips_both_ends() {
    assert_eq!(trim_spaces("  hello \t"), "hello");
    assert_eq!(trim_spaces("hello"), "hello");
    assert_eq!(trim_spaces("   "), "");
    assert_eq!(trim_spaces(""), "");
    assert_eq!(trim_spaces("\u{A0}wide\u{3000}"), "wide");
    assert_eq!(trim_spaces(" a b "), "a b");
}

#[test]
fn split_csv_trims_each_cell() {
    assert_eq!(
        split_csv_cells("nails, screws ,\thammers"),
        vec!["nails", "screws", "hammers"]
    );
}

#[test]
fn split_csv_of_empty_text_is_one_empty_cell() {
    assert_eq!(split_csv_cells(""), vec![""]);
}

#[test]
fn split_csv_keeps_empty_cells() {
    assert_eq!(split_csv_cells("a,,b,"), vec!["a", "", "b", ""]);
}

#[test]
fn split_csv_single_cell() {
    assert_eq!(split_csv_cells(" just one "), vec!["just one"]);
}
