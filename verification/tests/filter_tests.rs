use lib_file::filter::fltk_build_dialogfltr;

#[test]
fn filter_joins_labelled_patterns() {
    let pairs = vec![
        "Text Files",
        "*.txt",
        "Images",
        "{*.jpg,*.png}",
        "Rust Files",
        "*.rs",
    ];
    assert_eq!(
        fltk_build_dialogfltr(&pairs),
        "Text Files\t*.txt\nImages\t{*.jpg,*.png}\nRust Files\t*.rs"
    );
}

#[test]
fn filter_prefixes_bare_extension() {
    let pairs = vec!["Lists", "lst"];
    assert_eq!(fltk_build_dialogfltr(&pairs), "Lists\t*.lst");
}

#[test]
fn filter_keeps_wildcard_pattern() {
    let pairs = vec!["All Files", "*.*"];
    assert_eq!(fltk_build_dialogfltr(&pairs), "All Files\t*.*");
}

#[test]
fn filter_ignores_trailing_unpaired_label() {
    let pairs = vec!["Lists", "lst", "Dangling"];
    assert_eq!(fltk_build_dialogfltr(&pairs), "Lists\t*.lst");
}

#[test]
fn filter_of_nothing_is_empty() {
    let pairs: Vec<&str> = Vec::new();
    assert_eq!(fltk_build_dialogfltr(&pairs), "");
}
