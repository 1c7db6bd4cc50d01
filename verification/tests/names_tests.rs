use lib_file::names::{
    file_check_extension, file_del_unwanted_names, file_extract_extensions, file_path_to_fname,
    file_remove_extension, file_sort_by_ext,
};

#[test]
fn check_extension_cases() {
    assert_eq!(file_check_extension("file.txt"), (true, "txt"));
    assert_eq!(file_check_extension("document.pdf"), (true, "pdf"));
    assert_eq!(file_check_extension("archive.tar.gz"), (true, "gz"));
    assert_eq!(file_check_extension("noextension"), (false, ""));
    assert_eq!(file_check_extension(".hidden"), (false, ""));
    assert_eq!(file_check_extension("file."), (false, ""));
    assert_eq!(file_check_extension(""), (false, ""));
    assert_eq!(file_check_extension("path/to/file.rs"), (true, "rs"));
}

#[test]
fn remove_extension_cases() {
    assert_eq!(file_remove_extension("file.txt"), "file");
    assert_eq!(file_remove_extension("archive.tar.gz"), "archive.tar");
    assert_eq!(file_remove_extension(".hidden"), ".hidden");
    assert_eq!(file_remove_extension("noextension"), "noextension");
    assert_eq!(file_remove_extension("file."), "file");
    assert_eq!(file_remove_extension(""), "");
}

#[test]
fn remove_extension_works_on_the_final_component() {
    assert_eq!(file_remove_extension("a/b.c"), "b");
    assert_eq!(file_remove_extension("path/to/file.rs"), "file");
    assert_eq!(file_remove_extension(".."), "..");
}

#[test]
fn extract_extensions_collects_each() {
    let mountains = vec![
        "Soldier.mtn".to_string(),
        "Deer.low".to_string(),
        "Buttercup.mtn".to_string(),
        "Borah.hgher".to_string(),
        "Newman.low".to_string(),
        "Dollarhide.mtn".to_string(),
    ];
    let extns = file_extract_extensions(&mountains);
    assert_eq!(extns, vec!["mtn", "low", "mtn", "hgher", "low", "mtn"]);
}

#[test]
fn extract_extensions_whole_name_without_dot() {
    let names = vec!["plain".to_string(), "".to_string()];
    assert_eq!(file_extract_extensions(&names), vec!["plain", ""]);
}

#[test]
fn del_unwanted_names_keeps_matching_in_order() {
    let mut names = vec![
        "a.lst".to_string(),
        "b.txt".to_string(),
        "c.lst".to_string(),
        "d".to_string(),
        "e.lst.bak".to_string(),
    ];
    file_del_unwanted_names(&mut names, "lst");
    assert_eq!(names, vec!["a.lst", "c.lst"]);
}

#[test]
fn del_unwanted_names_can_empty_the_list() {
    let mut names = vec!["a.txt".to_string(), "b.csv".to_string()];
    file_del_unwanted_names(&mut names, "lst");
    assert!(names.is_empty());
}

#[test]
fn sort_by_ext_orders_by_extension() {
    let mut names = vec![
        "Soldier.mtn".to_string(),
        "Deer.low".to_string(),
        "Borah.hgher".to_string(),
        "Newman.low".to_string(),
    ];
    file_sort_by_ext(&mut names);
    assert_eq!(names, vec!["Borah.hgher", "Deer.low", "Newman.low", "Soldier.mtn"]);
}

#[test]
fn sort_by_ext_is_stable_for_equal_extensions() {
    let mut names = vec![
        "zeta.txt".to_string(),
        "alpha.txt".to_string(),
        "mid.abc".to_string(),
    ];
    file_sort_by_ext(&mut names);
    assert_eq!(names, vec!["mid.abc", "zeta.txt", "alpha.txt"]);
}

#[test]
fn sort_by_ext_keeps_order_within_interleaved_extensions() {
    let mut names = vec![
        "b.y".to_string(),
        "a.x".to_string(),
        "d.y".to_string(),
        "c.x".to_string(),
    ];
    file_sort_by_ext(&mut names);
    assert_eq!(names, vec!["a.x", "c.x", "b.y", "d.y"]);
}

#[test]
fn path_to_fname_takes_final_component() {
    assert_eq!(file_path_to_fname(&"/a/b/c.txt".to_string()), "c.txt");
    assert_eq!(file_path_to_fname(&"relative/name.lst".to_string()), "name.lst");
}

#[test]
fn path_to_fname_without_component_reports() {
    assert_eq!(file_path_to_fname(&"/".to_string()), "Error: could not get filename");
}
