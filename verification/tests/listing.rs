use alloy_studio::listing::sort_listing;
use alloy_studio::types::DirEntry;

fn entry(name: &str, is_dir: bool) -> DirEntry {
    DirEntry { name: name.to_string(), path: format!("/t/{name}"), is_dir, size: 0, modified_ms: None }
}

#[test]
fn test_list_dir_sort_order() {
    let entries = sort_listing(vec![entry("b.txt", false), entry("a.txt", false), entry("z_dir", true)]);
    assert!(entries[0].is_dir);
    assert_eq!(entries[0].name, "z_dir");
    assert_eq!(entries[1].name, "a.txt");
    assert_eq!(entries[2].name, "b.txt");
}

#[test]
fn case_is_ignored_and_ties_keep_order() {
    let entries = sort_listing(vec![
        entry("beta", false),
        entry("Alpha", false),
        entry("SRC", true),
        entry("lib", true),
        entry("ALPHA", false),
    ]);
    let names: Vec<&str> = entries.iter().map(|e| e.name.as_str()).collect();
    assert_eq!(names, vec!["lib", "SRC", "Alpha", "ALPHA", "beta"]);
}
