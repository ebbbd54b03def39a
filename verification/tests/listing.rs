use embed_pipeline::fstree::{is_hidden, sort_file_items, FileItem};

fn item(name: &str, is_dir: bool) -> FileItem {
    FileItem {
        name: name.to_string(),
        path: format!("/tmp/{}", name),
        is_dir,
        children: None,
    }
}

#[test]
fn hidden_entries_are_recognized() {
    assert!(is_hidden(".git"));
    assert!(is_hidden(".hidden"));
    assert!(!is_hidden("src"));
    assert!(!is_hidden(""));
}

#[test]
fn directories_sort_before_files_case_insensitively() {
    let mut items = vec![
        item("banana", false),
        item("Zeta", true),
        item("Apple", false),
        item("alpha", true),
    ];
    sort_file_items(&mut items);
    let names: Vec<&str> = items.iter().map(|i| i.name.as_str()).collect();
    assert_eq!(names, vec!["alpha", "Zeta", "Apple", "banana"]);
    assert!(items[0].is_dir && items[1].is_dir);
    assert!(!items[2].is_dir && !items[3].is_dir);
}

#[test]
fn sorting_keeps_every_entry() {
    let mut items = vec![item("c", false), item("b", true), item("a", false)];
    sort_file_items(&mut items);
    assert_eq!(items.len(), 3);
    let mut names: Vec<String> = items.iter().map(|i| i.name.clone()).collect();
    names.sort();
    assert_eq!(names, vec!["a".to_string(), "b".to_string(), "c".to_string()]);
}
