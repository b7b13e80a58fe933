use ex::{Entry, RawEntry, list};

fn item(name: &str, depth: usize, readable: bool, is_dir: bool) -> RawEntry {
    RawEntry { name: name.to_string(), depth, readable, is_dir }
}

fn names(entries: &[Entry]) -> Vec<String> {
    entries.iter().map(|e| e.name.clone()).collect()
}

fn root_scan() -> Vec<RawEntry> {
    vec![
        item("root", 0, true, true),
        item("b.txt", 1, true, false),
        item("A", 1, true, true),
        item(".hidden", 1, true, true),
    ]
}

#[test]
fn scenario_root_listing_order() {
    let listing = list(&root_scan(), None);
    assert_eq!(names(&listing), vec!["A", ".hidden", "b.txt"]);
    assert!(listing[0].is_dir);
    assert!(listing[1].is_dir);
    assert!(!listing[2].is_dir);
}

#[test]
fn scenario_root_size_of_small_file() {
    assert_eq!(ex::file_size(500, false), Some("1 KB".to_string()));
}

#[test]
fn only_readable_immediate_children_are_listed() {
    let scan = vec![
        item("top", 0, true, true),
        item("kept.txt", 1, true, false),
        item("locked", 1, false, true),
        item("deeper.txt", 2, true, false),
        item("sub", 1, true, true),
    ];
    let listing = list(&scan, None);
    assert_eq!(names(&listing), vec!["sub", "kept.txt"]);
}

#[test]
fn empty_directory_gives_empty_listing() {
    let scan = vec![item("top", 0, true, true)];
    assert!(list(&scan, None).is_empty());
    assert!(list(&Vec::new(), Some("x")).is_empty());
}

#[test]
fn filter_is_case_insensitive_substring_of_name() {
    let scan = vec![
        item("Report.TXT", 1, true, false),
        item("notes.md", 1, true, false),
        item("TextFiles", 1, true, true),
        item(".txtrc", 1, true, false),
    ];
    let all = list(&scan, None);
    let some = list(&scan, Some("tXt"));
    assert_eq!(names(&some), vec!["Report.TXT", ".txtrc"]);
    let expected: Vec<String> =
        names(&all).into_iter().filter(|n| n.to_ascii_lowercase().contains("txt")).collect();
    assert_eq!(names(&some), expected);
    let upper = list(&scan, Some("TEXT"));
    assert_eq!(names(&upper), vec!["TextFiles"]);
}

#[test]
fn empty_filter_keeps_everything() {
    let scan = root_scan();
    assert_eq!(names(&list(&scan, Some(""))), names(&list(&scan, None)));
}

#[test]
fn filter_with_no_match_gives_empty_listing() {
    assert!(list(&root_scan(), Some("zzz")).is_empty());
}

#[test]
fn sort_keeps_enumeration_order_inside_each_group() {
    let scan = vec![
        item("z.txt", 1, true, false),
        item(".b", 1, true, false),
        item("m", 1, true, true),
        item(".a", 1, true, true),
        item("a.txt", 1, true, false),
        item("c", 1, true, true),
        item(".z", 1, true, false),
    ];
    let listing = list(&scan, None);
    assert_eq!(names(&listing), vec!["m", "c", ".a", "z.txt", "a.txt", ".b", ".z"]);
    for i in 0..listing.len() {
        for j in i + 1..listing.len() {
            let (a, b) = (&listing[i], &listing[j]);
            if a.is_dir != b.is_dir {
                assert!(a.is_dir);
            } else if a.name.starts_with('.') {
                assert!(b.name.starts_with('.'));
            }
        }
    }
}

#[test]
fn equal_names_are_all_kept() {
    let scan = vec![item("same", 1, true, false), item("same", 1, true, false)];
    assert_eq!(names(&list(&scan, None)), vec!["same", "same"]);
}

#[test]
fn distinct_children_are_listed_once_each() {
    let scan = vec![
        item("dir", 0, true, true),
        item("b", 1, true, false),
        item(".c", 1, true, true),
        item("a", 1, true, true),
        item("dir", 1, true, false),
    ];
    let listed = names(&list(&scan, None));
    let mut sorted = listed.clone();
    sorted.sort();
    sorted.dedup();
    assert_eq!(sorted.len(), listed.len());
    assert_eq!(listed, vec!["a", ".c", "b", "dir"]);
}
