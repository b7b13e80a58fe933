use ex::{Entry, Ex, FsError, FsPath, RawEntry, list};

fn unix(names: &[&str]) -> FsPath {
    FsPath { root: "/".to_string(), sep: '/', names: names.iter().map(|n| n.to_string()).collect() }
}

fn item(name: &str, is_dir: bool) -> RawEntry {
    RawEntry { name: name.to_string(), depth: 1, readable: true, is_dir }
}

fn names(entries: &[Entry]) -> Vec<String> {
    entries.iter().map(|e| e.name.clone()).collect()
}

fn scan_of(path: &FsPath) -> Vec<RawEntry> {
    let last = path.names.last().cloned().unwrap_or_default();
    vec![item(&format!("{last}-dir"), true), item(&format!("{last}.txt"), false)]
}

fn visit(ex: &mut Ex, path: FsPath) {
    let scan = scan_of(&path);
    assert_eq!(ex.set_directory(path, Ok(scan), ""), Ok(()));
}

#[test]
fn scenario_missing_directory_leaves_state() {
    let mut ex = Ex::new(unix(&[]), Ok(vec![]));
    visit(&mut ex, unix(&["root"]));
    let before = names(ex.get_files());
    let r = ex.set_directory(unix(&["missing"]), Err(FsError::NotFound), "");
    assert_eq!(r, Err(FsError::NotFound));
    assert_eq!(ex.current_path_string(), "/root");
    assert_eq!(ex.current_path().names, vec!["root".to_string()]);
    assert_eq!(names(ex.get_files()), before);
    assert_eq!(ex.history_len(), 1);
}

#[test]
fn every_enumeration_error_is_passed_on_unchanged() {
    let all = [
        FsError::NotFound,
        FsError::PermissionDenied,
        FsError::AlreadyExists,
        FsError::InvalidOperation,
        FsError::ExternalToolFailure,
        FsError::Other,
    ];
    for e in all {
        let mut ex = Ex::new(unix(&[]), Ok(vec![]));
        visit(&mut ex, unix(&["root"]));
        assert_eq!(ex.set_directory(unix(&["x"]), Err(e), ""), Err(e));
        assert_eq!(ex.refresh(Err(e), ""), Err(e));
        assert_eq!(ex.current_path_string(), "/root");
    }
}

#[test]
fn history_counts_visits_and_ends_at_current() {
    let mut ex = Ex::new(unix(&[]), Ok(vec![]));
    assert_eq!(ex.history_len(), 0);
    let paths = [unix(&["a"]), unix(&["a", "b"]), unix(&["c"])];
    for p in paths.iter() {
        visit(&mut ex, p.clone());
    }
    assert_eq!(ex.history_len(), 3);
    assert_eq!(ex.cursor(), 2);
    assert_eq!(ex.history_at(2).names, ex.current_path().names);
    for (i, p) in paths.iter().enumerate() {
        assert_eq!(ex.history_at(i).names, p.names);
    }
}

#[test]
fn rewind_then_forward_returns_to_the_same_place() {
    let mut ex = Ex::new(unix(&[]), Ok(vec![]));
    for p in [unix(&["a"]), unix(&["b"]), unix(&["c"]), unix(&["d"])] {
        visit(&mut ex, p);
    }
    let k = 2;
    for _ in 0..k {
        let target = ex.back_target().unwrap();
        let scan = scan_of(&target);
        assert_eq!(ex.previous(Ok(scan), ""), Ok(()));
    }
    assert_eq!(ex.current_path_string(), "/b");
    assert_eq!(ex.cursor(), 1);
    for _ in 0..k {
        let target = ex.forward_target().unwrap();
        let scan = scan_of(&target);
        assert_eq!(ex.next(Ok(scan), ""), Ok(()));
    }
    assert_eq!(ex.current_path_string(), "/d");
    assert_eq!(ex.cursor(), 3);
    assert_eq!(ex.history_len(), 4);
    let fresh = list(&scan_of(&unix(&["d"])), Some(""));
    assert_eq!(names(ex.get_files()), names(&fresh));
    assert_eq!(names(ex.get_files()), vec!["d-dir", "d.txt"]);
}

#[test]
fn visiting_after_a_rewind_drops_forward_history() {
    let mut ex = Ex::new(unix(&[]), Ok(vec![]));
    for p in [unix(&["a"]), unix(&["b"]), unix(&["c"])] {
        visit(&mut ex, p);
    }
    let target = ex.back_target().unwrap();
    ex.previous(Ok(scan_of(&target)), "").unwrap();
    ex.previous(Ok(scan_of(&unix(&["a"]))), "").unwrap();
    assert_eq!(ex.current_path_string(), "/a");
    visit(&mut ex, unix(&["z"]));
    assert_eq!(ex.history_len(), 2);
    assert_eq!(ex.history_at(0).names, vec!["a".to_string()]);
    assert_eq!(ex.history_at(1).names, vec!["z".to_string()]);
    assert!(ex.forward_target().is_none());
}

#[test]
fn previous_on_empty_or_single_history_changes_nothing() {
    let mut ex = Ex::new(unix(&["home"]), Ok(vec![]));
    assert!(ex.back_target().is_none());
    assert_eq!(ex.previous(Ok(vec![item("x", false)]), ""), Ok(()));
    assert_eq!(ex.current_path_string(), "/home");
    assert!(ex.get_files().is_empty());
    visit(&mut ex, unix(&["root"]));
    let before = names(ex.get_files());
    assert_eq!(ex.previous(Ok(vec![item("x", false)]), ""), Ok(()));
    assert_eq!(ex.previous(Err(FsError::NotFound), ""), Ok(()));
    assert_eq!(ex.current_path_string(), "/root");
    assert_eq!(names(ex.get_files()), before);
    assert_eq!(ex.cursor(), 0);
}

#[test]
fn next_at_the_end_changes_nothing() {
    let mut ex = Ex::new(unix(&[]), Ok(vec![]));
    visit(&mut ex, unix(&["a"]));
    assert_eq!(ex.next(Ok(vec![item("x", false)]), ""), Ok(()));
    assert_eq!(ex.current_path_string(), "/a");
}

#[test]
fn failed_step_back_keeps_place() {
    let mut ex = Ex::new(unix(&[]), Ok(vec![]));
    visit(&mut ex, unix(&["a"]));
    visit(&mut ex, unix(&["b"]));
    assert_eq!(ex.previous(Err(FsError::PermissionDenied), ""), Err(FsError::PermissionDenied));
    assert_eq!(ex.current_path_string(), "/b");
    assert_eq!(ex.cursor(), 1);
}

#[test]
fn refresh_twice_gives_identical_listings() {
    let mut ex = Ex::new(unix(&[]), Ok(vec![]));
    visit(&mut ex, unix(&["root"]));
    let scan = vec![item("b.txt", false), item("A", true), item(".hidden", true)];
    ex.refresh(Ok(scan.clone()), "").unwrap();
    let first = names(ex.get_files());
    ex.refresh(Ok(scan), "").unwrap();
    assert_eq!(names(ex.get_files()), first);
    assert_eq!(first, vec!["A", ".hidden", "b.txt"]);
    assert_eq!(ex.history_len(), 1);
}

#[test]
fn parent_navigation_is_a_new_visit() {
    let mut ex = Ex::new(unix(&[]), Ok(vec![]));
    visit(&mut ex, unix(&["a", "b"]));
    let up = ex.current_path().parent().unwrap();
    let scan = scan_of(&up);
    assert_eq!(ex.previous_dir(Ok(scan), ""), Ok(()));
    assert_eq!(ex.current_path_string(), "/a");
    assert_eq!(ex.history_len(), 2);
    let scan = scan_of(&unix(&[]));
    assert_eq!(ex.previous_dir(Ok(scan), ""), Ok(()));
    assert_eq!(ex.current_path_string(), "/");
    assert_eq!(ex.previous_dir(Ok(vec![]), ""), Ok(()));
    assert_eq!(ex.history_len(), 3);
}

#[test]
fn search_text_applies_to_listing() {
    let mut ex = Ex::new(unix(&[]), Ok(vec![]));
    let scan = vec![item("alpha.rs", false), item("Beta.RS", false), item("gamma.md", false)];
    ex.set_directory(unix(&["src"]), Ok(scan), ".rs").unwrap();
    assert_eq!(names(ex.get_files()), vec!["alpha.rs", "Beta.RS"]);
}

#[test]
fn current_file_and_entry_paths() {
    let mut ex = Ex::new(unix(&[]), Ok(vec![]));
    assert_eq!(ex.current_file(), "/");
    visit(&mut ex, unix(&["home", "docs"]));
    assert_eq!(ex.current_file(), "docs");
    assert_eq!(ex.entry_path(1).display(), "/home/docs/docs.txt");
    ex.reset();
    assert!(ex.get_files().is_empty());
    assert_eq!(ex.current_file(), "docs");
}

#[test]
fn new_state_lists_its_root() {
    let scan = vec![
        RawEntry { name: "root".to_string(), depth: 0, readable: true, is_dir: true },
        item("b.txt", false),
        item("A", true),
        item(".hidden", true),
    ];
    let ex = Ex::new(unix(&["root"]), Ok(scan.clone()));
    assert_eq!(ex.current_path_string(), "/root");
    assert_eq!(names(ex.get_files()), vec!["A", ".hidden", "b.txt"]);
    assert_eq!(names(ex.get_files()), names(&list(&scan, None)));
    assert_eq!(ex.history_len(), 0);
    assert!(ex.back_target().is_none());
}

#[test]
fn new_state_with_unreadable_root_lists_nothing() {
    let ex = Ex::new(unix(&["locked"]), Err(FsError::PermissionDenied));
    assert_eq!(ex.current_path_string(), "/locked");
    assert!(ex.get_files().is_empty());
    assert_eq!(ex.history_len(), 0);
}

#[test]
fn visits_after_a_listed_root_count_from_one() {
    let mut ex = Ex::new(unix(&["root"]), Ok(vec![item("x", false)]));
    visit(&mut ex, unix(&["a"]));
    visit(&mut ex, unix(&["b"]));
    assert_eq!(ex.history_len(), 2);
    assert_eq!(ex.history_at(1).names, ex.current_path().names);
}
