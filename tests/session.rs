use ex::{Browser, Buffer, Event, FileOp, FsError, FsPath, RawEntry, Tabs};

fn unix(names: &[&str]) -> FsPath {
    FsPath { root: "/".to_string(), sep: '/', names: names.iter().map(|n| n.to_string()).collect() }
}

fn windows(names: &[&str]) -> FsPath {
    FsPath { root: "C:\\".to_string(), sep: '\\', names: names.iter().map(|n| n.to_string()).collect() }
}

fn item(name: &str, is_dir: bool) -> RawEntry {
    RawEntry { name: name.to_string(), depth: 1, readable: true, is_dir }
}

fn op_paths(op: &FileOp) -> Vec<String> {
    match op {
        FileOp::Rename { from, to } | FileOp::Copy { from, to } => vec![from.display(), to.display()],
        FileOp::Open(p) | FileOp::Trash(p) | FileOp::CreateFile(p) | FileOp::CreateDir(p) => vec![p.display()],
    }
}

fn at_root() -> Browser {
    let mut b = Browser::new(unix(&[]), Ok(vec![]));
    b.set_directory(unix(&["root"]), Ok(vec![item("b.txt", false), item("A", true)])).unwrap();
    b
}

#[test]
fn titles_of_drives_and_folders() {
    let b = Browser::new(windows(&[]), Ok(vec![]));
    assert_eq!(b.title(), "Drive (C:)");
    let b = Browser::new(windows(&[]), Ok(vec![])).set_path(windows(&["Users"]), Ok(vec![]));
    assert_eq!(b.title(), "Users");
    let b = Browser::new(unix(&[]), Ok(vec![]));
    assert_eq!(b.title(), "/");
    let b = Browser::new(unix(&[]), Ok(vec![])).set_path(unix(&["a:b"]), Ok(vec![]));
    assert_eq!(b.title(), "Drive (a:b)");
}

#[test]
fn set_path_keeps_old_place_on_error() {
    let b = Browser::new(unix(&["home"]), Ok(vec![])).set_path(unix(&["gone"]), Err(FsError::NotFound));
    assert_eq!(b.ex.current_path_string(), "/home");
}

#[test]
fn rename_edit_commits_to_a_rename() {
    let mut b = at_root();
    b.begin_rename(unix(&["root", "b.txt"]));
    match b.pending() {
        Some(Event::Rename(name, _)) => assert_eq!(name, "b.txt"),
        _ => panic!("a rename should be pending"),
    }
    b.set_edit_name("c.txt".to_string());
    let op = b.commit().unwrap().unwrap();
    assert!(matches!(op, FileOp::Rename { .. }));
    assert_eq!(op_paths(&op), vec!["/root/b.txt", "/root/c.txt"]);
    assert!(b.pending().is_none());
    assert!(b.commit().is_none());
}

#[test]
fn new_file_edit_commits_to_a_create() {
    let mut b = at_root();
    b.begin_new_file();
    b.set_edit_name("new.txt".to_string());
    let op = b.commit().unwrap().unwrap();
    assert!(matches!(op, FileOp::CreateFile(_)));
    assert_eq!(op_paths(&op), vec!["/root/new.txt"]);
    b.begin_new_file();
    assert!(matches!(b.commit(), Some(Err(FsError::InvalidOperation))));
}

#[test]
fn new_request_replaces_pending_one_and_cancel_clears() {
    let mut b = at_root();
    b.begin_rename(unix(&["root", "b.txt"]));
    b.request_delete(unix(&["root", "A"]));
    assert!(matches!(b.pending(), Some(Event::Delete(_))));
    b.set_edit_name("ignored".to_string());
    let op = b.commit().unwrap().unwrap();
    assert!(matches!(op, FileOp::Trash(_)));
    assert_eq!(op_paths(&op), vec!["/root/A"]);
    b.begin_rename(unix(&["root", "b.txt"]));
    b.cancel();
    assert!(b.pending().is_none());
    assert!(b.commit().is_none());
}

#[test]
fn paste_uses_and_clears_the_clipboard() {
    let mut b = at_root();
    assert!(b.paste().is_none());
    b.copy(unix(&["other", "f.txt"]));
    assert!(matches!(b.clipboard(), Some(Buffer::Copy(_))));
    let op = b.paste().unwrap().unwrap();
    assert!(matches!(op, FileOp::Copy { .. }));
    assert_eq!(op_paths(&op), vec!["/other/f.txt", "/root/f.txt"]);
    assert!(b.clipboard().is_none());
    assert!(b.paste().is_none());
    b.cut(unix(&["other", "g.txt"]));
    let op = b.paste().unwrap().unwrap();
    assert!(matches!(op, FileOp::Rename { .. }));
    assert_eq!(op_paths(&op), vec!["/other/g.txt", "/root/g.txt"]);
    b.cut(unix(&["root"]));
    assert!(matches!(b.paste(), Some(Err(FsError::InvalidOperation))));
}

#[test]
fn browser_history_uses_its_search_text() {
    let mut b = Browser::new(unix(&[]), Ok(vec![]));
    b.search = "TXT".to_string();
    b.set_directory(unix(&["a"]), Ok(vec![item("x.txt", false), item("y.md", false)])).unwrap();
    b.set_directory(unix(&["b"]), Ok(vec![])).unwrap();
    b.previous(Ok(vec![item("x.txt", false), item("y.md", false), item("z.TXT", false)])).unwrap();
    let listed: Vec<String> = b.ex.get_files().iter().map(|e| e.name.clone()).collect();
    assert_eq!(listed, vec!["x.txt", "z.TXT"]);
    b.next(Ok(vec![item("q.txt", false)])).unwrap();
    assert_eq!(b.ex.current_path_string(), "/b");
    b.refresh(Ok(vec![item("r.md", false)])).unwrap();
    assert!(b.ex.get_files().is_empty());
}

#[test]
fn tabs_open_select_and_close() {
    let mut t = Tabs::new(unix(&["home"]), Ok(vec![]));
    assert_eq!(t.len(), 1);
    assert_eq!(t.index(), 0);
    t.add(unix(&["work"]), Ok(vec![item("w.txt", false)]));
    assert_eq!(t.len(), 2);
    assert_eq!(t.index(), 1);
    assert_eq!(t.get(1).ex.current_path_string(), "/work");
    t.add_new(Ok(vec![]));
    assert_eq!(t.index(), 2);
    assert_eq!(t.get(2).ex.current_path_string(), "/home");
    t.select(0);
    t.set_directory(unix(&["music"]), Ok(vec![])).unwrap();
    assert_eq!(t.get(0).ex.current_path_string(), "/music");
    t.selected_mut().search = "abc".to_string();
    assert_eq!(t.get(0).search, "abc");
    t.remove(1);
    assert_eq!(t.len(), 2);
    assert_eq!(t.index(), 0);
    assert_eq!(t.get(1).ex.current_path_string(), "/home");
    t.select(1);
    t.remove(0);
    assert_eq!(t.len(), 1);
    assert_eq!(t.index(), 0);
    t.remove(0);
    assert_eq!(t.len(), 1);
}

#[test]
fn tabs_are_independent() {
    let mut t = Tabs::new(unix(&[]), Ok(vec![]));
    t.add_new(Ok(vec![]));
    t.set_directory(unix(&["one"]), Ok(vec![])).unwrap();
    t.select(0);
    t.set_directory(unix(&["two"]), Ok(vec![])).unwrap();
    assert_eq!(t.get(0).ex.current_path_string(), "/two");
    assert_eq!(t.get(1).ex.current_path_string(), "/one");
    assert_eq!(t.get(1).ex.history_len(), 1);
}

#[test]
fn new_sessions_list_their_directory() {
    let b = Browser::new(unix(&["root"]), Ok(vec![item("b.txt", false), item("A", true)]));
    let listed: Vec<String> = b.ex.get_files().iter().map(|e| e.name.clone()).collect();
    assert_eq!(listed, vec!["A", "b.txt"]);
    let mut t = Tabs::new(unix(&["home"]), Ok(vec![item("h.txt", false)]));
    assert_eq!(t.get(0).ex.get_files().len(), 1);
    assert_eq!(t.home().display(), "/home");
    t.add_new(Ok(vec![item("h.txt", false), item("g.txt", false)]));
    assert_eq!(t.get(1).ex.get_files().len(), 2);
    t.add(unix(&["work"]), Ok(vec![item("w", true)]));
    assert_eq!(t.get(2).ex.get_files()[0].name, "w");
    assert_eq!(t.get(2).ex.history_len(), 0);
}

#[test]
fn browser_parent_step() {
    let mut b = Browser::new(unix(&[]), Ok(vec![]));
    b.set_directory(unix(&["a", "b"]), Ok(vec![])).unwrap();
    b.search = "k".to_string();
    b.previous_dir(Ok(vec![item("keep", false), item("drop", false)])).unwrap();
    assert_eq!(b.ex.current_path_string(), "/a");
    assert_eq!(b.ex.get_files().len(), 1);
    assert_eq!(b.ex.history_len(), 2);
    assert_eq!(b.previous_dir(Err(FsError::NotFound)), Err(FsError::NotFound));
    assert_eq!(b.ex.current_path_string(), "/a");
}
