use ex::{file_size, file_type, last_modified, windows_date};

#[test]
fn size_buckets() {
    assert_eq!(file_size(0, false), Some("0 KB".to_string()));
    assert_eq!(file_size(1, false), Some("1 KB".to_string()));
    assert_eq!(file_size(999, false), Some("1 KB".to_string()));
    assert_eq!(file_size(1_000, false), Some("1 KB".to_string()));
    assert_eq!(file_size(1_999, false), Some("1 KB".to_string()));
    assert_eq!(file_size(25_300, false), Some("25 KB".to_string()));
    assert_eq!(file_size(999_999, false), Some("999 KB".to_string()));
    assert_eq!(file_size(1_000_000, false), Some("1 MB".to_string()));
    assert_eq!(file_size(2_500_000_000, false), Some("2500 MB".to_string()));
    assert_eq!(file_size(u64::MAX, false), Some("18446744073709 MB".to_string()));
}

#[test]
fn directories_have_no_size() {
    assert_eq!(file_size(0, true), None);
    assert_eq!(file_size(4096, true), None);
}

#[test]
fn windows_file_time_to_unix_time() {
    assert_eq!(windows_date(116_444_736_000_000_000), (0, 0));
    assert_eq!(windows_date(0), (-11_644_473_600, 0));
    assert_eq!(windows_date(130_761_216_000_000_123), (1_431_648_000, 12_300));
    assert_eq!(windows_date(u64::MAX), (1_833_029_933_770, 955_161_500));
}

#[test]
fn modified_time_text() {
    let t = 130_761_216_000_000_000;
    assert_eq!(last_modified(t, 0), Some("15/05/2015 00:00".to_string()));
    assert_eq!(last_modified(t, 3_600 + 5 * 60), Some("15/05/2015 01:05".to_string()));
    assert_eq!(last_modified(t, -60), Some("14/05/2015 23:59".to_string()));
    assert_eq!(last_modified(116_444_736_000_000_000, 0), Some("01/01/1970 00:00".to_string()));
    assert_eq!(last_modified(0, 0), Some("01/01/1601 00:00".to_string()));
}

#[test]
fn type_column() {
    assert_eq!(file_type("A", true), Some("File folder".to_string()));
    assert_eq!(file_type("x.lnk", false), Some("Shortcut".to_string()));
    assert_eq!(file_type("x.zip", false), Some("zip Archive".to_string()));
    assert_eq!(file_type("setup.exe", false), Some("Application".to_string()));
    assert_eq!(file_type("b.txt", false), Some(".txt file".to_string()));
    assert_eq!(file_type("a.tar.gz", false), Some(".gz file".to_string()));
    assert_eq!(file_type("trailing.", false), Some(". file".to_string()));
    assert_eq!(file_type(".gitignore", false), Some("Git Ignore".to_string()));
    assert_eq!(file_type(".gitconfig", false), Some("Git Config".to_string()));
    assert_eq!(file_type(".bashrc", false), Some("Unknown dot file".to_string()));
    assert_eq!(file_type(".config.toml", false), Some(".toml file".to_string()));
    assert_eq!(file_type("Makefile", false), None);
}
