use alpm::filelist::{File, FileList};

fn list() -> FileList {
    FileList::new(vec![
        File::new(b"boot/", 0, 0o40755),
        File::new(b"boot/vmlinuz", 12345, 0o100644),
        File::new(b"usr/", 0, 0o40755),
        File::new(b"usr/lib/", 0, 0o40755),
    ])
    .unwrap()
}

#[test]
fn filelist_contains() {
    let files = list();
    assert!(!files.files().is_empty());
    let file = files.contains(b"boot/").unwrap();
    assert_eq!(file.name(), b"boot/");
    let file = files.contains(b"boot/vmlinuz").unwrap();
    assert_eq!(file.size(), 12345);
    assert_eq!(file.mode(), 0o100644);
    assert!(files.contains(b"usr/lib/").is_some());
    assert!(files.contains(b"aaaaa/").is_none());
    assert!(files.contains("aaaaa/".as_bytes()).is_none());
    assert!(files.contains(b"zzz").is_none());
    assert!(files.contains(b"boot").is_none());
}

#[test]
fn filelist_needs_sorted_names() {
    assert!(FileList::new(vec![File::new(b"b", 0, 0), File::new(b"a", 0, 0)]).is_none());
    assert!(FileList::new(vec![File::new(b"a", 0, 0), File::new(b"a", 0, 0)]).is_none());
    assert!(FileList::new(vec![File::new(b"a", 0, 0), File::new(b"ab", 0, 0)]).is_some());
    let empty = FileList::new(Vec::new()).unwrap();
    assert!(empty.files().is_empty());
    assert!(empty.contains(b"a").is_none());
}
