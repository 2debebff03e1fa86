use lists::list::{DirectoryEntry, FileMeta, ListArgs, ListError};

fn file(name: &str, bits: u32) -> DirectoryEntry {
    DirectoryEntry {
        name: String::from(name),
        meta: Some(FileMeta { is_directory: false, permission_bits: bits }),
    }
}

fn dir(name: &str, bits: u32) -> DirectoryEntry {
    DirectoryEntry {
        name: String::from(name),
        meta: Some(FileMeta { is_directory: true, permission_bits: bits }),
    }
}

fn test_dir_entries() -> Vec<DirectoryEntry> {
    vec![
        file("world.txt", 0o644),
        file(".hidden", 0o644),
        file("hello.txt", 0o644),
        file(".no", 0o644),
    ]
}

#[test]
fn list_dir() {
    let args = ListArgs::default();
    assert_eq!(
        "hello.txt\nworld.txt\n",
        args.list(Some(test_dir_entries())).unwrap()
    );
}

#[test]
fn list_dir_hidden() {
    let mut args = ListArgs::default();
    args.all = true;
    assert_eq!(
        ".hidden\n.no\nhello.txt\nworld.txt\n",
        args.list(Some(test_dir_entries())).unwrap()
    );
}

#[test]
fn list_dir_long() {
    let mut args = ListArgs::default();
    args.long = true;
    let entries = vec![dir("sub", 0o755), file("a.txt", 0o644)];
    assert_eq!(
        "- rw-r--r-- a.txt\nd rwxr-xr-x sub\n",
        args.list(Some(entries)).unwrap()
    );
}

#[test]
fn listing_is_idempotent() {
    let mut args = ListArgs::default();
    args.all = true;
    let first = args.list(Some(test_dir_entries())).unwrap();
    let second = args.list(Some(test_dir_entries())).unwrap();
    assert_eq!(first, second);
}

#[test]
fn empty_directory_lists_as_empty_string() {
    let args = ListArgs::default();
    assert_eq!("", args.list(Some(Vec::new())).unwrap());
}

#[test]
fn unreadable_directory_is_an_error() {
    let args = ListArgs::default();
    assert_eq!(Err(ListError::DirectoryUnreadable), args.list(None));
}

#[test]
fn lines_sort_bytewise_ascending() {
    let mut args = ListArgs::default();
    args.all = true;
    let entries = vec![file("b.txt", 0o644), file("B.txt", 0o644), file("a.txt", 0o644)];
    assert_eq!("B.txt\na.txt\nb.txt\n", args.list(Some(entries)).unwrap());
}

#[test]
fn long_format_skips_entries_without_metadata() {
    let mut args = ListArgs::default();
    args.long = true;
    let entries = vec![
        file("kept.txt", 0o600),
        DirectoryEntry { name: String::from("lost.txt"), meta: None },
    ];
    assert_eq!("- rw------- kept.txt\n", args.list(Some(entries)).unwrap());
}

#[test]
fn short_format_keeps_entries_without_metadata() {
    let args = ListArgs::default();
    let entries = vec![DirectoryEntry { name: String::from("bare.txt"), meta: None }];
    assert_eq!("bare.txt\n", args.list(Some(entries)).unwrap());
}

#[test]
fn remove_hidden_files_keeps_order_of_the_visible() {
    let args = ListArgs::default();
    let mut entries = test_dir_entries();
    args.remove_hidden_files(&mut entries);
    let names: Vec<String> = entries.into_iter().map(|e| e.name).collect();
    assert_eq!(vec!["world.txt".to_string(), "hello.txt".to_string()], names);
}

#[test]
fn format_entry_long_line() {
    let e = dir("music", 0o750);
    let line = lists::list::format_entry(&e, true).unwrap();
    assert_eq!("d rwxr-x--- music", line);
}

#[test]
fn format_entry_short_is_the_bare_name() {
    let e = DirectoryEntry { name: String::from("notes.md"), meta: None };
    assert_eq!("notes.md", lists::list::format_entry(&e, false).unwrap());
    assert_eq!(None, lists::list::format_entry(&e, true));
}

#[test]
fn render_joins_each_line_with_a_newline() {
    let lines = vec![String::from("one"), String::from("two")];
    assert_eq!("one\ntwo\n", lists::list::render(&lines));
    assert_eq!("", lists::list::render(&Vec::new()));
}

#[test]
fn default_args_point_at_the_current_directory() {
    let args = ListArgs::default();
    assert_eq!(".", args.dir);
    assert!(!args.all && !args.dirs && !args.long && !args.columns);
}
