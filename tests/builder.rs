use code_index::builder::{BuildStep, FileRead, IndexBuild, IndexError};
use code_index::scan::{EntryKind, ScanEntry};
use code_index::summary::{SummaryError, FALLBACK_PREFIX};

#[test]
fn two_files_one_remote_failure() {
    let mut build = IndexBuild::new(vec!["src/a.rs".to_string(), "README.md".to_string()]);
    assert_eq!(build.next_step(), BuildStep::Read("src/a.rs".to_string()));
    assert_eq!(build.on_read(FileRead::Text("fn a() {}".to_string())), Ok(()));
    assert_eq!(build.next_step(), BuildStep::Summarize("fn a() {}".to_string()));
    build.on_summary(Ok("Defines a.".to_string()));
    assert_eq!(build.next_step(), BuildStep::Read("README.md".to_string()));
    assert_eq!(build.on_read(FileRead::Text("# Title".to_string())), Ok(()));
    build.on_summary(Err(SummaryError::RemoteService { status: 529, body: "overloaded".to_string() }));
    assert_eq!(build.next_step(), BuildStep::Done);
    let index = build.into_index().expect("finished build");
    assert_eq!(index.len(), 2);
    assert_eq!(index.get("src/a.rs"), Some("Defines a.".to_string()));
    let fallback = index.get("README.md").unwrap();
    assert!(fallback.starts_with(FALLBACK_PREFIX));
    assert_eq!(fallback, format!("{}# Title", FALLBACK_PREFIX));
}

#[test]
fn read_failure_halts_the_build() {
    let mut build = IndexBuild::new(vec!["a.rs".to_string(), "b.rs".to_string()]);
    assert_eq!(build.on_read(FileRead::Text("x".to_string())), Ok(()));
    build.on_summary(Ok("X.".to_string()));
    let r = build.on_read(FileRead::Failed("permission denied".to_string()));
    assert_eq!(
        r,
        Err(IndexError::Read { path: "b.rs".to_string(), message: "permission denied".to_string() })
    );
    assert_eq!(build.next_step(), BuildStep::Halted);
    assert!(build.into_index().is_none());
}

#[test]
fn unfinished_build_gives_no_index() {
    let build = IndexBuild::new(vec!["a.rs".to_string()]);
    assert!(build.into_index().is_none());
}

#[test]
fn empty_file_list_gives_empty_index() {
    let build = IndexBuild::new(Vec::new());
    assert_eq!(build.next_step(), BuildStep::Done);
    assert_eq!(build.into_index().unwrap().len(), 0);
}

#[test]
fn repeated_path_keeps_last_summary() {
    let mut build = IndexBuild::new(vec!["a.rs".to_string(), "a.rs".to_string()]);
    build.on_read(FileRead::Text("one".to_string())).unwrap();
    build.on_summary(Ok("First.".to_string()));
    build.on_read(FileRead::Text("two".to_string())).unwrap();
    build.on_summary(Ok("Second.".to_string()));
    let index = build.into_index().unwrap();
    assert_eq!(index.len(), 1);
    assert_eq!(index.get("a.rs"), Some("Second.".to_string()));
}

#[test]
fn build_from_walk_reads_only_indexed_files() {
    let entries = vec![
        ScanEntry { path: "./src".to_string(), kind: EntryKind::Directory },
        ScanEntry { path: "./src/lib.rs".to_string(), kind: EntryKind::File },
        ScanEntry { path: "./image.png".to_string(), kind: EntryKind::File },
        ScanEntry { path: "./Cargo.toml".to_string(), kind: EntryKind::File },
    ];
    let mut build = IndexBuild::from_walk(&entries);
    assert_eq!(build.next_step(), BuildStep::Read("./src/lib.rs".to_string()));
    build.on_read(FileRead::Text("pub fn f() {}".to_string())).unwrap();
    build.on_summary(Ok("Defines f.".to_string()));
    assert_eq!(build.next_step(), BuildStep::Read("./Cargo.toml".to_string()));
    build.on_read(FileRead::Text("[package]".to_string())).unwrap();
    build.on_summary(Err(SummaryError::MalformedResponse));
    let index = build.into_index().unwrap();
    assert_eq!(index.len(), 2);
    assert_eq!(index.get("./image.png"), None);
}

#[test]
fn file_that_is_not_text_gets_the_fallback() {
    let bytes: Vec<u8> = vec![b'a', 0xff, b'b'];
    let lossy = String::from_utf8_lossy(&bytes).into_owned();
    let mut build = IndexBuild::new(vec!["bin.rs".to_string(), "ok.md".to_string()]);
    assert_eq!(build.on_read(FileRead::NotText(lossy)), Ok(()));
    assert_eq!(build.next_step(), BuildStep::Read("ok.md".to_string()));
    build.on_read(FileRead::Text("# Ok".to_string())).unwrap();
    build.on_summary(Ok("Docs.".to_string()));
    let index = build.into_index().expect("a file that is not text is not fatal");
    assert_eq!(index.len(), 2);
    assert_eq!(index.get("bin.rs"), Some(format!("{}a\u{fffd}b", FALLBACK_PREFIX)));
    assert_eq!(index.get("ok.md"), Some("Docs.".to_string()));
}
