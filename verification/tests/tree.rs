use hx_diff::model::{
    DiffOptions, EntryStatus, FileStatus, GitDiff, GitError, GitShow, GitStatus, Sha1Hash,
    ShowEntry, StatusEntry,
};
use hx_diff::workspace::{
    CategoryKind, EntryKind, FileSource, ProjectEntryId, Workspace, WorkspaceMode,
};

const ZERO_HASH: &str = "0000000000000000000000000000000000000000";
const BLOB_HASH: &str = "ea8c4bf7f35f6f77f75d92ad8ce8349f6e81ddba";

fn zero() -> Sha1Hash {
    Sha1Hash::from_bytes(ZERO_HASH.as_bytes())
}

fn blob() -> Sha1Hash {
    Sha1Hash::from_bytes(BLOB_HASH.as_bytes())
}

fn status_entry(path: &str, staged: EntryStatus, unstaged: EntryStatus) -> StatusEntry {
    StatusEntry {
        staged_status: staged,
        unstaged_status: unstaged,
        head_sha1: zero(),
        index_sha1: blob(),
        path: path.to_string(),
    }
}

fn show_entry(path: &str, status: FileStatus, left: Sha1Hash, right: Sha1Hash) -> ShowEntry {
    ShowEntry {
        left_status: EntryStatus::Unchanged,
        right_status: EntryStatus::Unchanged,
        left_sha1: left,
        right_sha1: right,
        path: path.to_string(),
        status,
    }
}

fn file_count(ws: &Workspace) -> usize {
    ws.entries
        .iter()
        .filter(|e| matches!(e.kind, EntryKind::File(_)))
        .count()
}

#[test]
fn status_tree_counts_each_perspective() {
    let status = GitStatus {
        branch_oid: String::new(),
        branch_head: String::new(),
        branch_upstream: String::new(),
        entries: vec![
            status_entry("a/one.rs", EntryStatus::Added, EntryStatus::Unchanged),
            status_entry("a/two.rs", EntryStatus::Unchanged, EntryStatus::Modified),
            status_entry("b/three.rs", EntryStatus::Modified, EntryStatus::Modified),
        ],
    };
    let ws = Workspace::for_git_status(&status);
    assert!(matches!(ws.mode, WorkspaceMode::GitStatus));
    // one entry qualifies under staged only, one under unstaged
    // only, and one under both: four file entries in all
    assert_eq!(file_count(&ws), 4);
}

#[test]
fn status_tree_display_order() {
    let status = GitStatus {
        branch_oid: String::new(),
        branch_head: String::new(),
        branch_upstream: String::new(),
        entries: vec![
            status_entry("a/one.rs", EntryStatus::Added, EntryStatus::Unchanged),
            status_entry("a/two.rs", EntryStatus::Modified, EntryStatus::Unchanged),
            status_entry("b/three.rs", EntryStatus::Modified, EntryStatus::Unchanged),
        ],
    };
    let ws = Workspace::for_git_status(&status);
    let kinds: Vec<&EntryKind> = ws.entries.iter().map(|e| &e.kind).collect();
    assert_eq!(ws.entries.len(), 6);
    assert!(matches!(kinds[0], EntryKind::Category(CategoryKind::Staged)));
    assert!(matches!(kinds[1], EntryKind::Directory(d) if d == "a"));
    assert!(matches!(kinds[2], EntryKind::File(f) if f.path == "a/one.rs"));
    assert!(matches!(kinds[3], EntryKind::File(f) if f.path == "a/two.rs"));
    assert!(matches!(kinds[4], EntryKind::Directory(d) if d == "b"));
    assert!(matches!(kinds[5], EntryKind::File(f) if f.path == "b/three.rs"));
    for (i, entry) in ws.entries.iter().enumerate() {
        assert_eq!(entry.id.to_usize(), i);
    }
}

#[test]
fn status_tree_sources_by_perspective() {
    let status = GitStatus {
        branch_oid: String::new(),
        branch_head: String::new(),
        branch_upstream: String::new(),
        entries: vec![status_entry(
            "x.rs",
            EntryStatus::Modified,
            EntryStatus::Modified,
        )],
    };
    let ws = Workspace::for_git_status(&status);
    // a bare filename still gets a directory row for its empty
    // parent, so each perspective holds category, directory, file
    assert_eq!(ws.entries.len(), 6);
    // staged file entry: last commit against index
    match &ws.entries[2].kind {
        EntryKind::File(f) => {
            assert!(matches!(f.left_source, FileSource::Head(h) if h == zero()));
            assert!(matches!(f.right_source, FileSource::Index(h) if h == blob()));
        }
        _ => panic!("expected a staged file entry"),
    }
    // unstaged file entry: index against working tree
    match &ws.entries[5].kind {
        EntryKind::File(f) => {
            assert!(matches!(f.left_source, FileSource::Index(h) if h == blob()));
            assert!(matches!(f.right_source, FileSource::Working));
        }
        _ => panic!("expected an unstaged file entry"),
    }
}

#[test]
fn status_tree_empty_perspectives_emit_nothing() {
    let status = GitStatus {
        branch_oid: String::new(),
        branch_head: String::new(),
        branch_upstream: String::new(),
        entries: vec![status_entry(
            "x.rs",
            EntryStatus::Unchanged,
            EntryStatus::Unchanged,
        )],
    };
    let ws = Workspace::for_git_status(&status);
    assert_eq!(ws.entries.len(), 0);
}

#[test]
fn get_entry_round_trip() {
    let status = GitStatus {
        branch_oid: String::new(),
        branch_head: String::new(),
        branch_upstream: String::new(),
        entries: vec![
            status_entry("a/one.rs", EntryStatus::Added, EntryStatus::Modified),
            status_entry("b/two.rs", EntryStatus::Modified, EntryStatus::Unchanged),
        ],
    };
    let ws = Workspace::for_git_status(&status);
    let total = ws.entries.len();
    assert!(total > 0);
    let mut counter: usize = 0;
    // every identifier the construction produced is found, and
    // hands back the entry at that position
    for i in 0..total {
        let id = ProjectEntryId::new(&mut counter);
        let entry = ws.get_entry(id).expect("produced identifier must resolve");
        assert_eq!(entry.id.to_usize(), i);
    }
    // the next identifier was never produced by this tree
    let stale = ProjectEntryId::new(&mut counter);
    assert!(ws.get_entry(stale).is_none());
}

#[test]
fn show_tree_uses_commit_blobs() {
    let show = GitShow {
        description: "fix".to_string(),
        entries: vec![show_entry("lib.rs", FileStatus::Modified, blob(), blob())],
    };
    let ws = Workspace::for_git_show("HEAD", &show);
    assert!(matches!(&ws.mode, WorkspaceMode::GitShow(c) if c == "HEAD"));
    assert_eq!(ws.entries.len(), 2);
    assert!(matches!(
        ws.entries[0].kind,
        EntryKind::Category(CategoryKind::Commit)
    ));
    match &ws.entries[1].kind {
        EntryKind::File(f) => {
            assert!(matches!(f.left_source, FileSource::Commit(h) if h == blob()));
            assert!(matches!(f.right_source, FileSource::Commit(h) if h == blob()));
        }
        _ => panic!("expected a file entry"),
    }
}

#[test]
fn diff_tree_modified_selects_by_hash() {
    let options = DiffOptions {
        merge_base: false,
        cached: true,
        commit: None,
    };
    let diff = GitDiff {
        entries: vec![
            show_entry("working.rs", FileStatus::Modified, blob(), zero()),
            show_entry("stored.rs", FileStatus::Modified, blob(), blob()),
        ],
    };
    let ws = Workspace::for_git_diff(options, &diff).unwrap();
    assert!(matches!(&ws.mode, WorkspaceMode::GitDiff(o) if o.cached));
    // zero right hash: the comparison ends at the working tree
    match &ws.entries[1].kind {
        EntryKind::File(f) => {
            assert!(matches!(f.left_source, FileSource::Head(h) if h == blob()));
            assert!(matches!(f.right_source, FileSource::Working));
        }
        _ => panic!("expected a file entry"),
    }
    // non-zero right hash: the comparison ends at the stored blob
    match &ws.entries[2].kind {
        EntryKind::File(f) => {
            assert!(matches!(f.left_source, FileSource::Head(h) if h == blob()));
            assert!(matches!(f.right_source, FileSource::Commit(h) if h == blob()));
        }
        _ => panic!("expected a file entry"),
    }
}

#[test]
fn diff_tree_added_and_deleted_sources() {
    let options = DiffOptions {
        merge_base: false,
        cached: false,
        commit: None,
    };
    let diff = GitDiff {
        entries: vec![
            show_entry("new.rs", FileStatus::Added, zero(), blob()),
            show_entry("gone.rs", FileStatus::Deleted, blob(), zero()),
        ],
    };
    let ws = Workspace::for_git_diff(options, &diff).unwrap();
    match &ws.entries[1].kind {
        EntryKind::File(f) => {
            assert!(matches!(f.left_source, FileSource::Empty));
            assert!(matches!(f.right_source, FileSource::Commit(h) if h == blob()));
        }
        _ => panic!("expected a file entry"),
    }
    match &ws.entries[2].kind {
        EntryKind::File(f) => {
            assert!(matches!(f.left_source, FileSource::Commit(h) if h == blob()));
            assert!(matches!(f.right_source, FileSource::Empty));
        }
        _ => panic!("expected a file entry"),
    }
}

#[test]
fn diff_tree_rejects_unsupported_status() {
    let options = DiffOptions {
        merge_base: false,
        cached: false,
        commit: None,
    };
    let diff = GitDiff {
        entries: vec![show_entry("conflict.rs", FileStatus::Unmerged, blob(), blob())],
    };
    assert_eq!(
        Workspace::for_git_diff(options, &diff).unwrap_err(),
        GitError::UnsupportedInput
    );
}

#[test]
fn commit_or_working_sentinel_rule() {
    assert!(matches!(
        FileSource::commit_or_working(&zero()),
        FileSource::Working
    ));
    assert!(matches!(
        FileSource::commit_or_working(&blob()),
        FileSource::Commit(h) if h == blob()
    ));
}

#[test]
fn left_and_right_from_entry() {
    let added = show_entry("a", FileStatus::Added, zero(), blob());
    assert!(matches!(
        FileSource::left_from_entry(&added).unwrap(),
        FileSource::Empty
    ));
    assert!(matches!(
        FileSource::right_from_entry(&added).unwrap(),
        FileSource::Commit(h) if h == blob()
    ));
    let copied = show_entry("c", FileStatus::Copied, blob(), blob());
    assert_eq!(
        FileSource::left_from_entry(&copied).unwrap_err(),
        GitError::UnsupportedInput
    );
    assert_eq!(
        FileSource::right_from_entry(&copied).unwrap_err(),
        GitError::UnsupportedInput
    );
}

#[test]
fn project_entry_id_counter() {
    let mut counter: usize = 5;
    let id = ProjectEntryId::new(&mut counter);
    assert_eq!(id.to_usize(), 5);
    assert_eq!(counter, 6);
    let next = ProjectEntryId::new(&mut counter);
    assert_eq!(next.to_usize(), 6);
}
