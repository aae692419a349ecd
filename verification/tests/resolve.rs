use hx_diff::commands::{
    cat_file_args, diff_args, show_args, stage_args, status_args, unstage_args,
};
use hx_diff::content::{ContentRequest, ContentResolver};
use hx_diff::model::{DiffOptions, Sha1Hash};
use hx_diff::workspace::FileSource;

const ZERO_HASH: &str = "0000000000000000000000000000000000000000";
const BLOB_HASH: &str = "ea8c4bf7f35f6f77f75d92ad8ce8349f6e81ddba";

/// A stand-in for the subprocess runner that counts how often it
/// would have been invoked.
struct CountingRunner {
    calls: usize,
}

impl CountingRunner {
    fn run(&mut self, request: &ContentRequest) -> String {
        match request {
            ContentRequest::Ready(content) => content.clone(),
            ContentRequest::ReadWorkingFile(_) | ContentRequest::RunCatFile(_) => {
                self.calls += 1;
                String::new()
            }
        }
    }
}

#[test]
fn resolve_empty_is_zero_length_without_subprocess() {
    let mut runner = CountingRunner { calls: 0 };
    let request = ContentResolver::resolve(&FileSource::Empty, "any/path.rs");
    let content = runner.run(&request);
    assert_eq!(content.len(), 0);
    assert_eq!(runner.calls, 0);
}

#[test]
fn resolve_working_reads_the_live_file() {
    let request = ContentResolver::resolve(&FileSource::Working, "src/lib.rs");
    assert!(matches!(request, ContentRequest::ReadWorkingFile(p) if p == "src/lib.rs"));
}

#[test]
fn resolve_zero_hash_is_zero_length_without_subprocess() {
    let mut runner = CountingRunner { calls: 0 };
    let zero = Sha1Hash::from_bytes(ZERO_HASH.as_bytes());
    for source in [
        FileSource::Index(zero),
        FileSource::Head(zero),
        FileSource::Commit(zero),
    ] {
        let request = ContentResolver::resolve(&source, "a.rs");
        let content = runner.run(&request);
        assert_eq!(content.len(), 0);
    }
    assert_eq!(runner.calls, 0);
}

#[test]
fn resolve_stored_blob_runs_cat_file() {
    let hash = Sha1Hash::from_bytes(BLOB_HASH.as_bytes());
    let request = ContentResolver::resolve(&FileSource::Commit(hash), "src/a.rs");
    match request {
        ContentRequest::RunCatFile(args) => {
            assert_eq!(
                args,
                vec![
                    "cat-file".to_string(),
                    "--filters".to_string(),
                    "--path=src/a.rs".to_string(),
                    BLOB_HASH.to_string(),
                ]
            );
        }
        _ => panic!("a stored blob must be fetched"),
    }
}

#[test]
fn status_arguments() {
    assert_eq!(
        status_args(),
        vec![
            "status".to_string(),
            "--ignore-submodules=all".to_string(),
            "--branch".to_string(),
            "--porcelain=v2".to_string(),
            "--".to_string(),
        ]
    );
}

#[test]
fn diff_arguments_plain() {
    let options = DiffOptions {
        merge_base: false,
        cached: false,
        commit: None,
    };
    assert_eq!(
        diff_args(&options),
        vec![
            "diff".to_string(),
            "--abbrev=40".to_string(),
            "--raw".to_string(),
        ]
    );
}

#[test]
fn diff_arguments_full() {
    let options = DiffOptions {
        merge_base: true,
        cached: true,
        commit: Some("HEAD~2".to_string()),
    };
    assert_eq!(
        diff_args(&options),
        vec![
            "diff".to_string(),
            "--abbrev=40".to_string(),
            "--raw".to_string(),
            "--merge-base".to_string(),
            "--cached".to_string(),
            "HEAD~2".to_string(),
        ]
    );
}

#[test]
fn show_arguments() {
    assert_eq!(
        show_args("abc123"),
        vec![
            "show".to_string(),
            "--abbrev=40".to_string(),
            "--raw".to_string(),
            "abc123".to_string(),
        ]
    );
}

#[test]
fn cat_file_arguments() {
    let hash = Sha1Hash::from_bytes(BLOB_HASH.as_bytes());
    assert_eq!(
        cat_file_args("dir/file.rs", &hash),
        vec![
            "cat-file".to_string(),
            "--filters".to_string(),
            "--path=dir/file.rs".to_string(),
            BLOB_HASH.to_string(),
        ]
    );
}

#[test]
fn stage_and_unstage_arguments() {
    assert_eq!(
        stage_args("a.rs"),
        vec!["add".to_string(), "--".to_string(), "a.rs".to_string()]
    );
    assert_eq!(
        unstage_args("a.rs"),
        vec![
            "restore".to_string(),
            "--staged".to_string(),
            "--".to_string(),
            "a.rs".to_string(),
        ]
    );
}
