use hx_diff::model::{EntryStatus, FileStatus, GitError, Sha1Hash, ShowEntry};
use hx_diff::parse::{parse_diff, parse_show, parse_status};

const ZERO_HASH: &str = "0000000000000000000000000000000000000000";
const GITIGNORE_HASH: &str = "ea8c4bf7f35f6f77f75d92ad8ce8349f6e81ddba";

fn status_example_line() -> String {
    format!(
        "1 A. N... 000000 100644 100644 {} {} .gitignore",
        ZERO_HASH, GITIGNORE_HASH
    )
}

#[test]
fn parse_status_example_line() {
    let status = parse_status(&status_example_line()).unwrap();
    assert_eq!(status.entries.len(), 1);
    let entry = &status.entries[0];
    assert_eq!(entry.staged_status, EntryStatus::Added);
    assert_eq!(entry.unstaged_status, EntryStatus::Unchanged);
    assert_eq!(entry.head_sha1, Sha1Hash::from_bytes(ZERO_HASH.as_bytes()));
    assert_eq!(
        entry.index_sha1,
        Sha1Hash::from_bytes(GITIGNORE_HASH.as_bytes())
    );
    assert_eq!(entry.path, ".gitignore");
}

#[test]
fn parse_status_branch_headers() {
    let text = format!(
        "# branch.oid {}\n# branch.head main\n# branch.upstream origin/main\n{}\n",
        GITIGNORE_HASH,
        status_example_line()
    );
    let status = parse_status(&text).unwrap();
    assert_eq!(status.branch_oid, GITIGNORE_HASH);
    assert_eq!(status.branch_head, "main");
    assert_eq!(status.branch_upstream, "origin/main");
    assert_eq!(status.entries.len(), 1);
}

#[test]
fn parse_status_deterministic() {
    let text = format!(
        "# branch.oid {}\n# branch.head main\n{}\n",
        GITIGNORE_HASH,
        status_example_line()
    );
    let first = parse_status(&text).unwrap();
    let second = parse_status(&text).unwrap();
    assert_eq!(first.branch_oid, second.branch_oid);
    assert_eq!(first.branch_head, second.branch_head);
    assert_eq!(first.branch_upstream, second.branch_upstream);
    assert_eq!(first.entries.len(), second.entries.len());
    for (a, b) in first.entries.iter().zip(second.entries.iter()) {
        assert_eq!(a.staged_status, b.staged_status);
        assert_eq!(a.unstaged_status, b.unstaged_status);
        assert_eq!(a.head_sha1, b.head_sha1);
        assert_eq!(a.index_sha1, b.index_sha1);
        assert_eq!(a.path, b.path);
    }
}

#[test]
fn parse_status_ignores_unrecognized_lines() {
    let text = format!(
        "? untracked.txt\n2 RM N... 100644 100644 100644 {h} {h} renamed.rs\nu UU N... 100644 100644 100644 100644 {h} {h} conflicted\n{line}\n",
        h = GITIGNORE_HASH,
        line = status_example_line()
    );
    let status = parse_status(&text).unwrap();
    assert_eq!(status.entries.len(), 1);
    assert_eq!(status.entries[0].path, ".gitignore");
}

#[test]
fn parse_status_unknown_status_letter() {
    let text = format!(
        "1 Z. N... 000000 100644 100644 {} {} file",
        ZERO_HASH, GITIGNORE_HASH
    );
    assert_eq!(parse_status(&text).unwrap_err(), GitError::Format);
}

#[test]
fn parse_status_missing_fields() {
    assert_eq!(parse_status("1 A. N...").unwrap_err(), GitError::Format);
}

#[test]
fn parse_status_bad_hash_length() {
    let text = format!("1 A. N... 000000 100644 100644 00000 {} file", GITIGNORE_HASH);
    assert_eq!(parse_status(&text).unwrap_err(), GitError::Format);
}

#[test]
fn parse_status_empty_text() {
    let status = parse_status("").unwrap();
    assert_eq!(status.branch_oid, "");
    assert_eq!(status.branch_head, "");
    assert_eq!(status.branch_upstream, "");
    assert_eq!(status.entries.len(), 0);
}

#[test]
fn show_entry_from_line() {
    let line = format!(
        ":100644 100644 {} {} M src/main.rs",
        ZERO_HASH, GITIGNORE_HASH
    );
    let entry = ShowEntry::from_line(&line).unwrap();
    assert_eq!(entry.left_status, EntryStatus::Unchanged);
    assert_eq!(entry.right_status, EntryStatus::Unchanged);
    assert_eq!(entry.left_sha1, Sha1Hash::from_bytes(ZERO_HASH.as_bytes()));
    assert_eq!(
        entry.right_sha1,
        Sha1Hash::from_bytes(GITIGNORE_HASH.as_bytes())
    );
    assert_eq!(entry.status, FileStatus::Modified);
    assert_eq!(entry.path, "src/main.rs");
}

#[test]
fn show_entry_needs_leading_colon() {
    let line = format!("100644 100644 {} {} M file", ZERO_HASH, GITIGNORE_HASH);
    assert_eq!(ShowEntry::from_line(&line).unwrap_err(), GitError::Format);
}

#[test]
fn show_entry_unknown_status_code() {
    let line = format!(":100644 100644 {} {} X file", ZERO_HASH, GITIGNORE_HASH);
    assert_eq!(ShowEntry::from_line(&line).unwrap_err(), GitError::Format);
}

#[test]
fn show_entry_missing_fields() {
    assert_eq!(ShowEntry::from_line(":100644").unwrap_err(), GitError::Format);
}

#[test]
fn parse_show_splits_description_and_entries() {
    let text = format!(
        "commit something\nAuthor: someone\n:100644 100644 {} {} M a.rs\n:100644 100644 {} {} A b.rs\n",
        ZERO_HASH, GITIGNORE_HASH, ZERO_HASH, GITIGNORE_HASH
    );
    let show = parse_show(&text).unwrap();
    // non-colon lines are concatenated without separators
    assert_eq!(show.description, "commit somethingAuthor: someone");
    assert_eq!(show.entries.len(), 2);
    assert_eq!(show.entries[0].path, "a.rs");
    assert_eq!(show.entries[0].status, FileStatus::Modified);
    assert_eq!(show.entries[1].path, "b.rs");
    assert_eq!(show.entries[1].status, FileStatus::Added);
}

#[test]
fn parse_diff_takes_every_line() {
    let text = format!(
        ":100644 100644 {} {} M a.rs\n:100644 100644 {} {} D b.rs\n",
        ZERO_HASH, GITIGNORE_HASH, ZERO_HASH, GITIGNORE_HASH
    );
    let diff = parse_diff(&text).unwrap();
    assert_eq!(diff.entries.len(), 2);
    assert_eq!(diff.entries[1].status, FileStatus::Deleted);
}

#[test]
fn parse_diff_rejects_stray_lines() {
    let text = format!("oops\n:100644 100644 {} {} M a.rs\n", ZERO_HASH, GITIGNORE_HASH);
    assert_eq!(parse_diff(&text).unwrap_err(), GitError::Format);
}

#[test]
fn entry_status_from_u8_letters() {
    assert_eq!(EntryStatus::from_u8(&b'A').unwrap(), EntryStatus::Added);
    assert_eq!(EntryStatus::from_u8(&b'M').unwrap(), EntryStatus::Modified);
    assert_eq!(EntryStatus::from_u8(&b'D').unwrap(), EntryStatus::Deleted);
    assert_eq!(EntryStatus::from_u8(&b'.').unwrap(), EntryStatus::Unchanged);
    assert_eq!(EntryStatus::from_u8(&b'?').unwrap_err(), GitError::Format);
}

#[test]
fn entry_status_names() {
    assert_eq!(EntryStatus::Added.to_string(), "Added");
    assert_eq!(EntryStatus::Untracked.to_string(), "Untracked");
    assert_eq!(EntryStatus::Modified.to_string(), "Modified");
    assert_eq!(EntryStatus::Deleted.to_string(), "Deleted");
    assert_eq!(EntryStatus::Renamed.to_string(), "Renamed");
    assert_eq!(EntryStatus::Unchanged.to_string(), "Unchanged");
}

#[test]
fn file_status_from_str_codes() {
    assert_eq!(FileStatus::from_str("A").unwrap(), FileStatus::Added);
    assert_eq!(FileStatus::from_str("C").unwrap(), FileStatus::Copied);
    assert_eq!(FileStatus::from_str("D").unwrap(), FileStatus::Deleted);
    assert_eq!(FileStatus::from_str("M").unwrap(), FileStatus::Modified);
    assert_eq!(FileStatus::from_str("R").unwrap(), FileStatus::Renamed);
    assert_eq!(FileStatus::from_str("T").unwrap(), FileStatus::TypeChange);
    assert_eq!(FileStatus::from_str("U").unwrap(), FileStatus::Unmerged);
    assert_eq!(FileStatus::from_str("Q").unwrap_err(), GitError::Format);
    assert_eq!(FileStatus::from_str("MM").unwrap_err(), GitError::Format);
    assert_eq!(FileStatus::from_str("").unwrap_err(), GitError::Format);
}

#[test]
fn sha1_zero_detection() {
    assert!(Sha1Hash::from_bytes(ZERO_HASH.as_bytes()).is_zero());
    assert!(!Sha1Hash::from_bytes(GITIGNORE_HASH.as_bytes()).is_zero());
}

#[test]
fn sha1_as_bytes_round_trip() {
    let hash = Sha1Hash::from_bytes(GITIGNORE_HASH.as_bytes());
    assert_eq!(hash.as_bytes(), GITIGNORE_HASH.as_bytes());
}
