//! Data model shared by the report parsers and the workspace tree:
//! object hashes, per-file status codes, and the structured forms of
//! the three report formats.

use vstd::prelude::*;

verus! {

/// ASCII codes of the bytes the grammars use.
pub const ASCII_A: u8 = 65;
pub const ASCII_M: u8 = 77;
pub const ASCII_D: u8 = 68;
pub const ASCII_DOT: u8 = 46;
pub const ASCII_ZERO: u8 = 48;

/// The views of a sequence of values, element by element.
pub open spec fn views_of<T: View>(s: Seq<T>) -> Seq<T::V> {
    Seq::new(s.len(), |i: int| s[i]@)
}

/// The view of a `Result` whose success value carries a view of its
/// own; errors pass through unchanged.
pub open spec fn result_view<T: View>(r: Result<T, GitError>) -> Result<T::V, GitError> {
    match r {
        Ok(t) => Ok(t@),
        Err(e) => Err(e),
    }
}

/// Error taxonomy for every operation of the library and of the
/// surrounding application.
///
/// `Process` and `Encoding` are produced by the application when a
/// subprocess cannot be run or prints bytes that are not valid text;
/// the library itself produces only `Format` (text does not match the
/// expected grammar), `Lookup` (a stale entry identifier), and
/// `UnsupportedInput` (a recognized but unhandled status code).
#[derive(Clone, Copy, Debug, PartialEq, Eq, Structural)]
pub enum GitError {
    Process,
    Encoding,
    Format,
    Lookup,
    UnsupportedInput,
}

/// A fixed-length hexadecimal content identifier, stored as the 40
/// ASCII bytes the tool prints. The all-`'0'` value denotes "no
/// object" (an empty or nonexistent blob).
#[derive(Debug, Hash, Eq, PartialEq, Clone, Copy)]
pub struct Sha1Hash([u8; 40]);

impl View for Sha1Hash {
    type V = Seq<u8>;

    closed spec fn view(&self) -> Seq<u8> {
        self.0@
    }
}

/// True when every byte of `h` is the digit `'0'`: the well-known
/// sentinel for "no object".
pub open spec fn spec_hash_is_zero(h: Seq<u8>) -> bool {
    forall|i: int| 0 <= i < h.len() ==> h[i] == ASCII_ZERO
}

impl Sha1Hash {
    /// Copies a 40-byte identifier out of a byte slice.
    pub fn from_bytes(bytes: &[u8]) -> (r: Sha1Hash)
        requires
            bytes@.len() == 40,
        ensures
            r@ == bytes@,
    {
        let mut hash = [0u8; 40];
        let mut i: usize = 0;
        while i < 40
            invariant
                i <= 40,
                bytes@.len() == 40,
                forall|j: int| 0 <= j < i ==> hash@[j] == bytes@[j],
            decreases 40 - i,
        {
            hash[i] = bytes[i];
            i += 1;
        }
        proof {
            assert(hash@ =~= bytes@);
        }
        Sha1Hash(hash)
    }

    /// The forty bytes of the identifier, as the tool prints them.
    pub fn as_bytes(&self) -> (r: &[u8])
        ensures
            r@ == self@,
    {
        self.0.as_slice()
    }

    /// True when every byte is the digit `'0'`: the well-known
    /// sentinel for "no object".
    pub open spec fn spec_is_zero(&self) -> bool {
        spec_hash_is_zero(self@)
    }

    pub fn is_zero(&self) -> (r: bool)
        ensures
            r == self.spec_is_zero(),
    {
        let mut i: usize = 0;
        while i < 40
            invariant
                i <= 40,
                forall|j: int| 0 <= j < i ==> self@[j] == ASCII_ZERO,
            decreases 40 - i,
        {
            if self.0[i] != ASCII_ZERO {
                proof {
                    assert(self@.len() == 40);
                    assert(self@[i as int] != ASCII_ZERO);
                }
                return false;
            }
            i += 1;
        }
        true
    }
}

/// Per-file status under one perspective of the status report:
/// staged (index vs. last commit) or unstaged (working tree vs.
/// index). `Unchanged` marks a file the perspective does not touch.
#[derive(Debug, PartialEq, Eq, Clone, Copy, Structural)]
pub enum EntryStatus {
    Added,
    Untracked,
    Modified,
    Deleted,
    Renamed,
    Unchanged,
}

/// The status letter of one perspective, decoded; `None` when the
/// byte is not a recognized status letter.
pub open spec fn entry_status_of_byte(b: u8) -> Option<EntryStatus> {
    if b == ASCII_A {
        Some(EntryStatus::Added)
    } else if b == ASCII_M {
        Some(EntryStatus::Modified)
    } else if b == ASCII_D {
        Some(EntryStatus::Deleted)
    } else if b == ASCII_DOT {
        Some(EntryStatus::Unchanged)
    } else {
        None
    }
}

impl EntryStatus {
    /// Decodes one status letter of the two-character code of a
    /// porcelain change line. An unrecognized letter is malformed
    /// input, never a panic.
    pub fn from_u8(status: &u8) -> (r: Result<EntryStatus, GitError>)
        ensures
            r == match entry_status_of_byte(*status) {
                Some(s) => Ok::<EntryStatus, GitError>(s),
                None => Err::<EntryStatus, GitError>(GitError::Format),
            },
    {
        if *status == ASCII_A {
            Ok(EntryStatus::Added)
        } else if *status == ASCII_M {
            Ok(EntryStatus::Modified)
        } else if *status == ASCII_D {
            Ok(EntryStatus::Deleted)
        } else if *status == ASCII_DOT {
            Ok(EntryStatus::Unchanged)
        } else {
            Err(GitError::Format)
        }
    }

    /// The display name of the status.
    pub open spec fn spec_name(self) -> Seq<char> {
        match self {
            EntryStatus::Added => "Added"@,
            EntryStatus::Untracked => "Untracked"@,
            EntryStatus::Modified => "Modified"@,
            EntryStatus::Deleted => "Deleted"@,
            EntryStatus::Renamed => "Renamed"@,
            EntryStatus::Unchanged => "Unchanged"@,
        }
    }

    pub fn to_string(&self) -> (r: String)
        ensures
            r@ == self.spec_name(),
    {
        match self {
            EntryStatus::Added => String::from_str("Added"),
            EntryStatus::Untracked => String::from_str("Untracked"),
            EntryStatus::Modified => String::from_str("Modified"),
            EntryStatus::Deleted => String::from_str("Deleted"),
            EntryStatus::Renamed => String::from_str("Renamed"),
            EntryStatus::Unchanged => String::from_str("Unchanged"),
        }
    }
}

/// Per-file status code of a raw diff/show report: a superset of the
/// letters the status report uses.
#[derive(Debug, Clone, Copy, PartialEq, Eq, Structural)]
pub enum FileStatus {
    Added,
    Copied,
    Deleted,
    Modified,
    Renamed,
    TypeChange,
    Unmerged,
}

/// The status character of a raw diff/show change line, decoded;
/// `None` when the character is not a recognized code.
pub open spec fn file_status_of_char(c: char) -> Option<FileStatus> {
    if c == 'A' {
        Some(FileStatus::Added)
    } else if c == 'C' {
        Some(FileStatus::Copied)
    } else if c == 'D' {
        Some(FileStatus::Deleted)
    } else if c == 'M' {
        Some(FileStatus::Modified)
    } else if c == 'R' {
        Some(FileStatus::Renamed)
    } else if c == 'T' {
        Some(FileStatus::TypeChange)
    } else if c == 'U' {
        Some(FileStatus::Unmerged)
    } else {
        None
    }
}

impl FileStatus {
    /// Decodes the single-character status field of a raw diff/show
    /// change line. A field that is not exactly one recognized
    /// character is malformed input, never a panic.
    pub fn from_str(status: &str) -> (r: Result<FileStatus, GitError>)
        ensures
            r == if status@.len() != 1 {
                Err::<FileStatus, GitError>(GitError::Format)
            } else {
                match file_status_of_char(status@[0]) {
                    Some(s) => Ok::<FileStatus, GitError>(s),
                    None => Err::<FileStatus, GitError>(GitError::Format),
                }
            },
    {
        if status.unicode_len() != 1 {
            return Err(GitError::Format);
        }
        let c = status.get_char(0);
        if c == 'A' {
            Ok(FileStatus::Added)
        } else if c == 'C' {
            Ok(FileStatus::Copied)
        } else if c == 'D' {
            Ok(FileStatus::Deleted)
        } else if c == 'M' {
            Ok(FileStatus::Modified)
        } else if c == 'R' {
            Ok(FileStatus::Renamed)
        } else if c == 'T' {
            Ok(FileStatus::TypeChange)
        } else if c == 'U' {
            Ok(FileStatus::Unmerged)
        } else {
            Err(GitError::Format)
        }
    }
}

/// One ordinary changed entry of the status report, under both
/// perspectives at once.
#[derive(Debug, Clone)]
pub struct StatusEntry {
    pub staged_status: EntryStatus,
    pub unstaged_status: EntryStatus,
    pub head_sha1: Sha1Hash,
    pub index_sha1: Sha1Hash,
    pub path: String,
}

/// Mathematical form of a [`StatusEntry`].
#[verifier::ext_equal]
pub struct StatusEntryV {
    pub staged_status: EntryStatus,
    pub unstaged_status: EntryStatus,
    pub head_sha1: Seq<u8>,
    pub index_sha1: Seq<u8>,
    pub path: Seq<char>,
}

impl View for StatusEntry {
    type V = StatusEntryV;

    open spec fn view(&self) -> StatusEntryV {
        StatusEntryV {
            staged_status: self.staged_status,
            unstaged_status: self.unstaged_status,
            head_sha1: self.head_sha1@,
            index_sha1: self.index_sha1@,
            path: self.path@,
        }
    }
}

/// The structured status report: the branch headers plus the changed
/// entries in report order.
#[derive(Debug)]
pub struct GitStatus {
    pub branch_oid: String,
    pub branch_head: String,
    pub branch_upstream: String,
    pub entries: Vec<StatusEntry>,
}

/// Mathematical form of a [`GitStatus`].
#[verifier::ext_equal]
pub struct GitStatusV {
    pub branch_oid: Seq<char>,
    pub branch_head: Seq<char>,
    pub branch_upstream: Seq<char>,
    pub entries: Seq<StatusEntryV>,
}

impl View for GitStatus {
    type V = GitStatusV;

    open spec fn view(&self) -> GitStatusV {
        GitStatusV {
            branch_oid: self.branch_oid@,
            branch_head: self.branch_head@,
            branch_upstream: self.branch_upstream@,
            entries: views_of(self.entries@),
        }
    }
}

/// One change line of a raw diff/show report.
#[derive(Debug, Clone)]
pub struct ShowEntry {
    pub left_status: EntryStatus,
    pub right_status: EntryStatus,
    pub left_sha1: Sha1Hash,
    pub right_sha1: Sha1Hash,
    pub path: String,
    pub status: FileStatus,
}

/// Mathematical form of a [`ShowEntry`].
#[verifier::ext_equal]
pub struct ShowEntryV {
    pub left_status: EntryStatus,
    pub right_status: EntryStatus,
    pub left_sha1: Seq<u8>,
    pub right_sha1: Seq<u8>,
    pub path: Seq<char>,
    pub status: FileStatus,
}

impl View for ShowEntry {
    type V = ShowEntryV;

    open spec fn view(&self) -> ShowEntryV {
        ShowEntryV {
            left_status: self.left_status,
            right_status: self.right_status,
            left_sha1: self.left_sha1@,
            right_sha1: self.right_sha1@,
            path: self.path@,
            status: self.status,
        }
    }
}

/// The structured form of a per-commit change report: the free-text
/// description plus one entry per changed file.
#[derive(Debug)]
pub struct GitShow {
    pub description: String,
    pub entries: Vec<ShowEntry>,
}

/// Mathematical form of a [`GitShow`].
#[verifier::ext_equal]
pub struct GitShowV {
    pub description: Seq<char>,
    pub entries: Seq<ShowEntryV>,
}

impl View for GitShow {
    type V = GitShowV;

    open spec fn view(&self) -> GitShowV {
        GitShowV {
            description: self.description@,
            entries: views_of(self.entries@),
        }
    }
}

/// The structured form of a raw diff report: one entry per changed
/// file.
#[derive(Debug)]
pub struct GitDiff {
    pub entries: Vec<ShowEntry>,
}

/// Mathematical form of a [`GitDiff`].
#[verifier::ext_equal]
pub struct GitDiffV {
    pub entries: Seq<ShowEntryV>,
}

impl View for GitDiff {
    type V = GitDiffV;

    open spec fn view(&self) -> GitDiffV {
        GitDiffV { entries: views_of(self.entries@) }
    }
}

/// Options selecting which two trees or working states a raw diff
/// report compares.
#[derive(Debug, Clone)]
pub struct DiffOptions {
    pub merge_base: bool,
    pub cached: bool,
    pub commit: Option<String>,
}

/// Mathematical form of [`DiffOptions`].
#[verifier::ext_equal]
pub struct DiffOptionsV {
    pub merge_base: bool,
    pub cached: bool,
    pub commit: Option<Seq<char>>,
}

impl View for DiffOptions {
    type V = DiffOptionsV;

    open spec fn view(&self) -> DiffOptionsV {
        DiffOptionsV {
            merge_base: self.merge_base,
            cached: self.cached,
            commit: match self.commit {
                Some(ref c) => Some(c@),
                None => None,
            },
        }
    }
}

} // verus!
