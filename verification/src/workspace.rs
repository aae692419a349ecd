//! The navigable entry tree: categories, directories and files in
//! display order, with stable identifiers assigned at construction
//! from a counter owned by the builder.

use vstd::prelude::*;

use crate::model::{
    spec_hash_is_zero, DiffOptions, DiffOptionsV, EntryStatus, GitDiff, GitError, GitShow,
    GitStatus, GitStatusV, Sha1Hash, ShowEntry, ShowEntryV, StatusEntryV,
};
use crate::text::{parent_dir, parent_of};

verus! {

/// Process-local identifier of one entry, unique within the tree
/// that produced it; assigned in construction order from a counter
/// the builder owns, so the identifier of an entry is its position.
#[derive(Clone, Copy, Debug, Default, Hash, PartialEq, Eq, PartialOrd, Ord, Structural)]
pub struct ProjectEntryId(usize);

impl View for ProjectEntryId {
    type V = usize;

    closed spec fn view(&self) -> usize {
        self.0
    }
}

impl ProjectEntryId {
    /// Takes the next identifier out of the builder's counter.
    pub fn new(counter: &mut usize) -> (r: Self)
        requires
            *old(counter) < usize::MAX,
        ensures
            r@ == *old(counter),
            *final(counter) == *old(counter) + 1,
    {
        let id = ProjectEntryId(*counter);
        *counter = *counter + 1;
        id
    }

    pub fn to_usize(&self) -> (r: usize)
        ensures
            r == self@,
    {
        self.0
    }
}

/// Where one side of a file comparison gets its bytes from.
#[derive(Debug, Clone, Copy)]
pub enum FileSource {
    Empty,
    Working,
    Index(Sha1Hash),
    Head(Sha1Hash),
    Commit(Sha1Hash),
}

/// Mathematical form of a [`FileSource`]: the hash as its byte
/// sequence.
pub enum FileSourceV {
    Empty,
    Working,
    Index(Seq<u8>),
    Head(Seq<u8>),
    Commit(Seq<u8>),
}

impl View for FileSource {
    type V = FileSourceV;

    open spec fn view(&self) -> FileSourceV {
        match *self {
            FileSource::Empty => FileSourceV::Empty,
            FileSource::Working => FileSourceV::Working,
            FileSource::Index(h) => FileSourceV::Index(h@),
            FileSource::Head(h) => FileSourceV::Head(h@),
            FileSource::Commit(h) => FileSourceV::Commit(h@),
        }
    }
}

/// The working tree when the hash is the all-zero sentinel, else the
/// stored object the hash names.
pub open spec fn spec_commit_or_working(h: Seq<u8>) -> FileSourceV {
    if spec_hash_is_zero(h) {
        FileSourceV::Working
    } else {
        FileSourceV::Commit(h)
    }
}

/// The left side of the comparison a diff-report entry calls for;
/// `None` for a status code the tree does not support.
pub open spec fn spec_left_source(e: ShowEntryV) -> Option<FileSourceV> {
    match e.status {
        crate::model::FileStatus::Added => Some(FileSourceV::Empty),
        crate::model::FileStatus::Modified => Some(FileSourceV::Head(e.left_sha1)),
        crate::model::FileStatus::Deleted => Some(FileSourceV::Commit(e.left_sha1)),
        _ => None,
    }
}

/// The right side of the comparison a diff-report entry calls for;
/// `None` for a status code the tree does not support.
pub open spec fn spec_right_source(e: ShowEntryV) -> Option<FileSourceV> {
    match e.status {
        crate::model::FileStatus::Added => Some(spec_commit_or_working(e.right_sha1)),
        crate::model::FileStatus::Modified => Some(spec_commit_or_working(e.right_sha1)),
        crate::model::FileStatus::Deleted => Some(FileSourceV::Empty),
        _ => None,
    }
}

impl FileSource {
    /// The working tree when the hash is the all-zero sentinel, else
    /// the stored object the hash names.
    pub fn commit_or_working(sha1: &Sha1Hash) -> (r: Self)
        ensures
            r@ == spec_commit_or_working(sha1@),
    {
        if sha1.is_zero() {
            Self::Working
        } else {
            Self::Commit(*sha1)
        }
    }

    /// The left side of the comparison a diff-report entry calls
    /// for: nothing for an added file, the old blob for a modified
    /// or deleted one. Any other status code is unsupported input,
    /// never a panic.
    pub fn left_from_entry(entry: &ShowEntry) -> (r: Result<Self, GitError>)
        ensures
            spec_left_source(entry@) is Some ==> r is Ok && Some(r.unwrap()@)
                == spec_left_source(entry@),
            spec_left_source(entry@) is None ==> r == Err::<FileSource, GitError>(
                GitError::UnsupportedInput,
            ),
    {
        match entry.status {
            crate::model::FileStatus::Added => Ok(Self::Empty),
            crate::model::FileStatus::Modified => Ok(Self::Head(entry.left_sha1)),
            crate::model::FileStatus::Deleted => Ok(Self::Commit(entry.left_sha1)),
            _ => Err(GitError::UnsupportedInput),
        }
    }

    /// The right side of the comparison a diff-report entry calls
    /// for: the new blob (or the working tree, under the sentinel
    /// rule) for an added or modified file, nothing for a deleted
    /// one. Any other status code is unsupported input, never a
    /// panic.
    pub fn right_from_entry(entry: &ShowEntry) -> (r: Result<Self, GitError>)
        ensures
            spec_right_source(entry@) is Some ==> r is Ok && Some(r.unwrap()@)
                == spec_right_source(entry@),
            spec_right_source(entry@) is None ==> r == Err::<FileSource, GitError>(
                GitError::UnsupportedInput,
            ),
    {
        match entry.status {
            crate::model::FileStatus::Added => Ok(Self::commit_or_working(&entry.right_sha1)),
            crate::model::FileStatus::Modified => Ok(Self::commit_or_working(&entry.right_sha1)),
            crate::model::FileStatus::Deleted => Ok(Self::Empty),
            _ => Err(GitError::UnsupportedInput),
        }
    }
}

/// The three headline groups of the tree.
#[derive(Debug, Clone, Copy, PartialEq, Eq, Structural)]
pub enum CategoryKind {
    Staged,
    Working,
    Commit,
}

/// The two-sided comparison a file entry stands for.
#[derive(Debug, Clone)]
pub struct FileEntry {
    pub path: String,
    pub left_source: FileSource,
    pub right_source: FileSource,
}

/// Mathematical form of a [`FileEntry`].
#[verifier::ext_equal]
pub struct FileEntryV {
    pub path: Seq<char>,
    pub left_source: FileSourceV,
    pub right_source: FileSourceV,
}

impl View for FileEntry {
    type V = FileEntryV;

    open spec fn view(&self) -> FileEntryV {
        FileEntryV {
            path: self.path@,
            left_source: self.left_source@,
            right_source: self.right_source@,
        }
    }
}

/// What one entry of the tree is: a headline, a parent directory, or
/// a file comparison.
#[derive(Debug, Clone)]
pub enum EntryKind {
    Category(CategoryKind),
    File(FileEntry),
    Directory(String),
}

/// Mathematical form of an [`EntryKind`].
#[verifier::ext_equal]
pub enum EntryKindV {
    Category(CategoryKind),
    File(FileEntryV),
    Directory(Seq<char>),
}

impl View for EntryKind {
    type V = EntryKindV;

    open spec fn view(&self) -> EntryKindV {
        match self {
            EntryKind::Category(k) => EntryKindV::Category(*k),
            EntryKind::File(f) => EntryKindV::File(f@),
            EntryKind::Directory(d) => EntryKindV::Directory(d@),
        }
    }
}

/// One entry of the tree.
#[derive(Debug, Clone)]
pub struct Entry {
    pub id: ProjectEntryId,
    pub kind: EntryKind,
    pub path: String,
}

/// Mathematical form of an [`Entry`].
#[verifier::ext_equal]
pub struct EntryV {
    pub id: usize,
    pub kind: EntryKindV,
    pub path: Seq<char>,
}

impl View for Entry {
    type V = EntryV;

    open spec fn view(&self) -> EntryV {
        EntryV { id: self.id@, kind: self.kind@, path: self.path@ }
    }
}

/// The query a tree was built from.
#[derive(Debug, Clone)]
pub enum WorkspaceMode {
    GitStatus,
    GitShow(String),
    GitDiff(DiffOptions),
}

/// Mathematical form of a [`WorkspaceMode`].
#[verifier::ext_equal]
pub enum WorkspaceModeV {
    GitStatus,
    GitShow(Seq<char>),
    GitDiff(DiffOptionsV),
}

impl View for WorkspaceMode {
    type V = WorkspaceModeV;

    open spec fn view(&self) -> WorkspaceModeV {
        match self {
            WorkspaceMode::GitStatus => WorkspaceModeV::GitStatus,
            WorkspaceMode::GitShow(c) => WorkspaceModeV::GitShow(c@),
            WorkspaceMode::GitDiff(o) => WorkspaceModeV::GitDiff(o@),
        }
    }
}

/// The tree: its originating query and its entries in display
/// order. Rebuilt wholesale on every refresh; never patched.
#[derive(Debug)]
pub struct Workspace {
    pub mode: WorkspaceMode,
    pub entries: Vec<Entry>,
}

/// One row of the tree as construction determines it, before the
/// positional identifier is attached.
#[verifier::ext_equal]
pub struct RowV {
    pub kind: EntryKindV,
    pub path: Seq<char>,
}

/// The rows of `entries`, identifiers dropped.
pub open spec fn rows_of(entries: Seq<Entry>) -> Seq<RowV> {
    entries.map(|i: int, e: Entry| RowV { kind: e@.kind, path: e@.path })
}

/// Identifiers are positions: the entry at index `i` carries
/// identifier `i`. Every constructor establishes this; it is what
/// makes identifier lookup a round trip.
pub open spec fn ids_sequential(entries: Seq<Entry>) -> bool {
    forall|i: int| 0 <= i < entries.len() ==> #[trigger] entries[i]@.id == i
}

/// The entries carry exactly the given rows, in order, under
/// sequential identifiers.
pub open spec fn spec_entries_match(entries: Seq<Entry>, rows: Seq<RowV>) -> bool {
    &&& entries.len() == rows.len()
    &&& ids_sequential(entries)
    &&& rows_of(entries) == rows
}

impl Workspace {
    /// Every identifier names the position that holds it.
    pub open spec fn wf(&self) -> bool {
        ids_sequential(self.entries@)
    }
}

/// Whether a status entry belongs to the given perspective: its
/// status under that perspective is not `Unchanged`.
pub open spec fn spec_qualifies(e: StatusEntryV, staged: bool) -> bool {
    (if staged {
        e.staged_status
    } else {
        e.unstaged_status
    }) != EntryStatus::Unchanged
}

/// The file row a qualifying status entry contributes: under the
/// staged perspective the comparison is last commit against index;
/// under the unstaged perspective it is index against working tree.
pub open spec fn spec_status_file_row(e: StatusEntryV, staged: bool) -> RowV {
    RowV {
        kind: EntryKindV::File(
            FileEntryV {
                path: e.path,
                left_source: if staged {
                    FileSourceV::Head(e.head_sha1)
                } else {
                    FileSourceV::Index(e.index_sha1)
                },
                right_source: if staged {
                    FileSourceV::Index(e.index_sha1)
                } else {
                    FileSourceV::Working
                },
            },
        ),
        path: e.path,
    }
}

/// The first entry the perspective will emit, if any: it lends its
/// path to the perspective's category row.
pub open spec fn spec_first_qualifying(entries: Seq<StatusEntryV>, staged: bool) -> Option<
    StatusEntryV,
>
    decreases entries.len(),
{
    if entries.len() == 0 {
        None
    } else if spec_qualifies(entries[0], staged) {
        Some(entries[0])
    } else {
        spec_first_qualifying(entries.drop_first(), staged)
    }
}

/// The directory and file rows one perspective emits: qualifying
/// entries in report order, each preceded by a directory row
/// whenever its parent directory differs from the one last emitted.
pub open spec fn spec_perspective_rows(
    entries: Seq<StatusEntryV>,
    staged: bool,
    last_dir: Option<Seq<char>>,
) -> Seq<RowV>
    decreases entries.len(),
{
    if entries.len() == 0 {
        Seq::empty()
    } else if !spec_qualifies(entries[0], staged) {
        spec_perspective_rows(entries.drop_first(), staged, last_dir)
    } else {
        let p = parent_of(entries[0].path);
        let dir_rows: Seq<RowV> = if last_dir != Some(p) {
            seq![RowV { kind: EntryKindV::Directory(p), path: p }]
        } else {
            Seq::empty()
        };
        dir_rows + seq![spec_status_file_row(entries[0], staged)] + spec_perspective_rows(
            entries.drop_first(),
            staged,
            Some(p),
        )
    }
}

/// All rows of one perspective: one category row, carrying the path
/// of the first qualifying entry, then the perspective's directory
/// and file rows; nothing at all when no entry qualifies.
pub open spec fn spec_side_rows(entries: Seq<StatusEntryV>, staged: bool) -> Seq<RowV> {
    match spec_first_qualifying(entries, staged) {
        None => Seq::empty(),
        Some(e0) => seq![
            RowV {
                kind: EntryKindV::Category(
                    if staged {
                        CategoryKind::Staged
                    } else {
                        CategoryKind::Working
                    },
                ),
                path: e0.path,
            },
        ] + spec_perspective_rows(entries, staged, None),
    }
}

/// The rows of a status-mode tree: the staged perspective first,
/// then the unstaged one, each built independently.
pub open spec fn spec_status_rows(st: GitStatusV) -> Seq<RowV> {
    spec_side_rows(st.entries, true) + spec_side_rows(st.entries, false)
}

/// One perspective emits at most two rows per report entry.
pub proof fn lemma_perspective_rows_len(
    entries: Seq<StatusEntryV>,
    staged: bool,
    last_dir: Option<Seq<char>>,
)
    ensures
        spec_perspective_rows(entries, staged, last_dir).len() <= 2 * entries.len(),
    decreases entries.len(),
{
    if entries.len() == 0 {
    } else if !spec_qualifies(entries[0], staged) {
        lemma_perspective_rows_len(entries.drop_first(), staged, last_dir);
    } else {
        lemma_perspective_rows_len(
            entries.drop_first(),
            staged,
            Some(parent_of(entries[0].path)),
        );
    }
}

/// One perspective emits at most one row more than twice the number
/// of report entries.
pub proof fn lemma_side_rows_len(entries: Seq<StatusEntryV>, staged: bool)
    ensures
        spec_side_rows(entries, staged).len() <= 2 * entries.len() + 1,
{
    lemma_perspective_rows_len(entries, staged, None);
}

/// The view of the tracked previous parent directory.
pub open spec fn spec_dir_view(d: Option<String>) -> Option<Seq<char>> {
    match d {
        Some(s) => Some(s@),
        None => None,
    }
}

/// The file row a show-report entry contributes: both sides come
/// from stored objects of the commit.
pub open spec fn spec_show_file_row(e: ShowEntryV) -> RowV {
    RowV {
        kind: EntryKindV::File(
            FileEntryV {
                path: e.path,
                left_source: FileSourceV::Commit(e.left_sha1),
                right_source: FileSourceV::Commit(e.right_sha1),
            },
        ),
        path: e.path,
    }
}

/// The commit category row that opens a diff- or show-mode tree.
pub open spec fn spec_commit_category_row() -> RowV {
    RowV { kind: EntryKindV::Category(CategoryKind::Commit), path: Seq::empty() }
}

/// The rows of a show-mode tree: the commit category, then one file
/// row per report entry, in report order.
pub open spec fn spec_show_rows(sh: crate::model::GitShowV) -> Seq<RowV> {
    seq![spec_commit_category_row()] + sh.entries.map(|i: int, e: ShowEntryV| spec_show_file_row(e))
}

/// Whether every entry of a diff report carries a status code the
/// tree supports.
pub open spec fn spec_diff_supported(entries: Seq<ShowEntryV>) -> bool {
    forall|i: int|
        0 <= i < entries.len() ==> (#[trigger] spec_left_source(entries[i])) is Some
            && spec_right_source(entries[i]) is Some
}

/// The file row a diff-report entry contributes, when its status
/// code is supported.
pub open spec fn spec_diff_file_row(e: ShowEntryV) -> RowV {
    RowV {
        kind: EntryKindV::File(
            FileEntryV {
                path: e.path,
                left_source: spec_left_source(e).unwrap(),
                right_source: spec_right_source(e).unwrap(),
            },
        ),
        path: e.path,
    }
}

/// The rows of a diff-mode tree: the commit category, then one file
/// row per report entry, in report order.
pub open spec fn spec_diff_rows(entries: Seq<ShowEntryV>) -> Seq<RowV> {
    seq![spec_commit_category_row()] + entries.map(|i: int, e: ShowEntryV| spec_diff_file_row(e))
}

/// Appends one entry under the next identifier of the builder's
/// counter.
fn push_row(entries: &mut Vec<Entry>, counter: &mut usize, kind: EntryKind, path: String)
    requires
        *old(counter) == old(entries)@.len(),
        *old(counter) < usize::MAX,
        ids_sequential(old(entries)@),
    ensures
        *final(counter) == final(entries)@.len(),
        final(entries)@.len() == old(entries)@.len() + 1,
        ids_sequential(final(entries)@),
        rows_of(final(entries)@) == rows_of(old(entries)@).push(RowV { kind: kind@, path: path@ }),
{
    let ghost prev = entries@;
    let ghost row = RowV { kind: kind@, path: path@ };
    let id = ProjectEntryId::new(counter);
    entries.push(Entry { id, kind, path });
    proof {
        assert forall|i: int| 0 <= i < entries@.len() implies #[trigger] entries@[i]@.id == i by {
            if i < prev.len() {
                assert(entries@[i] == prev[i]);
            }
        }
        assert(rows_of(entries@) =~= rows_of(prev).push(row));
    }
}

impl Workspace {
    /// Builds the tree for a parsed per-commit show report: one
    /// commit category, then one file entry per changed file, both
    /// comparison sides drawn from the commit's stored objects.
    pub fn for_git_show(commit: &str, show: &GitShow) -> (w: Workspace)
        requires
            show.entries@.len() < usize::MAX,
        ensures
            w.mode@ == WorkspaceModeV::GitShow(commit@),
            spec_entries_match(w.entries@, spec_show_rows(show@)),
    {
        let ghost target = spec_show_rows(show@);
        let mut counter: usize = 0;
        let mut entries: Vec<Entry> = Vec::new();
        proof {
            assert(rows_of(entries@) =~= Seq::<RowV>::empty());
        }
        push_row(
            &mut entries,
            &mut counter,
            EntryKind::Category(CategoryKind::Commit),
            String::new(),
        );
        proof {
            assert(rows_of(entries@) =~= target.take(1));
        }
        let n = show.entries.len();
        let mut i: usize = 0;
        while i < n
            invariant
                i <= n,
                n == show.entries@.len(),
                counter == entries@.len(),
                entries@.len() == i + 1,
                ids_sequential(entries@),
                rows_of(entries@) == target.take(i + 1),
                target == spec_show_rows(show@),
                target.len() == n + 1,
                n < usize::MAX,
            decreases n - i,
        {
            let entry = &show.entries[i];
            proof {
                let m = show@.entries.map(|k: int, e: ShowEntryV| spec_show_file_row(e));
                assert(entry@ == show@.entries[i as int]);
                assert(target[i + 1] == m[i as int]);
                assert(target[i + 1] == spec_show_file_row(show@.entries[i as int]));
            }
            let file = FileEntry {
                path: entry.path.clone(),
                left_source: FileSource::Commit(entry.left_sha1),
                right_source: FileSource::Commit(entry.right_sha1),
            };
            let path = entry.path.clone();
            push_row(&mut entries, &mut counter, EntryKind::File(file), path);
            proof {
                assert(rows_of(entries@) =~= target.take(i + 2));
            }
            i += 1;
        }
        proof {
            assert(target.take(n + 1) =~= target);
        }
        Workspace { mode: WorkspaceMode::GitShow(commit.to_owned()), entries }
    }

    /// Builds the tree for a parsed raw diff report: one commit
    /// category, then one file entry per changed file, its sides
    /// fixed by the entry's status code. An entry with an
    /// unsupported status code fails the whole build, explicitly,
    /// rather than being silently dropped.
    pub fn for_git_diff(options: DiffOptions, diff: &GitDiff) -> (r: Result<Workspace, GitError>)
        requires
            diff.entries@.len() < usize::MAX,
        ensures
            spec_diff_supported(diff@.entries) ==> r is Ok && {
                let w = r.unwrap();
                &&& w.mode@ == WorkspaceModeV::GitDiff(options@)
                &&& spec_entries_match(w.entries@, spec_diff_rows(diff@.entries))
            },
            !spec_diff_supported(diff@.entries) ==> r == Err::<Workspace, GitError>(
                GitError::UnsupportedInput,
            ),
    {
        let ghost target = spec_diff_rows(diff@.entries);
        let mut counter: usize = 0;
        let mut entries: Vec<Entry> = Vec::new();
        proof {
            assert(rows_of(entries@) =~= Seq::<RowV>::empty());
        }
        push_row(
            &mut entries,
            &mut counter,
            EntryKind::Category(CategoryKind::Commit),
            String::new(),
        );
        proof {
            assert(rows_of(entries@) =~= target.take(1));
        }
        let n = diff.entries.len();
        let mut i: usize = 0;
        while i < n
            invariant
                i <= n,
                n == diff.entries@.len(),
                counter == entries@.len(),
                entries@.len() == i + 1,
                ids_sequential(entries@),
                rows_of(entries@) == target.take(i + 1),
                target == spec_diff_rows(diff@.entries),
                target.len() == n + 1,
                n < usize::MAX,
                forall|j: int|
                    0 <= j < i ==> (#[trigger] spec_left_source(diff@.entries[j])) is Some
                        && spec_right_source(diff@.entries[j]) is Some,
            decreases n - i,
        {
            let entry = &diff.entries[i];
            proof {
                let m = diff@.entries.map(|k: int, e: ShowEntryV| spec_diff_file_row(e));
                assert(entry@ == diff@.entries[i as int]);
                assert(target[i + 1] == m[i as int]);
                assert(target[i + 1] == spec_diff_file_row(diff@.entries[i as int]));
            }
            let left_source = match FileSource::left_from_entry(entry) {
                Ok(s) => s,
                Err(e) => {
                    proof {
                        assert(!spec_diff_supported(diff@.entries));
                    }
                    return Err(e);
                },
            };
            let right_source = match FileSource::right_from_entry(entry) {
                Ok(s) => s,
                Err(e) => {
                    proof {
                        assert(!spec_diff_supported(diff@.entries));
                    }
                    return Err(e);
                },
            };
            let file = FileEntry { path: entry.path.clone(), left_source, right_source };
            let path = entry.path.clone();
            push_row(&mut entries, &mut counter, EntryKind::File(file), path);
            proof {
                assert(rows_of(entries@) =~= target.take(i + 2));
            }
            i += 1;
        }
        proof {
            assert(target.take(n + 1) =~= target);
        }
        Ok(Workspace { mode: WorkspaceMode::GitDiff(options), entries })
    }

    /// Looks an entry up by its identifier: the first entry carrying
    /// it, or nothing when the tree never produced it.
    pub fn get_entry(&self, id: ProjectEntryId) -> (r: Option<&Entry>)
        ensures
            match spec_find_id(self.entries@, id@) {
                Some(i) => r is Some && *r.unwrap() == self.entries@[i],
                None => r is None,
            },
    {
        let n = self.entries.len();
        let mut i: usize = 0;
        while i < n
            invariant
                i <= n,
                n == self.entries@.len(),
                forall|j: int| 0 <= j < i ==> (#[trigger] self.entries@[j])@.id != id@,
            decreases n - i,
        {
            if self.entries[i].id == id {
                proof {
                    lemma_find_id(self.entries@, id@);
                    assert(self.entries@[i as int]@.id == id@);
                }
                return Some(&self.entries[i]);
            }
            i += 1;
        }
        proof {
            lemma_find_id(self.entries@, id@);
        }
        None
    }
}

/// Appends the rows of one status perspective: a category row when
/// anything qualifies, then the qualifying entries in report order,
/// each under its directory row whenever the parent directory
/// changes.
fn push_perspective(entries: &mut Vec<Entry>, counter: &mut usize, status: &GitStatus, staged: bool)
    requires
        *old(counter) == old(entries)@.len(),
        ids_sequential(old(entries)@),
        old(entries)@.len() + 2 * status.entries@.len() + 1 <= usize::MAX,
    ensures
        *final(counter) == final(entries)@.len(),
        ids_sequential(final(entries)@),
        rows_of(final(entries)@) == rows_of(old(entries)@) + spec_side_rows(
            status@.entries,
            staged,
        ),
        final(entries)@.len() == old(entries)@.len() + spec_side_rows(
            status@.entries,
            staged,
        ).len(),
{
    let ghost sv = status@.entries;
    let ghost base = rows_of(old(entries)@);
    let ghost pre_len = old(entries)@.len();
    let mut has_items = false;
    let mut last_dir: Option<String> = None;
    let n = status.entries.len();
    let mut i: usize = 0;
    proof {
        assert(sv.skip(0) =~= sv);
    }
    while i < n
        invariant
            i <= n,
            n == status.entries@.len(),
            sv == status@.entries,
            *counter == entries@.len(),
            ids_sequential(entries@),
            pre_len + 2 * n + 1 <= usize::MAX,
            entries@.len() + (if has_items {
                0int
            } else {
                1int
            }) <= pre_len + 1 + 2 * i,
            !has_items ==> last_dir is None,
            base + spec_side_rows(sv, staged) == rows_of(entries@) + (if has_items {
                spec_perspective_rows(sv.skip(i as int), staged, spec_dir_view(last_dir))
            } else {
                spec_side_rows(sv.skip(i as int), staged)
            }),
        decreases n - i,
    {
        let ghost had_items = has_items;
        let ghost ld0 = spec_dir_view(last_dir);
        let ghost rows0 = rows_of(entries@);
        let ghost rest = sv.skip(i as int);
        proof {
            assert(rest[0] == sv[i as int]);
            assert(rest.drop_first() =~= sv.skip(i as int + 1));
            assert(status.entries@[i as int]@ == sv[i as int]);
        }
        let entry = &status.entries[i];
        let st = if staged {
            entry.staged_status
        } else {
            entry.unstaged_status
        };
        if st != EntryStatus::Unchanged {
            proof {
                assert(spec_qualifies(sv[i as int], staged));
            }
            if !has_items {
                let cat = if staged {
                    CategoryKind::Staged
                } else {
                    CategoryKind::Working
                };
                push_row(entries, counter, EntryKind::Category(cat), entry.path.clone());
                has_items = true;
            }
            let parent = parent_dir(entry.path.as_str());
            let push_dir = match &last_dir {
                Option::None => true,
                Option::Some(d) => *d != parent,
            };
            let ghost rows_cat = rows_of(entries@);
            if push_dir {
                push_row(
                    entries,
                    counter,
                    EntryKind::Directory(parent.clone()),
                    parent.clone(),
                );
                last_dir = Some(parent);
            }
            let (left_source, right_source) = if staged {
                (FileSource::Head(entry.head_sha1), FileSource::Index(entry.index_sha1))
            } else {
                (FileSource::Index(entry.index_sha1), FileSource::Working)
            };
            let file = FileEntry { path: entry.path.clone(), left_source, right_source };
            let path = entry.path.clone();
            push_row(entries, counter, EntryKind::File(file), path);
            proof {
                let e = sv[i as int];
                let p = parent_of(e.path);
                let cat_row = RowV {
                    kind: EntryKindV::Category(
                        if staged {
                            CategoryKind::Staged
                        } else {
                            CategoryKind::Working
                        },
                    ),
                    path: e.path,
                };
                let dir_row = RowV { kind: EntryKindV::Directory(p), path: p };
                let file_row = spec_status_file_row(e, staged);
                let tail = spec_perspective_rows(sv.skip(i as int + 1), staged, Some(p));
                assert(spec_dir_view(last_dir) == Some(p));
                if !had_items {
                    assert(spec_first_qualifying(rest, staged) == Some(e));
                    assert(spec_side_rows(rest, staged) == seq![cat_row]
                        + spec_perspective_rows(rest, staged, None));
                    assert(spec_perspective_rows(rest, staged, None) == seq![dir_row]
                        + seq![file_row] + tail);
                    assert(rows_of(entries@) =~= rows0.push(cat_row).push(dir_row).push(
                        file_row,
                    ));
                    assert(rows0 + spec_side_rows(rest, staged) =~= rows_of(entries@) + tail);
                } else {
                    if ld0 != Some(p) {
                        assert(spec_perspective_rows(rest, staged, ld0) == seq![dir_row]
                            + seq![file_row] + tail);
                        assert(rows_of(entries@) =~= rows0.push(dir_row).push(file_row));
                    } else {
                        assert(spec_perspective_rows(rest, staged, ld0) == Seq::<RowV>::empty()
                            + seq![file_row] + tail);
                        assert(rows_of(entries@) =~= rows0.push(file_row));
                    }
                    assert(rows0 + spec_perspective_rows(rest, staged, ld0) =~= rows_of(
                        entries@,
                    ) + tail);
                }
            }
        } else {
            proof {
                assert(!spec_qualifies(sv[i as int], staged));
                if had_items {
                    assert(spec_perspective_rows(rest, staged, ld0) == spec_perspective_rows(
                        rest.drop_first(),
                        staged,
                        ld0,
                    ));
                } else {
                    assert(spec_first_qualifying(rest, staged) == spec_first_qualifying(
                        rest.drop_first(),
                        staged,
                    ));
                    match spec_first_qualifying(rest, staged) {
                        Option::None => {
                            assert(spec_side_rows(rest, staged) == spec_side_rows(
                                rest.drop_first(),
                                staged,
                            ));
                        },
                        Option::Some(e0) => {
                            assert(spec_perspective_rows(rest, staged, None)
                                == spec_perspective_rows(rest.drop_first(), staged, None));
                            assert(spec_side_rows(rest, staged) == spec_side_rows(
                                rest.drop_first(),
                                staged,
                            ));
                        },
                    }
                }
            }
        }
        i += 1;
    }
    proof {
        assert(sv.skip(n as int) =~= Seq::<StatusEntryV>::empty());
        if has_items {
            assert(spec_perspective_rows(sv.skip(n as int), staged, spec_dir_view(last_dir))
                == Seq::<RowV>::empty());
        } else {
            assert(spec_first_qualifying(sv.skip(n as int), staged) is None);
            assert(spec_side_rows(sv.skip(n as int), staged) == Seq::<RowV>::empty());
        }
        assert(rows_of(entries@) + Seq::<RowV>::empty() =~= rows_of(entries@));
        assert(rows_of(entries@).len() == entries@.len());
    }
}

impl Workspace {
    /// Builds the tree for a parsed status report: the staged
    /// perspective first, then the unstaged one, each with its own
    /// category row, directory rows on every change of parent
    /// directory, and one file entry per qualifying report entry;
    /// an entry qualifying under both perspectives appears twice.
    pub fn for_git_status(status: &GitStatus) -> (w: Workspace)
        requires
            4 * status.entries@.len() + 2 <= usize::MAX,
        ensures
            w.mode@ == WorkspaceModeV::GitStatus,
            spec_entries_match(w.entries@, spec_status_rows(status@)),
    {
        let mut counter: usize = 0;
        let mut entries: Vec<Entry> = Vec::new();
        proof {
            assert(rows_of(entries@) =~= Seq::<RowV>::empty());
            lemma_side_rows_len(status@.entries, true);
            lemma_side_rows_len(status@.entries, false);
        }
        push_perspective(&mut entries, &mut counter, status, true);
        proof {
            assert(Seq::<RowV>::empty() + spec_side_rows(status@.entries, true)
                =~= spec_side_rows(status@.entries, true));
        }
        push_perspective(&mut entries, &mut counter, status, false);
        proof {
            assert(spec_side_rows(status@.entries, true) + spec_side_rows(
                status@.entries,
                false,
            ) =~= spec_status_rows(status@));
        }
        Workspace { mode: WorkspaceMode::GitStatus, entries }
    }
}

/// Position of the first entry that carries the identifier, if any.
pub open spec fn spec_find_id(entries: Seq<Entry>, id: usize) -> Option<int>
    decreases entries.len(),
{
    if entries.len() == 0 {
        None
    } else if entries[0]@.id == id {
        Some(0int)
    } else {
        match spec_find_id(entries.drop_first(), id) {
            Some(i) => Some(i + 1),
            None => None,
        }
    }
}

pub proof fn lemma_find_id(entries: Seq<Entry>, id: usize)
    ensures
        match spec_find_id(entries, id) {
            Some(i) => 0 <= i < entries.len() && entries[i]@.id == id && forall|j: int|
                0 <= j < i ==> (#[trigger] entries[j])@.id != id,
            None => forall|j: int|
                0 <= j < entries.len() ==> (#[trigger] entries[j])@.id != id,
        },
    decreases entries.len(),
{
    if entries.len() == 0 {
    } else if entries[0]@.id == id {
    } else {
        lemma_find_id(entries.drop_first(), id);
        match spec_find_id(entries, id) {
            Some(i) => {
                assert(entries.drop_first()[i - 1] == entries[i]);
                assert forall|j: int| 0 <= j < i implies (#[trigger] entries[j])@.id != id by {
                    if j > 0 {
                        assert(entries.drop_first()[j - 1] == entries[j]);
                    }
                }
            },
            None => {
                assert forall|j: int| 0 <= j < entries.len() implies (#[trigger] entries[j])@.id
                    != id by {
                    if j > 0 {
                        assert(entries.drop_first()[j - 1] == entries[j]);
                    }
                }
            },
        }
    }
}

/// A tree hands back exactly the entries it made: looking up an
/// identifier its construction produced finds the entry at that
/// position, and looking up any other identifier finds nothing.
pub proof fn lemma_get_entry_round_trip(entries: Seq<Entry>, id: usize)
    requires
        ids_sequential(entries),
    ensures
        id < entries.len() ==> spec_find_id(entries, id) == Some(id as int),
        id >= entries.len() ==> spec_find_id(entries, id) is None,
{
    lemma_find_id(entries, id);
    match spec_find_id(entries, id) {
        Some(i) => {
            assert(entries[i]@.id == i);
        },
        None => {
            if id < entries.len() {
                assert(entries[id as int]@.id == id);
            }
        },
    }
}

/// Number of file rows.
pub open spec fn spec_count_files(rows: Seq<RowV>) -> nat
    decreases rows.len(),
{
    if rows.len() == 0 {
        0
    } else {
        (if rows[0].kind is File {
            1nat
        } else {
            0nat
        }) + spec_count_files(rows.drop_first())
    }
}

/// Number of report entries that qualify under the perspective.
pub open spec fn spec_count_qualifying(entries: Seq<StatusEntryV>, staged: bool) -> nat
    decreases entries.len(),
{
    if entries.len() == 0 {
        0
    } else {
        (if spec_qualifies(entries[0], staged) {
            1nat
        } else {
            0nat
        }) + spec_count_qualifying(entries.drop_first(), staged)
    }
}

pub proof fn lemma_count_files_add(a: Seq<RowV>, b: Seq<RowV>)
    ensures
        spec_count_files(a + b) == spec_count_files(a) + spec_count_files(b),
    decreases a.len(),
{
    if a.len() == 0 {
        assert(a + b =~= b);
    } else {
        assert((a + b)[0] == a[0]);
        assert((a + b).drop_first() =~= a.drop_first() + b);
        lemma_count_files_add(a.drop_first(), b);
    }
}

/// One perspective emits exactly one file row per qualifying report
/// entry.
proof fn lemma_perspective_file_count(
    entries: Seq<StatusEntryV>,
    staged: bool,
    last_dir: Option<Seq<char>>,
)
    ensures
        spec_count_files(spec_perspective_rows(entries, staged, last_dir))
            == spec_count_qualifying(entries, staged),
    decreases entries.len(),
{
    if entries.len() == 0 {
    } else if !spec_qualifies(entries[0], staged) {
        lemma_perspective_file_count(entries.drop_first(), staged, last_dir);
    } else {
        let p = parent_of(entries[0].path);
        let dir_rows: Seq<RowV> = if last_dir != Some(p) {
            seq![RowV { kind: EntryKindV::Directory(p), path: p }]
        } else {
            Seq::empty()
        };
        let file = seq![spec_status_file_row(entries[0], staged)];
        let tail = spec_perspective_rows(entries.drop_first(), staged, Some(p));
        lemma_perspective_file_count(entries.drop_first(), staged, Some(p));
        lemma_count_files_add(dir_rows + file, tail);
        lemma_count_files_add(dir_rows, file);
        assert(spec_count_files(Seq::<RowV>::empty()) == 0);
        assert(spec_count_files(dir_rows) == 0) by {
            assert(spec_count_files(Seq::<RowV>::empty()) == 0);
            if dir_rows.len() > 0 {
                assert(dir_rows.drop_first() =~= Seq::<RowV>::empty());
                assert(!(dir_rows[0].kind is File));
            }
        }
        assert(spec_count_files(file) == 1) by {
            assert(spec_count_files(Seq::<RowV>::empty()) == 0);
            assert(file.drop_first() =~= Seq::<RowV>::empty());
            assert(file[0].kind is File);
        }
    }
}

proof fn lemma_side_file_count(entries: Seq<StatusEntryV>, staged: bool)
    ensures
        spec_count_files(spec_side_rows(entries, staged)) == spec_count_qualifying(
            entries,
            staged,
        ),
{
    lemma_perspective_file_count(entries, staged, None);
    match spec_first_qualifying(entries, staged) {
        Option::None => {
            assert(spec_count_qualifying(entries, staged) == 0) by {
                lemma_no_first_qualifying(entries, staged);
            }
        },
        Option::Some(e0) => {
            let cat = seq![
                RowV {
                    kind: EntryKindV::Category(
                        if staged {
                            CategoryKind::Staged
                        } else {
                            CategoryKind::Working
                        },
                    ),
                    path: e0.path,
                },
            ];
            lemma_count_files_add(cat, spec_perspective_rows(entries, staged, None));
            assert(spec_count_files(cat) == 0) by {
                assert(spec_count_files(Seq::<RowV>::empty()) == 0);
                assert(cat.drop_first() =~= Seq::<RowV>::empty());
                assert(!(cat[0].kind is File));
            }
        },
    }
}

/// A perspective without a first qualifying entry has no qualifying
/// entries at all.
proof fn lemma_no_first_qualifying(entries: Seq<StatusEntryV>, staged: bool)
    requires
        spec_first_qualifying(entries, staged) is None,
    ensures
        spec_count_qualifying(entries, staged) == 0,
    decreases entries.len(),
{
    if entries.len() > 0 {
        lemma_no_first_qualifying(entries.drop_first(), staged);
    }
}

/// In a status-mode tree the number of file entries equals the
/// number of report entries that qualify under the staged
/// perspective plus the number that qualify under the unstaged one;
/// the two perspectives are counted independently, so an entry
/// qualifying under both contributes two file entries.
pub proof fn lemma_status_tree_file_count(st: GitStatusV)
    ensures
        spec_count_files(spec_status_rows(st)) == spec_count_qualifying(st.entries, true)
            + spec_count_qualifying(st.entries, false),
{
    lemma_count_files_add(spec_side_rows(st.entries, true), spec_side_rows(st.entries, false));
    lemma_side_file_count(st.entries, true);
    lemma_side_file_count(st.entries, false);
}

} // verus!
