//! Pure parsers for the three textual report formats: the porcelain
//! status report, the raw diff report, and the per-commit show
//! report. Each parser is a function from text to a structured
//! record, pinned to a spec-level grammar; no parser touches the
//! filesystem or any other state.
//!
//! Paths are kept exactly as the reports write them: resolving them
//! against the filesystem is deferred to the moment content is
//! actually fetched, so an entry for a deleted file parses like any
//! other. Rename lines and their confidence scores are not decoded;
//! a line that announces a rename passes through the status grammar
//! as one more unrecognized line, an acknowledged gap rather than an
//! oversight.

use vstd::prelude::*;
use vstd::utf8::encode_utf8;

use crate::model::{
    entry_status_of_byte, file_status_of_char, result_view, views_of, EntryStatus, FileStatus,
    GitDiff, GitDiffV, GitError, GitShow, GitShowV, GitStatus, GitStatusV, Sha1Hash, ShowEntry,
    ShowEntryV, StatusEntry, StatusEntryV,
};
use crate::text::{spec_lines, spec_starts_with, spec_tokens, split_lines, starts_with, tokens};

verus! {

/// One ordinary change line of the status report, decoded from its
/// whitespace-delimited fields: the two status letters, then the
/// skipped submodule and file-mode fields, the two object hashes
/// (exactly forty bytes each), and the path field.
pub open spec fn spec_parse_status_line(line: Seq<char>) -> Result<StatusEntryV, GitError> {
    let toks = spec_tokens(line);
    if toks.len() < 9 {
        Err(GitError::Format)
    } else {
        let xb = encode_utf8(toks[1]);
        if xb.len() < 2 {
            Err(GitError::Format)
        } else {
            match (entry_status_of_byte(xb[0]), entry_status_of_byte(xb[1])) {
                (Some(staged), Some(unstaged)) => {
                    let hb = encode_utf8(toks[6]);
                    let ib = encode_utf8(toks[7]);
                    if hb.len() != 40 || ib.len() != 40 {
                        Err(GitError::Format)
                    } else {
                        Ok(
                            StatusEntryV {
                                staged_status: staged,
                                unstaged_status: unstaged,
                                head_sha1: hb,
                                index_sha1: ib,
                                path: toks[8],
                            },
                        )
                    }
                },
                _ => Err(GitError::Format),
            }
        }
    }
}

/// How one line of the status report changes the accumulated record:
/// the three branch headers each overwrite their field, a change line
/// appends an entry or fails, and any other line is ignored.
pub open spec fn spec_status_step(acc: GitStatusV, line: Seq<char>) -> Result<
    GitStatusV,
    GitError,
> {
    if spec_starts_with(line, "# branch.oid "@) {
        Ok(GitStatusV { branch_oid: line.skip("# branch.oid "@.len() as int), ..acc })
    } else if spec_starts_with(line, "# branch.head "@) {
        Ok(GitStatusV { branch_head: line.skip("# branch.head "@.len() as int), ..acc })
    } else if spec_starts_with(line, "# branch.upstream "@) {
        Ok(GitStatusV { branch_upstream: line.skip("# branch.upstream "@.len() as int), ..acc })
    } else if spec_starts_with(line, "1 "@) {
        match spec_parse_status_line(line) {
            Ok(e) => Ok(GitStatusV { entries: acc.entries.push(e), ..acc }),
            Err(e) => Err(e),
        }
    } else {
        Ok(acc)
    }
}

pub open spec fn spec_parse_status_from(lines: Seq<Seq<char>>, acc: GitStatusV) -> Result<
    GitStatusV,
    GitError,
>
    decreases lines.len(),
{
    if lines.len() == 0 {
        Ok(acc)
    } else {
        match spec_status_step(acc, lines[0]) {
            Ok(a) => spec_parse_status_from(lines.drop_first(), a),
            Err(e) => Err(e),
        }
    }
}

/// The empty record the status parser starts from.
pub open spec fn spec_status_init() -> GitStatusV {
    GitStatusV {
        branch_oid: Seq::empty(),
        branch_head: Seq::empty(),
        branch_upstream: Seq::empty(),
        entries: Seq::empty(),
    }
}

/// The structured record a status report text denotes: its lines
/// folded over [`spec_status_step`] from the empty record.
pub open spec fn spec_parse_status(text: Seq<char>) -> Result<GitStatusV, GitError> {
    spec_parse_status_from(spec_lines(text), spec_status_init())
}

/// Decodes one ordinary change line of the status report.
fn parse_status_entry(line: &str) -> (r: Result<StatusEntry, GitError>)
    ensures
        result_view(r) == spec_parse_status_line(line@),
{
    let toks = tokens(line);
    let ghost tv = spec_tokens(line@);
    if toks.len() < 9 {
        return Err(GitError::Format);
    }
    proof {
        assert(toks@[1]@ == tv[1]);
        assert(toks@[6]@ == tv[6]);
        assert(toks@[7]@ == tv[7]);
        assert(toks@[8]@ == tv[8]);
    }
    let xb = toks[1].as_str().as_bytes();
    if xb.len() < 2 {
        return Err(GitError::Format);
    }
    let staged = match EntryStatus::from_u8(&xb[0]) {
        Ok(s) => s,
        Err(e) => {
            return Err(e);
        },
    };
    let unstaged = match EntryStatus::from_u8(&xb[1]) {
        Ok(s) => s,
        Err(e) => {
            return Err(e);
        },
    };
    let hb = toks[6].as_str().as_bytes();
    let ib = toks[7].as_str().as_bytes();
    if hb.len() != 40 || ib.len() != 40 {
        return Err(GitError::Format);
    }
    let head_sha1 = Sha1Hash::from_bytes(hb);
    let index_sha1 = Sha1Hash::from_bytes(ib);
    let path = toks[8].clone();
    Ok(StatusEntry { staged_status: staged, unstaged_status: unstaged, head_sha1, index_sha1, path })
}

/// The record the running status parser has accumulated so far.
pub open spec fn status_acc_view(
    oid: Seq<char>,
    head: Seq<char>,
    upstream: Seq<char>,
    entries: Seq<StatusEntryV>,
) -> GitStatusV {
    GitStatusV {
        branch_oid: oid,
        branch_head: head,
        branch_upstream: upstream,
        entries: entries,
    }
}

/// Parsing the status report is deterministic: the text alone fixes
/// the structured record, so any two parses of identical input are
/// identical, field for field. `parse_status` returns exactly
/// `spec_parse_status` of its input, to which this applies.
pub proof fn lemma_parse_status_deterministic(
    text: Seq<char>,
    first: Result<GitStatusV, GitError>,
    second: Result<GitStatusV, GitError>,
)
    requires
        first == spec_parse_status(text),
        second == spec_parse_status(text),
    ensures
        first == second,
{
}

/// Parses the porcelain status report. The result is exactly the
/// record [`spec_parse_status`] assigns to the text: the branch
/// headers fill the branch fields, each well-formed change line adds
/// one entry in report order, a malformed change line is a
/// `Format` error, and unrecognized lines are ignored.
pub fn parse_status(status: &str) -> (r: Result<GitStatus, GitError>)
    ensures
        result_view(r) == spec_parse_status(status@),
{
    let lines = split_lines(status);
    let ghost all = spec_lines(status@);
    let mut branch_oid = String::new();
    let mut branch_head = String::new();
    let mut branch_upstream = String::new();
    let mut entries: Vec<StatusEntry> = Vec::new();
    let n = lines.len();
    let mut i: usize = 0;
    proof {
        assert(all.skip(0) =~= all);
        assert(status_acc_view(branch_oid@, branch_head@, branch_upstream@, views_of(entries@))
            =~= spec_status_init());
    }
    while i < n
        invariant
            i <= n,
            n == lines@.len(),
            lines.deep_view() == all,
            spec_parse_status(status@) == spec_parse_status_from(
                all.skip(i as int),
                status_acc_view(branch_oid@, branch_head@, branch_upstream@, views_of(entries@)),
            ),
        decreases n - i,
    {
        let ghost acc = status_acc_view(
            branch_oid@,
            branch_head@,
            branch_upstream@,
            views_of(entries@),
        );
        let ghost rest = all.skip(i as int);
        proof {
            assert(rest[0] == lines.deep_view()[i as int]);
            assert(rest.drop_first() =~= all.skip(i as int + 1));
        }
        let line = &lines[i];
        if starts_with(line.as_str(), "# branch.oid ") {
            proof {
                reveal_strlit("# branch.oid ");
            }
            branch_oid = line.as_str().substring_char(13, line.as_str().unicode_len()).to_owned();
            proof {
                assert(branch_oid@ =~= line@.skip(13));
            }
        } else if starts_with(line.as_str(), "# branch.head ") {
            proof {
                reveal_strlit("# branch.head ");
            }
            branch_head = line.as_str().substring_char(14, line.as_str().unicode_len()).to_owned();
            proof {
                assert(branch_head@ =~= line@.skip(14));
            }
        } else if starts_with(line.as_str(), "# branch.upstream ") {
            proof {
                reveal_strlit("# branch.upstream ");
            }
            branch_upstream = line.as_str().substring_char(
                18,
                line.as_str().unicode_len(),
            ).to_owned();
            proof {
                assert(branch_upstream@ =~= line@.skip(18));
            }
        } else if starts_with(line.as_str(), "1 ") {
            match parse_status_entry(line.as_str()) {
                Ok(e) => {
                    entries.push(e);
                    proof {
                        assert(views_of(entries@) =~= acc.entries.push(entries@.last()@));
                    }
                },
                Err(e) => {
                    proof {
                        assert(spec_status_step(acc, rest[0]) == Err::<GitStatusV, GitError>(e));
                    }
                    return Err(e);
                },
            }
        }
        proof {
            let stepped = status_acc_view(
                branch_oid@,
                branch_head@,
                branch_upstream@,
                views_of(entries@),
            );
            assert(spec_status_step(acc, rest[0]) == Ok::<GitStatusV, GitError>(stepped));
        }
        i += 1;
    }
    proof {
        assert(all.skip(n as int) =~= Seq::<Seq<char>>::empty());
    }
    let r = GitStatus { branch_oid, branch_head, branch_upstream, entries };
    proof {
        assert(r@ =~= status_acc_view(
            r.branch_oid@,
            r.branch_head@,
            r.branch_upstream@,
            views_of(r.entries@),
        ));
    }
    Ok(r)
}

/// One change line of a raw diff/show report, decoded from the
/// fields after the leading colon: the two skipped file-mode fields,
/// the two object hashes (exactly forty bytes each), the
/// single-character status code, and the path field.
pub open spec fn spec_parse_show_line(line: Seq<char>) -> Result<ShowEntryV, GitError> {
    if line.len() == 0 || line[0] != ':' {
        Err(GitError::Format)
    } else {
        let toks = spec_tokens(line.skip(1));
        if toks.len() < 6 {
            Err(GitError::Format)
        } else {
            let lb = encode_utf8(toks[2]);
            let rb = encode_utf8(toks[3]);
            if lb.len() != 40 || rb.len() != 40 {
                Err(GitError::Format)
            } else if toks[4].len() != 1 {
                Err(GitError::Format)
            } else {
                match file_status_of_char(toks[4][0]) {
                    Some(status) => Ok(
                        ShowEntryV {
                            left_status: EntryStatus::Unchanged,
                            right_status: EntryStatus::Unchanged,
                            left_sha1: lb,
                            right_sha1: rb,
                            path: toks[5],
                            status: status,
                        },
                    ),
                    None => Err(GitError::Format),
                }
            }
        }
    }
}

impl ShowEntry {
    /// Decodes one change line of a raw diff/show report, exactly as
    /// [`spec_parse_show_line`] describes. A line without the leading
    /// colon, with a missing field, a wrong-length hash or an
    /// unrecognized status code is a `Format` error, never a panic.
    pub fn from_line(line: &str) -> (r: Result<ShowEntry, GitError>)
        ensures
            result_view(r) == spec_parse_show_line(line@),
    {
        let n = line.unicode_len();
        if n == 0 || line.get_char(0) != ':' {
            return Err(GitError::Format);
        }
        let rest = line.substring_char(1, n);
        proof {
            assert(rest@ =~= line@.skip(1));
        }
        let toks = tokens(rest);
        let ghost tv = spec_tokens(line@.skip(1));
        if toks.len() < 6 {
            return Err(GitError::Format);
        }
        proof {
            assert(toks@[2]@ == tv[2]);
            assert(toks@[3]@ == tv[3]);
            assert(toks@[4]@ == tv[4]);
            assert(toks@[5]@ == tv[5]);
        }
        let lb = toks[2].as_str().as_bytes();
        let rb = toks[3].as_str().as_bytes();
        if lb.len() != 40 || rb.len() != 40 {
            return Err(GitError::Format);
        }
        let left_sha1 = Sha1Hash::from_bytes(lb);
        let right_sha1 = Sha1Hash::from_bytes(rb);
        let status = match FileStatus::from_str(toks[4].as_str()) {
            Ok(s) => s,
            Err(e) => {
                return Err(e);
            },
        };
        let path = toks[5].clone();
        Ok(
            ShowEntry {
                left_status: EntryStatus::Unchanged,
                right_status: EntryStatus::Unchanged,
                left_sha1,
                right_sha1,
                path,
                status,
            },
        )
    }
}

/// How one line of a show report changes the accumulated record: a
/// change line appends an entry or fails, any other line is
/// concatenated onto the description.
pub open spec fn spec_show_step(acc: GitShowV, line: Seq<char>) -> Result<GitShowV, GitError> {
    if line.len() == 0 || line[0] != ':' {
        Ok(GitShowV { description: acc.description + line, ..acc })
    } else {
        match spec_parse_show_line(line) {
            Ok(e) => Ok(GitShowV { entries: acc.entries.push(e), ..acc }),
            Err(e) => Err(e),
        }
    }
}

pub open spec fn spec_parse_show_from(lines: Seq<Seq<char>>, acc: GitShowV) -> Result<
    GitShowV,
    GitError,
>
    decreases lines.len(),
{
    if lines.len() == 0 {
        Ok(acc)
    } else {
        match spec_show_step(acc, lines[0]) {
            Ok(a) => spec_parse_show_from(lines.drop_first(), a),
            Err(e) => Err(e),
        }
    }
}

/// The structured record a show report text denotes.
pub open spec fn spec_parse_show(text: Seq<char>) -> Result<GitShowV, GitError> {
    spec_parse_show_from(
        spec_lines(text),
        GitShowV { description: Seq::empty(), entries: Seq::empty() },
    )
}

/// Parses a per-commit show report: every line that starts with a
/// colon becomes one entry, in report order, and all other lines are
/// concatenated, unseparated, into the free-text description.
pub fn parse_show(text: &str) -> (r: Result<GitShow, GitError>)
    ensures
        result_view(r) == spec_parse_show(text@),
{
    let lines = split_lines(text);
    let ghost all = spec_lines(text@);
    let mut description = String::new();
    let mut entries: Vec<ShowEntry> = Vec::new();
    let n = lines.len();
    let mut i: usize = 0;
    proof {
        assert(all.skip(0) =~= all);
        assert(GitShowV { description: description@, entries: views_of(entries@) } =~= GitShowV {
            description: Seq::empty(),
            entries: Seq::empty(),
        });
    }
    while i < n
        invariant
            i <= n,
            n == lines@.len(),
            lines.deep_view() == all,
            spec_parse_show(text@) == spec_parse_show_from(
                all.skip(i as int),
                GitShowV { description: description@, entries: views_of(entries@) },
            ),
        decreases n - i,
    {
        let ghost acc = GitShowV { description: description@, entries: views_of(entries@) };
        let ghost rest = all.skip(i as int);
        proof {
            assert(rest[0] == lines.deep_view()[i as int]);
            assert(rest.drop_first() =~= all.skip(i as int + 1));
        }
        let line = &lines[i];
        let ln = line.as_str().unicode_len();
        if ln == 0 || line.as_str().get_char(0) != ':' {
            description.append(line.as_str());
        } else {
            match ShowEntry::from_line(line.as_str()) {
                Ok(e) => {
                    entries.push(e);
                    proof {
                        assert(views_of(entries@) =~= acc.entries.push(entries@.last()@));
                    }
                },
                Err(e) => {
                    proof {
                        assert(spec_show_step(acc, rest[0]) == Err::<GitShowV, GitError>(e));
                    }
                    return Err(e);
                },
            }
        }
        proof {
            let stepped = GitShowV { description: description@, entries: views_of(entries@) };
            assert(spec_show_step(acc, rest[0]) == Ok::<GitShowV, GitError>(stepped));
        }
        i += 1;
    }
    proof {
        assert(all.skip(n as int) =~= Seq::<Seq<char>>::empty());
    }
    let r = GitShow { description, entries };
    proof {
        assert(r@ =~= GitShowV { description: r.description@, entries: views_of(r.entries@) });
    }
    Ok(r)
}

pub open spec fn spec_parse_diff_from(lines: Seq<Seq<char>>, acc: Seq<ShowEntryV>) -> Result<
    GitDiffV,
    GitError,
>
    decreases lines.len(),
{
    if lines.len() == 0 {
        Ok(GitDiffV { entries: acc })
    } else {
        match spec_parse_show_line(lines[0]) {
            Ok(e) => spec_parse_diff_from(lines.drop_first(), acc.push(e)),
            Err(e) => Err(e),
        }
    }
}

/// The structured record a raw diff report text denotes: every line
/// must be a well-formed change line.
pub open spec fn spec_parse_diff(text: Seq<char>) -> Result<GitDiffV, GitError> {
    spec_parse_diff_from(spec_lines(text), Seq::empty())
}

/// Parses a raw diff report: one entry per line, in report order;
/// any malformed line fails the whole parse.
pub fn parse_diff(text: &str) -> (r: Result<GitDiff, GitError>)
    ensures
        result_view(r) == spec_parse_diff(text@),
{
    let lines = split_lines(text);
    let ghost all = spec_lines(text@);
    let mut entries: Vec<ShowEntry> = Vec::new();
    let n = lines.len();
    let mut i: usize = 0;
    proof {
        assert(all.skip(0) =~= all);
        assert(views_of(entries@) =~= Seq::<ShowEntryV>::empty());
    }
    while i < n
        invariant
            i <= n,
            n == lines@.len(),
            lines.deep_view() == all,
            spec_parse_diff(text@) == spec_parse_diff_from(all.skip(i as int), views_of(entries@)),
        decreases n - i,
    {
        let ghost acc = views_of(entries@);
        let ghost rest = all.skip(i as int);
        proof {
            assert(rest[0] == lines.deep_view()[i as int]);
            assert(rest.drop_first() =~= all.skip(i as int + 1));
        }
        match ShowEntry::from_line(lines[i].as_str()) {
            Ok(e) => {
                entries.push(e);
                proof {
                    assert(views_of(entries@) =~= acc.push(entries@.last()@));
                }
            },
            Err(e) => {
                return Err(e);
            },
        }
        i += 1;
    }
    proof {
        assert(all.skip(n as int) =~= Seq::<Seq<char>>::empty());
    }
    let r = GitDiff { entries };
    proof {
        assert(r@ =~= GitDiffV { entries: views_of(r.entries@) });
    }
    Ok(r)
}

} // verus!
