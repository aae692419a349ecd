//! The exact command lines of every repository operation. The
//! surrounding application passes each argument list, unchanged, to
//! the version-control tool as one blocking subprocess invocation;
//! the argument lists themselves are part of the library's contract.

use vstd::prelude::*;

use crate::model::{DiffOptions, DiffOptionsV, Sha1Hash};

verus! {

/// The characters of a byte sequence that holds only ASCII codes.
pub open spec fn ascii_chars_of(bytes: Seq<u8>) -> Seq<char> {
    bytes.map(|i: int, b: u8| b as char)
}

/// Every byte is an ASCII code.
pub open spec fn spec_all_ascii(bytes: Seq<u8>) -> bool {
    forall|i: int| 0 <= i < bytes.len() ==> bytes[i] < 128
}

/// Relies on std's `String::from_utf8_lossy`: bytes below 128 are
/// valid text and decode to the characters with the same code
/// points.
#[verifier::external_body]
fn ascii_string(bytes: &[u8]) -> (r: String)
    ensures
        spec_all_ascii(bytes@) ==> r@ == ascii_chars_of(bytes@),
{
    String::from_utf8_lossy(bytes).into_owned()
}

/// The arguments of the status query: machine-readable porcelain,
/// branch headers, submodules ignored.
pub open spec fn spec_status_args() -> Seq<Seq<char>> {
    seq!["status"@, "--ignore-submodules=all"@, "--branch"@, "--porcelain=v2"@, "--"@]
}

pub fn status_args() -> (r: Vec<String>)
    ensures
        r.deep_view() == spec_status_args(),
{
    let mut v: Vec<String> = Vec::new();
    v.push(String::from_str("status"));
    v.push(String::from_str("--ignore-submodules=all"));
    v.push(String::from_str("--branch"));
    v.push(String::from_str("--porcelain=v2"));
    v.push(String::from_str("--"));
    proof {
        assert(v.deep_view() =~= spec_status_args());
    }
    v
}

/// The arguments of a raw diff query: full-length hashes, the raw
/// per-file format, then the optional merge-base and cached
/// selectors and the optional commit reference, in that order.
pub open spec fn spec_diff_args(o: DiffOptionsV) -> Seq<Seq<char>> {
    let base = seq!["diff"@, "--abbrev=40"@, "--raw"@];
    let with_merge_base = if o.merge_base {
        base.push("--merge-base"@)
    } else {
        base
    };
    let with_cached = if o.cached {
        with_merge_base.push("--cached"@)
    } else {
        with_merge_base
    };
    match o.commit {
        Some(c) => with_cached.push(c),
        None => with_cached,
    }
}

pub fn diff_args(options: &DiffOptions) -> (r: Vec<String>)
    ensures
        r.deep_view() == spec_diff_args(options@),
{
    let mut v: Vec<String> = Vec::new();
    v.push(String::from_str("diff"));
    v.push(String::from_str("--abbrev=40"));
    v.push(String::from_str("--raw"));
    proof {
        assert(v.deep_view() =~= seq!["diff"@, "--abbrev=40"@, "--raw"@]);
    }
    let ghost base = v.deep_view();
    if options.merge_base {
        v.push(String::from_str("--merge-base"));
        proof {
            assert(v.deep_view() =~= base.push("--merge-base"@));
        }
    }
    let ghost with_merge_base = v.deep_view();
    if options.cached {
        v.push(String::from_str("--cached"));
        proof {
            assert(v.deep_view() =~= with_merge_base.push("--cached"@));
        }
    }
    let ghost with_cached = v.deep_view();
    match &options.commit {
        Some(c) => {
            v.push(c.clone());
            proof {
                assert(v.deep_view() =~= with_cached.push(c@));
            }
        },
        None => {},
    }
    v
}

/// The arguments of a per-commit show query: full-length hashes,
/// the raw per-file format, and the commit reference.
pub open spec fn spec_show_args(commit: Seq<char>) -> Seq<Seq<char>> {
    seq!["show"@, "--abbrev=40"@, "--raw"@, commit]
}

pub fn show_args(commit: &str) -> (r: Vec<String>)
    ensures
        r.deep_view() == spec_show_args(commit@),
{
    let mut v: Vec<String> = Vec::new();
    v.push(String::from_str("show"));
    v.push(String::from_str("--abbrev=40"));
    v.push(String::from_str("--raw"));
    v.push(commit.to_owned());
    proof {
        assert(v.deep_view() =~= spec_show_args(commit@));
    }
    v
}

/// The arguments that fetch one stored blob with filters applied:
/// the path the filters are chosen by, then the object hash.
pub open spec fn spec_cat_file_args(path: Seq<char>, hash: Seq<u8>) -> Seq<Seq<char>> {
    seq!["cat-file"@, "--filters"@, "--path="@ + path, ascii_chars_of(hash)]
}

pub fn cat_file_args(path: &str, hash: &Sha1Hash) -> (r: Vec<String>)
    ensures
        r.deep_view().len() == 4,
        r.deep_view()[0] == "cat-file"@,
        r.deep_view()[1] == "--filters"@,
        r.deep_view()[2] == "--path="@ + path@,
        spec_all_ascii(hash@) ==> r.deep_view() == spec_cat_file_args(path@, hash@),
{
    let mut v: Vec<String> = Vec::new();
    v.push(String::from_str("cat-file"));
    v.push(String::from_str("--filters"));
    let mut path_arg = String::from_str("--path=");
    path_arg.append(path);
    v.push(path_arg);
    v.push(ascii_string(hash.as_bytes()));
    proof {
        if spec_all_ascii(hash@) {
            assert(v.deep_view() =~= spec_cat_file_args(path@, hash@));
        }
    }
    v
}

/// The arguments that stage one path in the index.
pub open spec fn spec_stage_args(path: Seq<char>) -> Seq<Seq<char>> {
    seq!["add"@, "--"@, path]
}

pub fn stage_args(path: &str) -> (r: Vec<String>)
    ensures
        r.deep_view() == spec_stage_args(path@),
{
    let mut v: Vec<String> = Vec::new();
    v.push(String::from_str("add"));
    v.push(String::from_str("--"));
    v.push(path.to_owned());
    proof {
        assert(v.deep_view() =~= spec_stage_args(path@));
    }
    v
}

/// The arguments that unstage one path: the index entry is restored
/// from the last commit.
pub open spec fn spec_unstage_args(path: Seq<char>) -> Seq<Seq<char>> {
    seq!["restore"@, "--staged"@, "--"@, path]
}

pub fn unstage_args(path: &str) -> (r: Vec<String>)
    ensures
        r.deep_view() == spec_unstage_args(path@),
{
    let mut v: Vec<String> = Vec::new();
    v.push(String::from_str("restore"));
    v.push(String::from_str("--staged"));
    v.push(String::from_str("--"));
    v.push(path.to_owned());
    proof {
        assert(v.deep_view() =~= spec_unstage_args(path@));
    }
    v
}

} // verus!
