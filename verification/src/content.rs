//! Content resolution: given where one side of a comparison gets its
//! bytes from, decide what the application must do to obtain them —
//! nothing at all, a read of the live file, or one blob fetch — and
//! with exactly which arguments.

use vstd::prelude::*;

use crate::commands::{cat_file_args, spec_all_ascii, spec_cat_file_args};
use crate::model::spec_hash_is_zero;
use crate::workspace::{FileSource, FileSourceV};

verus! {

/// What the application must do to obtain one side's bytes.
#[derive(Debug)]
pub enum ContentRequest {
    /// The content is already in hand; run nothing.
    Ready(String),
    /// Read the live file at this path, verbatim.
    ReadWorkingFile(String),
    /// Run the tool with these arguments and take its output.
    RunCatFile(Vec<String>),
}

/// Mathematical form of a [`ContentRequest`].
#[verifier::ext_equal]
pub enum ContentRequestV {
    Ready(Seq<char>),
    ReadWorkingFile(Seq<char>),
    RunCatFile(Seq<Seq<char>>),
}

impl View for ContentRequest {
    type V = ContentRequestV;

    open spec fn view(&self) -> ContentRequestV {
        match self {
            ContentRequest::Ready(s) => ContentRequestV::Ready(s@),
            ContentRequest::ReadWorkingFile(p) => ContentRequestV::ReadWorkingFile(p@),
            ContentRequest::RunCatFile(args) => ContentRequestV::RunCatFile(args.deep_view()),
        }
    }
}

/// The hash a source fetches by, if it fetches a stored object.
pub open spec fn spec_source_hash(source: FileSourceV) -> Option<Seq<u8>> {
    match source {
        FileSourceV::Index(h) => Some(h),
        FileSourceV::Head(h) => Some(h),
        FileSourceV::Commit(h) => Some(h),
        FileSourceV::Empty => None,
        FileSourceV::Working => None,
    }
}

/// Resolves comparison sides to content requests. It owns no state
/// and performs no I/O: repeated calls on the same inputs yield the
/// same request.
pub struct ContentResolver {}

impl ContentResolver {
    /// Decides where one side of a comparison gets its bytes: an
    /// empty source, or a stored object under the all-zero sentinel
    /// hash, is zero-length content with nothing to run; the working
    /// tree is a verbatim read of the live file; any other stored
    /// object is one blob fetch with the exact `cat-file` arguments.
    pub fn resolve(source: &FileSource, path: &str) -> (r: ContentRequest)
        ensures
            source@ is Empty ==> r@ == ContentRequestV::Ready(Seq::<char>::empty()),
            source@ is Working ==> r@ == ContentRequestV::ReadWorkingFile(path@),
            spec_source_hash(source@) matches Some(h) ==> {
                if spec_hash_is_zero(h) {
                    r@ == ContentRequestV::Ready(Seq::<char>::empty())
                } else {
                    r@ matches ContentRequestV::RunCatFile(args) && args.len() == 4 && args[0]
                        == "cat-file"@ && args[1] == "--filters"@ && args[2] == "--path="@ + path@
                        && (spec_all_ascii(h) ==> args == spec_cat_file_args(path@, h))
                }
            },
    {
        match source {
            FileSource::Empty => ContentRequest::Ready(String::new()),
            FileSource::Working => ContentRequest::ReadWorkingFile(path.to_owned()),
            FileSource::Index(hash) | FileSource::Head(hash) | FileSource::Commit(hash) => {
                if hash.is_zero() {
                    ContentRequest::Ready(String::new())
                } else {
                    ContentRequest::RunCatFile(cat_file_args(path, hash))
                }
            },
        }
    }
}

} // verus!
