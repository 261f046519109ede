//! Boundary to the `unidiff` crate: a diff text becomes a list of per-file
//! records that hold, as plain strings, what the rest of the library reads.

use crate::headers::{
    check_hunk_marks, check_targets, chars_of, hunk_marks_are_headers, parse_safe,
    targets_follow_sources,
};
use crate::records::{views, FileRecord, FileRecordView};
use vstd::prelude::*;

verus! {

/// `unidiff::PatchSet`, a parsed patch; what it holds is read through
/// [`patch_files`].
#[verifier::external_type_specification]
#[verifier::external_body]
pub struct ExPatchSet(unidiff::PatchSet);

/// `unidiff::Error`, the parser's error; [`ParseFault`] takes its place.
#[verifier::external_type_specification]
#[verifier::external_body]
pub struct ExParseError(unidiff::Error);

/// The files that a parsed patch holds, in the order in which the diff text
/// lists them, each with its rendering.
pub uninterp spec fn patch_files(patch: unidiff::PatchSet) -> Seq<FileRecordView>;

/// What parsing `text` yields: the files of the patch, or `None` where the
/// parser rejects the text.
pub uninterp spec fn parsed_patch(text: Seq<char>) -> Option<Seq<FileRecordView>>;

/// Why the parser rejected a text, with the line it stopped at.
#[derive(Debug)]
pub enum ParseFault {
    /// A `+++` header follows another one, with no `---` header between.
    TargetWithoutSource(String),
    /// A hunk header stands before any file.
    UnexpectedHunk(String),
    /// A line of a hunk could not be read.
    ExpectLine(String),
}

/// Why a text is no patch.
#[derive(Debug)]
pub enum PatchError {
    /// A `+++` header stands before any `---` header.
    TargetBeforeSource,
    /// A line opens like a hunk header and is none.
    MalformedHunkHeader,
    /// The parser read the text and rejected it.
    Rejected(ParseFault),
}

impl ParseFault {
    /// What the user is told: the kind of fault and the line.
    pub open spec fn text(self) -> Seq<char> {
        match self {
            ParseFault::TargetWithoutSource(line) => "Target without source: "@ + line@,
            ParseFault::UnexpectedHunk(line) => "Unexpected hunk found: "@ + line@,
            ParseFault::ExpectLine(line) => "Hunk line expected: "@ + line@,
        }
    }

    pub fn message(&self) -> (text: String)
        ensures
            text@ == self.text(),
    {
        match self {
            ParseFault::TargetWithoutSource(line) => String::from_str(
                "Target without source: ",
            ).concat(line.as_str()),
            ParseFault::UnexpectedHunk(line) => String::from_str("Unexpected hunk found: ").concat(
                line.as_str(),
            ),
            ParseFault::ExpectLine(line) => String::from_str("Hunk line expected: ").concat(
                line.as_str(),
            ),
        }
    }
}

impl PatchError {
    /// What the user is told.
    pub open spec fn text(self) -> Seq<char> {
        match self {
            PatchError::TargetBeforeSource => "Target header before any source header"@,
            PatchError::MalformedHunkHeader => "Malformed hunk header"@,
            PatchError::Rejected(fault) => fault.text(),
        }
    }

    pub fn message(&self) -> (text: String)
        ensures
            text@ == self.text(),
    {
        match self {
            PatchError::TargetBeforeSource => String::from_str(
                "Target header before any source header",
            ),
            PatchError::MalformedHunkHeader => String::from_str("Malformed hunk header"),
            PatchError::Rejected(fault) => fault.message(),
        }
    }
}

/// Parses with `PatchSet::from_str`.
///
/// Trusted: the parser panics only where it unwraps the source name at a
/// `+++` header or the numbers of a hunk header, or where it adds such
/// numbers up, and on a text that is [`parse_safe`] none of these fails. It
/// then comes back with the patch that [`parsed_patch`] names for the text,
/// or with an error where it names none.
#[verifier::external_body]
fn parse_patch(text: &str) -> (parsed: Result<unidiff::PatchSet, unidiff::Error>)
    requires
        parse_safe(text@),
    ensures
        match parsed {
            Ok(patch) => parsed_patch(text@) == Some(patch_files(patch)),
            Err(_) => parsed_patch(text@) is None,
        },
{
    <unidiff::PatchSet as std::str::FromStr>::from_str(text)
}

/// Tells the variants of `unidiff::Error` apart, keeping the line each holds.
#[verifier::external_body]
fn fault_of(error: unidiff::Error) -> ParseFault {
    match error {
        unidiff::Error::TargetWithoutSource(line) => ParseFault::TargetWithoutSource(line),
        unidiff::Error::UnexpectedHunk(line) => ParseFault::UnexpectedHunk(line),
        unidiff::Error::ExpectLine(line) => ParseFault::ExpectLine(line),
    }
}

/// `PatchSet::len`.
///
/// Trusted: it is the number of files that [`patch_files`] names.
#[verifier::external_body]
fn file_count(patch: &unidiff::PatchSet) -> (count: usize)
    ensures
        count == patch_files(*patch).len(),
{
    patch.len()
}

/// Hands out the file at `index` of `PatchSet::files`: its two path fields
/// and its rendering by `to_string`.
///
/// Trusted: these are what [`patch_files`] names at that index.
#[verifier::external_body]
fn file_record(patch: &unidiff::PatchSet, index: usize) -> (record: FileRecord)
    requires
        index < patch_files(*patch).len(),
    ensures
        record@ == patch_files(*patch)[index as int],
{
    let file = &patch.files()[index];
    FileRecord {
        source_file: file.source_file.clone(),
        target_file: file.target_file.clone(),
        fragment: file.to_string(),
    }
}

/// Parses a diff text into its file records, in the order of the text.
///
/// A text that is not [`parse_safe`] is refused before the parser sees it.
pub fn parse_records(text: &str) -> (parsed: Result<Vec<FileRecord>, PatchError>)
    ensures
        match parsed {
            Ok(records) => parse_safe(text@) && parsed_patch(text@) == Some(views(records@)),
            Err(PatchError::TargetBeforeSource) => !targets_follow_sources(text@),
            Err(PatchError::MalformedHunkHeader) => targets_follow_sources(text@)
                && !hunk_marks_are_headers(text@),
            Err(PatchError::Rejected(_)) => parse_safe(text@) && parsed_patch(text@) is None,
        },
{
    let chars = chars_of(text);
    if !check_targets(&chars) {
        return Err(PatchError::TargetBeforeSource);
    }
    if !check_hunk_marks(&chars) {
        return Err(PatchError::MalformedHunkHeader);
    }
    match parse_patch(text) {
        Err(error) => Err(PatchError::Rejected(fault_of(error))),
        Ok(patch) => {
            let count = file_count(&patch);
            let mut records: Vec<FileRecord> = Vec::new();
            let mut i: usize = 0;
            while i < count
                invariant
                    i <= count,
                    count == patch_files(patch).len(),
                    records.len() == i,
                    forall|k: int| 0 <= k < i ==> (#[trigger] records[k])@ == patch_files(patch)[k],
                decreases count - i,
            {
                let record = file_record(&patch, i);
                records.push(record);
                i = i + 1;
            }
            assert(views(records@) =~= patch_files(patch));
            Ok(records)
        },
    }
}

} // verus!
