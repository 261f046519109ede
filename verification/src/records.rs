//! The records of a patch and the path pairs by which the user picks them.

use vstd::prelude::*;

verus! {

/// One file's entry in a patch: the two paths that identify it and the diff
/// text it is rendered back to.
#[derive(Debug)]
pub struct FileRecord {
    pub source_file: String,
    pub target_file: String,
    pub fragment: String,
}

/// A [`FileRecord`] as plain sequences of characters.
pub struct FileRecordView {
    pub source_file: Seq<char>,
    pub target_file: Seq<char>,
    pub fragment: Seq<char>,
}

impl View for FileRecord {
    type V = FileRecordView;

    open spec fn view(&self) -> FileRecordView {
        FileRecordView {
            source_file: self.source_file@,
            target_file: self.target_file@,
            fragment: self.fragment@,
        }
    }
}

/// The views of `records`, in order.
pub open spec fn views(records: Seq<FileRecord>) -> Seq<FileRecordView> {
    records.map_values(|record: FileRecord| record@)
}

/// The pair of paths under which a file is offered to the user.
#[derive(Debug)]
pub struct DiffFile {
    pub source_file: String,
    pub target_file: String,
}

/// A [`DiffFile`] as plain sequences of characters.
pub struct DiffFileView {
    pub source_file: Seq<char>,
    pub target_file: Seq<char>,
}

impl View for DiffFile {
    type V = DiffFileView;

    open spec fn view(&self) -> DiffFileView {
        DiffFileView { source_file: self.source_file@, target_file: self.target_file@ }
    }
}

/// The views of `files`, in order.
pub open spec fn file_views(files: Seq<DiffFile>) -> Seq<DiffFileView> {
    files.map_values(|file: DiffFile| file@)
}

/// `file` stands for `record`: both paths are the same.
pub open spec fn names(file: DiffFileView, record: FileRecordView) -> bool {
    file.source_file == record.source_file && file.target_file == record.target_file
}

/// The path pair of `record`.
pub open spec fn paths_of(record: FileRecordView) -> DiffFileView {
    DiffFileView { source_file: record.source_file, target_file: record.target_file }
}

/// The text under which a file is listed: `source -> target`.
pub open spec fn label_of(file: DiffFileView) -> Seq<char> {
    file.source_file + seq![' ', '-', '>', ' '] + file.target_file
}

/// `i` is the first place in `records` that `file` stands for.
pub open spec fn is_first_named(records: Seq<FileRecordView>, file: DiffFileView, i: int) -> bool {
    &&& 0 <= i < records.len()
    &&& names(file, records[i])
    &&& forall|j: int| 0 <= j < i ==> !names(file, #[trigger] records[j])
}

/// `file` stands for one of `records`.
pub open spec fn offers(records: Seq<FileRecordView>, file: DiffFileView) -> bool {
    exists|i: int| 0 <= i < records.len() && names(file, #[trigger] records[i])
}

/// Each of `kept` stands for one of `records`.
pub open spec fn offers_all(records: Seq<FileRecordView>, kept: Seq<DiffFileView>) -> bool {
    forall|k: int| 0 <= k < kept.len() ==> offers(records, #[trigger] kept[k])
}

/// The first place in `records` that `file` stands for.
pub open spec fn position(records: Seq<FileRecordView>, file: DiffFileView) -> int {
    choose|i: int| is_first_named(records, file, i)
}

/// The records that `kept` picks out of `records`, in the order of `kept`.
/// Of two records with the same paths the first is taken.
pub open spec fn kept_records(records: Seq<FileRecordView>, kept: Seq<DiffFileView>) -> Seq<
    FileRecordView,
> {
    Seq::new(kept.len(), |k: int| records[position(records, kept[k])])
}

/// The fragments of `records`, in order.
pub open spec fn fragments(records: Seq<FileRecordView>) -> Seq<Seq<char>> {
    Seq::new(records.len(), |k: int| records[k].fragment)
}

/// The diff text of `records`: their fragments one after the other, with
/// nothing between them.
pub open spec fn joined(records: Seq<FileRecordView>) -> Seq<char> {
    fragments(records).flatten()
}

/// At most one place is the first that `file` stands for.
pub proof fn first_named_is_unique(
    records: Seq<FileRecordView>,
    file: DiffFileView,
    i: int,
    j: int,
)
    requires
        is_first_named(records, file, i),
        is_first_named(records, file, j),
    ensures
        i == j,
{
    if i < j {
        assert(!names(file, records[i]));
    } else if j < i {
        assert(!names(file, records[j]));
    }
}

/// A file that stands for the record at `i` has a first place among the
/// records.
pub proof fn named_record_has_a_first_place(
    records: Seq<FileRecordView>,
    file: DiffFileView,
    i: int,
)
    requires
        0 <= i < records.len(),
        names(file, records[i]),
    ensures
        is_first_named(records, file, position(records, file)),
        position(records, file) <= i,
    decreases i,
{
    if exists|j: int| 0 <= j < i && names(file, #[trigger] records[j]) {
        let j = choose|j: int| 0 <= j < i && names(file, #[trigger] records[j]);
        named_record_has_a_first_place(records, file, j);
    } else {
        assert(is_first_named(records, file, i));
        first_named_is_unique(records, file, i, position(records, file));
    }
}

/// What is picked for an offered file is one of the records, and the file
/// stands for it.
pub proof fn kept_records_are_offered(
    records: Seq<FileRecordView>,
    kept: Seq<DiffFileView>,
    k: int,
)
    requires
        offers_all(records, kept),
        0 <= k < kept.len(),
    ensures
        0 <= position(records, kept[k]) < records.len(),
        kept_records(records, kept)[k] == records[position(records, kept[k])],
        names(kept[k], kept_records(records, kept)[k]),
{
    assert(offers(records, kept[k]));
    let i = choose|i: int| 0 <= i < records.len() && names(kept[k], #[trigger] records[i]);
    named_record_has_a_first_place(records, kept[k], i);
}

/// The path pair of each record stands for a record: whatever is picked
/// from the list of [`file_names`] is offered.
pub proof fn listed_file_is_offered(records: Seq<FileRecordView>, i: int)
    requires
        0 <= i < records.len(),
    ensures
        offers(records, paths_of(records[i])),
{
    assert(names(paths_of(records[i]), records[i]));
}

impl<'a> From<&'a FileRecord> for DiffFile {
    fn from(value: &'a FileRecord) -> (file: DiffFile) {
        DiffFile {
            source_file: value.source_file.clone(),
            target_file: value.target_file.clone(),
        }
    }
}

impl<'a> vstd::std_specs::convert::FromSpecImpl<&'a FileRecord> for DiffFile {
    open spec fn obeys_from_spec() -> bool {
        true
    }

    open spec fn from_spec(value: &'a FileRecord) -> DiffFile {
        DiffFile { source_file: value.source_file, target_file: value.target_file }
    }
}

impl<'a> PartialEq<&'a FileRecord> for DiffFile {
    fn eq(&self, other: &&'a FileRecord) -> (same: bool) {
        self.source_file == other.source_file && self.target_file == other.target_file
    }
}

impl<'a> vstd::std_specs::cmp::PartialEqSpecImpl<&'a FileRecord> for DiffFile {
    open spec fn obeys_eq_spec() -> bool {
        true
    }

    open spec fn eq_spec(&self, other: &&'a FileRecord) -> bool {
        names(self@, other@)
    }
}

impl DiffFile {
    /// The text under which the file is listed.
    pub fn label(&self) -> (text: String)
        ensures
            text@ == label_of(self@),
    {
        proof {
            reveal_strlit(" -> ");
            assert(" -> "@ =~= seq![' ', '-', '>', ' ']);
        }
        self.source_file.clone().concat(" -> ").concat(self.target_file.as_str())
    }
}

impl FileRecord {
    /// A copy of the record.
    pub fn duplicate(&self) -> (copy: FileRecord)
        ensures
            copy == *self,
    {
        FileRecord {
            source_file: self.source_file.clone(),
            target_file: self.target_file.clone(),
            fragment: self.fragment.clone(),
        }
    }
}

/// The path pairs of `records`, in order: what the user is shown.
pub fn file_names(records: &Vec<FileRecord>) -> (files: Vec<DiffFile>)
    ensures
        files.len() == records.len(),
        forall|i: int| 0 <= i < records.len() ==> (#[trigger] files[i])@ == paths_of(records[i]@),
{
    let mut files: Vec<DiffFile> = Vec::new();
    let mut i: usize = 0;
    while i < records.len()
        invariant
            i <= records.len(),
            files.len() == i,
            forall|k: int| 0 <= k < i ==> (#[trigger] files[k])@ == paths_of(records[k]@),
        decreases records.len() - i,
    {
        let file = DiffFile::from(&records[i]);
        files.push(file);
        i = i + 1;
    }
    files
}

/// Finds the first of `records` that `file` stands for.
pub fn find_record(records: &Vec<FileRecord>, file: &DiffFile) -> (found: Option<usize>)
    ensures
        match found {
            Some(i) => is_first_named(views(records@), file@, i as int),
            None => !offers(views(records@), file@),
        },
{
    let mut i: usize = 0;
    while i < records.len()
        invariant
            i <= records.len(),
            forall|j: int| 0 <= j < i ==> !names(file@, #[trigger] views(records@)[j]),
        decreases records.len() - i,
    {
        let record = &records[i];
        if *file == record {
            return Some(i);
        }
        i = i + 1;
    }
    None
}

/// Picks out of `records` what `kept` stands for, in the order of `kept`.
pub fn keep(records: &Vec<FileRecord>, kept: &Vec<DiffFile>) -> (picked: Vec<FileRecord>)
    requires
        offers_all(views(records@), file_views(kept@)),
    ensures
        views(picked@) == kept_records(views(records@), file_views(kept@)),
{
    let ghost all = views(records@);
    let ghost wanted = file_views(kept@);
    let mut picked: Vec<FileRecord> = Vec::new();
    let mut k: usize = 0;
    while k < kept.len()
        invariant
            k <= kept.len(),
            all == views(records@),
            wanted == file_views(kept@),
            offers_all(all, wanted),
            picked.len() == k,
            forall|j: int| 0 <= j < k ==> (#[trigger] picked[j])@ == all[position(all, wanted[j])],
        decreases kept.len() - k,
    {
        let found = find_record(records, &kept[k]);
        proof {
            assert(offers(all, wanted[k as int]));
        }
        let i = found.unwrap();
        proof {
            first_named_is_unique(all, wanted[k as int], i as int, position(all, wanted[k as int]));
        }
        picked.push(records[i].duplicate());
        k = k + 1;
    }
    assert(views(picked@) =~= kept_records(all, wanted));
    picked
}

/// Renders `records` back to diff text: their fragments, one after the other.
pub fn join(records: &Vec<FileRecord>) -> (text: String)
    ensures
        text@ == joined(views(records@)),
{
    let ghost all = views(records@);
    let mut text = String::new();
    let mut i: usize = 0;
    while i < records.len()
        invariant
            i <= records.len(),
            all == views(records@),
            text@ == fragments(all.take(i as int)).flatten(),
        decreases records.len() - i,
    {
        proof {
            let done = fragments(all.take(i as int));
            assert(fragments(all.take(i + 1)) =~= done.push(records[i as int].fragment@));
            done.lemma_flatten_push(records[i as int].fragment@);
        }
        text.append(records[i].fragment.as_str());
        i = i + 1;
    }
    proof {
        assert(all.take(i as int) =~= all);
    }
    text
}

} // verus!
