//! Entries, the registry, and its operations.

pub use crate::model::MAX_RECENT_FILES;
use crate::model::{
    RecentFileView, Timestamp, keep_marked, lemma_keep_marked, lemma_without_path, well_formed,
    with_entry, without_path,
};
use std::collections::VecDeque;
use vstd::prelude::*;

verus! {

/// One tracked file reference.
#[derive(Debug)]
pub struct RecentFile {
    /// Display name, taken from the last component of the path when the entry
    /// was made.
    pub name: String,
    /// The path: the key of the entry.
    pub path: String,
    /// When the file was last modified, as read when the entry was made.
    pub last_modified: Timestamp,
    /// A short snippet of the content, where the caller gave one.
    pub preview: Option<String>,
}

impl View for RecentFile {
    type V = RecentFileView;

    open spec fn view(&self) -> RecentFileView {
        RecentFileView {
            name: self.name@,
            path: self.path@,
            last_modified: self.last_modified,
            preview: match self.preview {
                Some(text) => Some(text@),
                None => None,
            },
        }
    }
}

impl Clone for RecentFile {
    fn clone(&self) -> (copy: Self)
        ensures
            copy@ == self@,
    {
        let preview = match &self.preview {
            Some(text) => Some(text.clone()),
            None => None,
        };
        RecentFile {
            name: self.name.clone(),
            path: self.path.clone(),
            last_modified: self.last_modified,
            preview,
        }
    }
}

/// The entries of `s` as plain values.
pub open spec fn entries_view(s: Seq<RecentFile>) -> Seq<RecentFileView> {
    s.map_values(|f: RecentFile| f@)
}

/// Mapping to plain values goes entry by entry.
pub proof fn lemma_entries_view_push(s: Seq<RecentFile>, f: RecentFile)
    ensures
        entries_view(s.push(f)) == entries_view(s).push(f@),
{
    assert(entries_view(s.push(f)) =~= entries_view(s).push(f@));
}

/// The registry: entries in order of use, the most recent first.
#[derive(Debug)]
pub struct RecentFilesData {
    files: VecDeque<RecentFile>,
}

impl View for RecentFilesData {
    type V = Seq<RecentFileView>;

    closed spec fn view(&self) -> Seq<RecentFileView> {
        entries_view(self.files@)
    }
}

impl Default for RecentFilesData {
    fn default() -> (data: Self)
        ensures
            data@ == Seq::<RecentFileView>::empty(),
            data.wf(),
    {
        let data = RecentFilesData { files: VecDeque::new() };
        assert(data@ =~= Seq::<RecentFileView>::empty());
        data
    }
}

impl RecentFilesData {
    /// The registry's invariant: at most `MAX_RECENT_FILES` entries, no two
    /// with the same path. The empty registry has it and every operation
    /// keeps it; a registry made of a decoded record has it where the record
    /// has it.
    pub open spec fn wf(&self) -> bool {
        well_formed(self@)
    }

    /// A registry of the given entries, in their order: what a decoded
    /// record holds, taken as it is. Nothing is dropped or reordered, so the
    /// registry is well formed only if the record was.
    pub fn from_entries(entries: Vec<RecentFile>) -> (data: Self)
        ensures
            data@ == entries_view(entries@),
            data.wf() <==> well_formed(entries_view(entries@)),
    {
        let mut entries = entries;
        let ghost given = entries@;
        let mut files: VecDeque<RecentFile> = VecDeque::new();
        while entries.len() > 0
            invariant
                entries_view(entries@) + entries_view(files@) == entries_view(given),
            decreases entries@.len(),
        {
            let ghost before = entries@;
            let ghost held = files@;
            let last = entries.pop();
            match last {
                Some(f) => {
                    files.push_front(f);
                    proof {
                        assert(entries_view(entries@) + entries_view(files@) =~= entries_view(
                            before,
                        ) + entries_view(held));
                    }
                },
                None => {},
            }
        }
        proof {
            assert(entries_view(entries@) + entries_view(files@) =~= entries_view(files@));
        }
        RecentFilesData { files }
    }

    /// The number of entries.
    pub fn len(&self) -> (n: usize)
        ensures
            n == self@.len(),
    {
        self.files.len()
    }

    /// Removes every entry whose path is exactly `path`: in a well-formed
    /// registry at most one. The others keep their order, and a path that
    /// is not held changes nothing.
    pub fn remove_file(&mut self, path: &String)
        ensures
            final(self)@ == without_path(old(self)@, path@),
            old(self).wf() ==> final(self).wf(),
    {
        let ghost before = self.files@;
        let mut kept: VecDeque<RecentFile> = VecDeque::new();
        let mut done: usize = 0;
        let total: usize = self.files.len();
        while done < total
            invariant
                done <= total,
                total == before.len(),
                self.files@ == before.skip(done as int),
                entries_view(kept@) == without_path(entries_view(before.take(done as int)), path@),
            decreases total - done,
        {
            let head = self.files.pop_front();
            match head {
                Some(f) => {
                    proof {
                        let seen = before.take(done as int + 1);
                        assert(seen.drop_last() =~= before.take(done as int));
                        assert(seen.last() == f);
                        assert(entries_view(seen).drop_last() =~= entries_view(
                            seen.drop_last(),
                        ));
                        assert(entries_view(seen).last() == f@);
                        lemma_entries_view_push(kept@, f);
                        assert(self.files@ =~= before.skip(done as int + 1));
                    }
                    if f.path != *path {
                        kept.push_back(f);
                    }
                },
                None => {},
            }
            done = done + 1;
        }
        proof {
            assert(before.take(done as int) =~= before);
            lemma_without_path(entries_view(before), path@);
        }
        self.files = kept;
    }

    /// Adds `recent_file` as the most recently used entry. An entry with the
    /// same path leaves first, so that the path is not held twice; what then
    /// exceeds `MAX_RECENT_FILES` falls off the back.
    pub fn add_file(&mut self, recent_file: RecentFile)
        ensures
            final(self)@ == with_entry(old(self)@, recent_file@),
            final(self)@.len() <= MAX_RECENT_FILES,
            final(self)@.len() >= 1,
            final(self)@[0] == recent_file@,
            old(self).wf() ==> final(self).wf(),
    {
        proof {
            crate::laws::lemma_add_keeps_invariant(self@, recent_file@);
        }
        self.remove_file(&recent_file.path);
        let ghost cleared = self.files@;
        let ghost entry = recent_file;
        self.files.push_front(recent_file);
        proof {
            assert(entries_view(self.files@) =~= seq![entry@] + entries_view(cleared));
        }
        if self.files.len() > MAX_RECENT_FILES {
            let ghost full = self.files@;
            self.files.truncate(MAX_RECENT_FILES);
            proof {
                assert(entries_view(self.files@) =~= entries_view(full).take(
                    MAX_RECENT_FILES as int,
                ));
            }
        }
    }

    /// Drops the entries whose file is gone. `found` says of each position
    /// whether the path of the entry there was found on the file system; the
    /// entries found stay, in their order. A position beyond the end of
    /// `found` counts as not found.
    pub fn cleanup_nonexistent_files(&mut self, found: &Vec<bool>)
        ensures
            final(self)@ == keep_marked(old(self)@, found@),
            final(self)@.len() <= old(self)@.len(),
            old(self).wf() ==> final(self).wf(),
    {
        let ghost before = self.files@;
        let mut kept: VecDeque<RecentFile> = VecDeque::new();
        let mut done: usize = 0;
        let total: usize = self.files.len();
        while done < total
            invariant
                done <= total,
                total == before.len(),
                self.files@ == before.skip(done as int),
                entries_view(kept@) == keep_marked(
                    entries_view(before.take(done as int)),
                    found@,
                ),
            decreases total - done,
        {
            let head = self.files.pop_front();
            match head {
                Some(f) => {
                    proof {
                        let seen = before.take(done as int + 1);
                        assert(seen.drop_last() =~= before.take(done as int));
                        assert(seen.last() == f);
                        assert(entries_view(seen).drop_last() =~= entries_view(
                            seen.drop_last(),
                        ));
                        assert(entries_view(seen).last() == f@);
                        lemma_entries_view_push(kept@, f);
                        assert(self.files@ =~= before.skip(done as int + 1));
                    }
                    if done < found.len() && found[done] {
                        kept.push_back(f);
                    }
                },
                None => {},
            }
            done = done + 1;
        }
        proof {
            assert(before.take(done as int) =~= before);
            lemma_keep_marked(entries_view(before), found@);
        }
        self.files = kept;
    }

    /// The entries, the most recently used first.
    pub fn get_files(&self) -> (files: Vec<RecentFile>)
        ensures
            entries_view(files@) == self@,
    {
        let mut files: Vec<RecentFile> = Vec::new();
        let mut i: usize = 0;
        while i < self.files.len()
            invariant
                i <= self.files@.len(),
                entries_view(files@) == entries_view(self.files@.take(i as int)),
            decreases self.files@.len() - i,
        {
            let copy = self.files[i].clone();
            proof {
                let seen = self.files@.take(i as int);
                assert(self.files@.take(i as int + 1) =~= seen.push(self.files@[i as int]));
                lemma_entries_view_push(seen, self.files@[i as int]);
                lemma_entries_view_push(files@, copy);
            }
            files.push(copy);
            i = i + 1;
        }
        proof {
            assert(self.files@.take(i as int) =~= self.files@);
        }
        files
    }
}


/// Why an operation on the registry failed.
#[derive(Clone, Copy, Debug, PartialEq, Eq, Structural)]
pub enum RegistryError {
    /// The path to track is not on the file system.
    NotFound,
    /// The file system refused a read or a query.
    IoFailure,
    /// A durable record exists and cannot be decoded.
    CorruptState,
    /// The durable record could not be replaced.
    PersistFailure,
}

/// What the durable store held when it was read.
#[derive(Debug)]
pub enum StoredRecord {
    /// No record was ever written.
    Absent,
    /// A record may exist; the store could not be read.
    Unreadable,
    /// A record exists and cannot be decoded.
    Corrupt,
    /// The entries of the decoded record, in its order.
    Entries(Vec<RecentFile>),
}

/// What the file system said of the path that is to be tracked.
#[derive(Clone, Copy, Debug, PartialEq, Eq, Structural)]
pub enum FileStat {
    /// The path does not exist.
    Missing,
    /// The path exists; its modification time could not be read.
    Unreadable,
    /// The path exists and was last modified at this time.
    Modified(Timestamp),
}

/// A result with the registry in it as a sequence of plain entries.
pub open spec fn outcome_view(res: Result<RecentFilesData, RegistryError>) -> Result<
    Seq<RecentFileView>,
    RegistryError,
> {
    match res {
        Ok(data) => Ok(data@),
        Err(e) => Err(e),
    }
}

/// The registry that a stored record stands for, as it was written, or the
/// reason why there is none: a missing record is the empty registry, an
/// unreadable or undecodable one is an error.
pub open spec fn decoded(stored: StoredRecord) -> Result<Seq<RecentFileView>, RegistryError> {
    match stored {
        StoredRecord::Absent => Ok(Seq::empty()),
        StoredRecord::Unreadable => Err(RegistryError::IoFailure),
        StoredRecord::Corrupt => Err(RegistryError::CorruptState),
        StoredRecord::Entries(entries) => Ok(entries_view(entries@)),
    }
}

/// The registry that loading gives: the decoded one without the entries
/// that `found` does not mark as found.
pub open spec fn loaded(stored: StoredRecord, found: Seq<bool>) -> Result<
    Seq<RecentFileView>,
    RegistryError,
> {
    match decoded(stored) {
        Ok(entries) => Ok(keep_marked(entries, found)),
        Err(e) => Err(e),
    }
}

/// The entry for a path, or the reason why it cannot be tracked: `NotFound`
/// where the path is missing, `IoFailure` where its modification time could
/// not be read.
pub open spec fn entry_for(
    file_path: Seq<char>,
    name: Seq<char>,
    stat: FileStat,
    preview: Option<Seq<char>>,
) -> Result<RecentFileView, RegistryError> {
    match stat {
        FileStat::Missing => Err(RegistryError::NotFound),
        FileStat::Unreadable => Err(RegistryError::IoFailure),
        FileStat::Modified(at) => Ok(
            RecentFileView { name: name, path: file_path, last_modified: at, preview: preview },
        ),
    }
}

/// The registry to write back after a path was tracked: the loaded one with
/// the path's entry added in front. A path that cannot be tracked fails
/// first, then a record that cannot be loaded.
pub open spec fn after_tracking(
    stored: StoredRecord,
    found: Seq<bool>,
    file_path: Seq<char>,
    name: Seq<char>,
    stat: FileStat,
    preview: Option<Seq<char>>,
) -> Result<Seq<RecentFileView>, RegistryError> {
    match entry_for(file_path, name, stat, preview) {
        Err(e) => Err(e),
        Ok(entry) => match loaded(stored, found) {
            Err(e) => Err(e),
            Ok(entries) => Ok(with_entry(entries, entry)),
        },
    }
}

/// The display name of an entry: the last component of its path, or
/// "Unknown" where the path has none.
pub open spec fn display_name(file_name: Option<Seq<char>>) -> Seq<char> {
    match file_name {
        Some(name) => name,
        None => "Unknown"@,
    }
}

/// The view of an optional text.
pub open spec fn text_view(text: Option<String>) -> Option<Seq<char>> {
    match text {
        Some(t) => Some(t@),
        None => None,
    }
}

/// The registry that `stored` stands for, as it was written. A missing
/// record is the empty registry; an undecodable one is an error, never an
/// empty registry.
pub fn decode_stored(stored: StoredRecord) -> (res: Result<RecentFilesData, RegistryError>)
    ensures
        outcome_view(res) == decoded(stored),
{
    match stored {
        StoredRecord::Absent => Ok(RecentFilesData::default()),
        StoredRecord::Unreadable => Err(RegistryError::IoFailure),
        StoredRecord::Corrupt => Err(RegistryError::CorruptState),
        StoredRecord::Entries(entries) => Ok(RecentFilesData::from_entries(entries)),
    }
}

/// Loads the registry from what the store held: decodes the record, then
/// drops the entries whose path is no longer on the file system, as
/// `found` says of each position of the record. Fails exactly where the
/// record is unreadable or corrupt.
pub fn load_recent_files(stored: StoredRecord, found: &Vec<bool>) -> (res: Result<
    RecentFilesData,
    RegistryError,
>)
    ensures
        outcome_view(res) == loaded(stored, found@),
        res is Ok && decoded(stored) is Ok && well_formed(decoded(stored)->Ok_0) ==> res->Ok_0.wf(),
{
    match decode_stored(stored) {
        Ok(data) => {
            let mut data = data;
            data.cleanup_nonexistent_files(found);
            Ok(data)
        },
        Err(e) => Err(e),
    }
}

/// What is to be encoded and written in place of the durable record: the
/// entries of `data` in their order. The directory of the record has to
/// stand before anything is written: where it could not be made
/// (`directory_ready` is false) nothing is handed out and the result is
/// `PersistFailure`.
pub fn save_recent_files(data: &RecentFilesData, directory_ready: bool) -> (res: Result<
    Vec<RecentFile>,
    RegistryError,
>)
    ensures
        directory_ready ==> res is Ok && entries_view(res->Ok_0@) == data@,
        !directory_ready ==> res == Err::<Vec<RecentFile>, RegistryError>(
            RegistryError::PersistFailure,
        ),
{
    if directory_ready {
        Ok(data.get_files())
    } else {
        Err(RegistryError::PersistFailure)
    }
}

/// The entry for `file_path`, from what the file system said of it and the
/// last component of the path, if it has one: `NotFound` where the path
/// does not exist, `IoFailure` where its modification time could not be
/// read, otherwise the entry, named by that component or "Unknown".
pub fn new_entry(
    file_path: String,
    file_name: Option<String>,
    stat: FileStat,
    preview: Option<String>,
) -> (res: Result<RecentFile, RegistryError>)
    ensures
        match res {
            Ok(entry) => Ok::<RecentFileView, RegistryError>(entry@),
            Err(e) => Err::<RecentFileView, RegistryError>(e),
        } == entry_for(file_path@, display_name(text_view(file_name)), stat, text_view(preview)),
{
    match stat {
        FileStat::Missing => Err(RegistryError::NotFound),
        FileStat::Unreadable => Err(RegistryError::IoFailure),
        FileStat::Modified(last_modified) => {
            let name = match file_name {
                Some(name) => name,
                None => "Unknown".to_owned(),
            };
            Ok(RecentFile { name, path: file_path, last_modified, preview })
        },
    }
}

/// What `std::path::Path::file_name` finds as the last component of a path,
/// as text; `None` where it finds none. What counts as a component follows
/// the path syntax of the platform that the library is built for.
pub uninterp spec fn last_component(path: Seq<char>) -> Option<Seq<char>>;

/// The name under which a path is listed: its last component, or "Unknown".
pub open spec fn entry_name(file_path: Seq<char>) -> Seq<char> {
    display_name(last_component(file_path))
}

/// The last component of `path`, by `std::path::Path::file_name`, as text.
/// Not proved: that the answer is `last_component` of the path, which says
/// no more than that the same path gives the same answer.
#[verifier::external_body]
fn final_component(path: &String) -> (name: Option<String>)
    ensures
        text_view(name) == last_component(path@),
{
    std::path::Path::new(path).file_name().and_then(|n| n.to_str()).map(|n| n.to_owned())
}

/// Tracks `file_path` in the registry that `stored` holds, and returns the
/// registry that is to replace the record. `stat` is what the file system
/// said of the path, `found` what it said of the paths of the record,
/// position by position.
///
/// A missing path gives `NotFound`, an unread modification time
/// `IoFailure`, then an unreadable or corrupt record its own error. Else
/// the result is the loaded registry with the new entry in front, named by
/// the last component of the path, or "Unknown" where it has none.
pub fn add_recent_file(
    stored: StoredRecord,
    found: &Vec<bool>,
    file_path: String,
    stat: FileStat,
    preview: Option<String>,
) -> (res: Result<RecentFilesData, RegistryError>)
    ensures
        outcome_view(res) == after_tracking(
            stored,
            found@,
            file_path@,
            entry_name(file_path@),
            stat,
            text_view(preview),
        ),
        res is Ok ==> {
            &&& 1 <= res->Ok_0@.len() <= MAX_RECENT_FILES
            &&& res->Ok_0@[0].path == file_path@
            &&& res->Ok_0@[0].preview == text_view(preview)
            &&& stat == FileStat::Modified(res->Ok_0@[0].last_modified)
        },
        res is Ok && decoded(stored) is Ok && well_formed(decoded(stored)->Ok_0) ==> res->Ok_0.wf(),
        res is Ok <==> stat is Modified && decoded(stored) is Ok,
{
    let file_name = final_component(&file_path);
    let entry = new_entry(file_path, file_name, stat, preview)?;
    let mut data = load_recent_files(stored, found)?;
    data.add_file(entry);
    Ok(data)
}

} // verus!
