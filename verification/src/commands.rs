//! The operations that a host application calls. Each takes what the
//! durable store held and returns what is to be shown to the caller or
//! written back in place of the record.

use crate::model::{RecentFileView, lacks_path, lemma_without_path, without_path};
use crate::recent_files::{
    FileStat, RecentFile, RecentFilesData, RegistryError, StoredRecord, add_recent_file, decoded,
    entries_view, entry_name, load_recent_files, loaded, outcome_view, text_view, after_tracking,
};
use vstd::prelude::*;

verus! {

/// Why a tracked read or write failed: the read or write itself, or the
/// update of the registry after it went through.
#[derive(Clone, Copy, Debug, PartialEq, Eq, Structural)]
pub enum TrackedError {
    /// The file was not read or written; the registry was not touched.
    Io,
    /// The file was read or written, and the registry could not be updated.
    Registry(RegistryError),
}

/// A result of a tracked read or write with the registry in it as a
/// sequence of plain entries.
pub open spec fn tracked_view(res: Result<RecentFilesData, TrackedError>) -> Result<
    Seq<RecentFileView>,
    TrackedError,
> {
    match res {
        Ok(data) => Ok(data@),
        Err(e) => Err(e),
    }
}

/// The result of the registry's update as the result of a tracked read or
/// write that went through.
pub open spec fn after_io(update: Result<Seq<RecentFileView>, RegistryError>) -> Result<
    Seq<RecentFileView>,
    TrackedError,
> {
    match update {
        Ok(entries) => Ok(entries),
        Err(e) => Err(TrackedError::Registry(e)),
    }
}

/// The entries of the stored registry that are still on the file system, as
/// `found` says of each position of the record, the most recently used
/// first. Fails exactly where the record is unreadable or corrupt. Nothing
/// is to be written back.
pub fn get_recent_files(stored: StoredRecord, found: &Vec<bool>) -> (res: Result<
    Vec<RecentFile>,
    RegistryError,
>)
    ensures
        match res {
            Ok(files) => Ok::<Seq<RecentFileView>, RegistryError>(entries_view(files@)),
            Err(e) => Err::<Seq<RecentFileView>, RegistryError>(e),
        } == loaded(stored, found@),
{
    match load_recent_files(stored, found) {
        Ok(data) => Ok(data.get_files()),
        Err(e) => Err(e),
    }
}

/// Adds or touches `file_path` in the stored registry and returns the
/// registry to write back: the loaded one with the entry of the path in
/// front, or the error that kept the path from being tracked.
pub fn add_to_recent_files(
    stored: StoredRecord,
    found: &Vec<bool>,
    file_path: String,
    stat: FileStat,
    preview: Option<String>,
) -> (res: Result<RecentFilesData, RegistryError>)
    ensures
        outcome_view(res) == after_tracking(
            stored,
            found@,
            file_path@,
            entry_name(file_path@),
            stat,
            text_view(preview),
        ),
        res is Ok <==> stat is Modified && decoded(stored) is Ok,
        res is Ok ==> res->Ok_0@.len() >= 1 && res->Ok_0@[0].path == file_path@,
{
    add_recent_file(stored, found, file_path, stat, preview)
}

/// Removes `file_path` from the stored registry and returns the registry to
/// write back: the loaded one without that path, the others in their order.
/// A path that is not held is no error. Fails exactly where the record is
/// unreadable or corrupt.
pub fn remove_recent_file(stored: StoredRecord, found: &Vec<bool>, file_path: &String) -> (res:
    Result<RecentFilesData, RegistryError>)
    ensures
        outcome_view(res) == match loaded(stored, found@) {
            Ok(entries) => Ok(without_path(entries, file_path@)),
            Err(e) => Err(e),
        },
        res is Ok ==> lacks_path(res->Ok_0@, file_path@),
{
    match load_recent_files(stored, found) {
        Ok(data) => {
            let mut data = data;
            proof {
                lemma_without_path(data@, file_path@);
            }
            data.remove_file(file_path);
            Ok(data)
        },
        Err(e) => Err(e),
    }
}

/// The registry to write back when the history is cleared: the empty one,
/// whatever the store held.
pub fn clear_recent_files() -> (data: RecentFilesData)
    ensures
        data@ == Seq::<RecentFileView>::empty(),
        data.wf(),
{
    RecentFilesData::default()
}

/// After a file was written, or not (`written`): tracks `file_path` with no
/// preview and returns the registry to write back. Where the write failed
/// the registry is not looked at and the result is `TrackedError::Io`; a
/// failure of the update comes as `TrackedError::Registry`, and a write
/// that went through is not undone.
pub fn save_file_with_tracking(
    written: bool,
    stored: StoredRecord,
    found: &Vec<bool>,
    file_path: String,
    stat: FileStat,
) -> (res: Result<RecentFilesData, TrackedError>)
    ensures
        !written ==> res == Err::<RecentFilesData, TrackedError>(TrackedError::Io),
        written ==> tracked_view(res) == after_io(
            after_tracking(stored, found@, file_path@, entry_name(file_path@), stat, None),
        ),
{
    if !written {
        return Err(TrackedError::Io);
    }
    match add_recent_file(stored, found, file_path, stat, None) {
        Ok(data) => Ok(data),
        Err(e) => Err(TrackedError::Registry(e)),
    }
}

/// After a file was read (`content`), or not (`None`): tracks `file_path`
/// with no preview and returns the content with the registry to write back.
/// Where the read failed the registry is not looked at and the result is
/// `TrackedError::Io`; a failure of the update comes as
/// `TrackedError::Registry`.
pub fn load_file_with_tracking(
    content: Option<String>,
    stored: StoredRecord,
    found: &Vec<bool>,
    file_path: String,
    stat: FileStat,
) -> (res: Result<(String, RecentFilesData), TrackedError>)
    ensures
        content is None ==> res == Err::<(String, RecentFilesData), TrackedError>(
            TrackedError::Io,
        ),
        content is Some && res is Ok ==> res->Ok_0.0 == content->Some_0,
        content is Some ==> match res {
            Ok(pair) => Ok::<Seq<RecentFileView>, TrackedError>(pair.1@),
            Err(e) => Err::<Seq<RecentFileView>, TrackedError>(e),
        } == after_io(
            after_tracking(stored, found@, file_path@, entry_name(file_path@), stat, None),
        ),
{
    match content {
        None => Err(TrackedError::Io),
        Some(text) => match add_recent_file(stored, found, file_path, stat, None) {
            Ok(data) => Ok((text, data)),
            Err(e) => Err(TrackedError::Registry(e)),
        },
    }
}

} // verus!
