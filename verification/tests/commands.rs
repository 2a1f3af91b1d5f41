use recent_files::commands::{
    add_to_recent_files, clear_recent_files, get_recent_files, load_file_with_tracking,
    remove_recent_file, save_file_with_tracking, TrackedError,
};
use recent_files::model::Timestamp;
use recent_files::recent_files::{
    add_recent_file, decode_stored, load_recent_files, new_entry, save_recent_files, FileStat,
    RecentFile, RecentFilesData, RegistryError, StoredRecord,
};

fn at(secs: i64) -> Timestamp {
    Timestamp { secs, nanos: 0 }
}

fn held(path: &str, secs: i64) -> RecentFile {
    RecentFile {
        name: "held".to_string(),
        path: path.to_string(),
        last_modified: at(secs),
        preview: None,
    }
}

fn record(paths: &[&str]) -> StoredRecord {
    StoredRecord::Entries(paths.iter().map(|p| held(p, 1)).collect())
}

fn paths_of(data: &RecentFilesData) -> Vec<String> {
    data.get_files().into_iter().map(|f| f.path).collect()
}

fn strings(paths: &[&str]) -> Vec<String> {
    paths.iter().map(|p| p.to_string()).collect()
}

#[test]
fn missing_record_loads_as_empty() {
    let data = load_recent_files(StoredRecord::Absent, &vec![]).unwrap();
    assert_eq!(data.len(), 0);
}

#[test]
fn corrupt_record_is_an_error_not_an_empty_registry() {
    let res = load_recent_files(StoredRecord::Corrupt, &vec![]);
    assert_eq!(res.err(), Some(RegistryError::CorruptState));
}

#[test]
fn unreadable_store_is_an_io_failure() {
    let res = load_recent_files(StoredRecord::Unreadable, &vec![]);
    assert_eq!(res.err(), Some(RegistryError::IoFailure));
}

#[test]
fn decode_takes_the_record_as_written() {
    let data = decode_stored(record(&["/a", "/b", "/a"])).unwrap();
    assert_eq!(paths_of(&data), strings(&["/a", "/b", "/a"]));
    assert_eq!(decode_stored(StoredRecord::Corrupt).err(), Some(RegistryError::CorruptState));
    assert_eq!(decode_stored(StoredRecord::Unreadable).err(), Some(RegistryError::IoFailure));
    assert_eq!(decode_stored(StoredRecord::Absent).unwrap().len(), 0);
}

#[test]
fn load_omits_an_entry_whose_file_was_deleted() {
    let data = load_recent_files(record(&["/a", "/deleted", "/c"]), &vec![true, false, true])
        .unwrap();
    assert_eq!(paths_of(&data), strings(&["/a", "/c"]));
}

#[test]
fn list_omits_an_entry_whose_file_was_deleted() {
    let files = get_recent_files(record(&["/deleted", "/b"]), &vec![false, true]).unwrap();
    assert_eq!(files.len(), 1);
    assert_eq!(files[0].path, "/b");
}

#[test]
fn list_of_a_corrupt_record_fails() {
    let res = get_recent_files(StoredRecord::Corrupt, &vec![]);
    assert_eq!(res.err(), Some(RegistryError::CorruptState));
    let res = get_recent_files(StoredRecord::Unreadable, &vec![]);
    assert_eq!(res.err(), Some(RegistryError::IoFailure));
}

#[test]
fn new_entry_is_named_by_the_last_component() {
    let e = new_entry(
        "/home/u/notes.md".to_string(),
        Some("notes.md".to_string()),
        FileStat::Modified(Timestamp { secs: 5, nanos: 7 }),
        Some("hello".to_string()),
    )
    .unwrap();
    assert_eq!(e.name, "notes.md");
    assert_eq!(e.path, "/home/u/notes.md");
    assert_eq!(e.last_modified, Timestamp { secs: 5, nanos: 7 });
    assert_eq!(e.preview, Some("hello".to_string()));
}

#[test]
fn new_entry_without_a_component_is_unknown() {
    let e = new_entry("/".to_string(), None, FileStat::Modified(at(5)), None).unwrap();
    assert_eq!(e.name, "Unknown");
    assert_eq!(e.path, "/");
    assert_eq!(e.preview, None);
}

#[test]
fn new_entry_of_a_missing_path_is_not_found() {
    let res = new_entry("/x".to_string(), Some("x".to_string()), FileStat::Missing, None);
    assert_eq!(res.err(), Some(RegistryError::NotFound));
}

#[test]
fn new_entry_without_a_modification_time_is_an_io_failure() {
    let res = new_entry("/x".to_string(), Some("x".to_string()), FileStat::Unreadable, None);
    assert_eq!(res.err(), Some(RegistryError::IoFailure));
}

#[test]
fn add_names_the_entry_by_the_last_component_of_the_path() {
    let data = add_recent_file(
        StoredRecord::Absent,
        &vec![],
        "/home/u/report.txt".to_string(),
        FileStat::Modified(at(42)),
        Some("first words".to_string()),
    )
    .unwrap();
    let files = data.get_files();
    assert_eq!(files.len(), 1);
    assert_eq!(files[0].name, "report.txt");
    assert_eq!(files[0].path, "/home/u/report.txt");
    assert_eq!(files[0].last_modified, at(42));
    assert_eq!(files[0].preview, Some("first words".to_string()));
}

#[test]
fn add_of_a_path_without_a_last_component_is_unknown() {
    let data =
        add_recent_file(StoredRecord::Absent, &vec![], "/".to_string(), FileStat::Modified(at(1)), None)
            .unwrap();
    assert_eq!(data.get_files()[0].name, "Unknown");
}

#[test]
fn add_of_a_missing_path_is_not_found() {
    let res = add_recent_file(record(&["/a"]), &vec![true], "/x".to_string(), FileStat::Missing, None);
    assert_eq!(res.err(), Some(RegistryError::NotFound));
}

#[test]
fn add_reports_the_path_before_the_record() {
    let res = add_recent_file(StoredRecord::Corrupt, &vec![], "/x".to_string(), FileStat::Missing, None);
    assert_eq!(res.err(), Some(RegistryError::NotFound));
    let res =
        add_recent_file(StoredRecord::Corrupt, &vec![], "/x".to_string(), FileStat::Unreadable, None);
    assert_eq!(res.err(), Some(RegistryError::IoFailure));
    let res = add_recent_file(
        StoredRecord::Corrupt,
        &vec![],
        "/x".to_string(),
        FileStat::Modified(at(1)),
        None,
    );
    assert_eq!(res.err(), Some(RegistryError::CorruptState));
}

#[test]
fn add_cleans_then_inserts() {
    let data = add_to_recent_files(
        record(&["/a", "/deleted", "/b"]),
        &vec![true, false, true],
        "/b".to_string(),
        FileStat::Modified(at(9)),
        None,
    )
    .unwrap();
    assert_eq!(paths_of(&data), strings(&["/b", "/a"]));
    assert_eq!(data.get_files()[0].last_modified, at(9));
    assert_eq!(data.get_files()[0].name, "b");
}

#[test]
fn add_then_list_has_the_path_first() {
    let data = add_to_recent_files(
        record(&["/a", "/b"]),
        &vec![true, true],
        "/c".to_string(),
        FileStat::Modified(at(9)),
        None,
    )
    .unwrap();
    let written = save_recent_files(&data, true).unwrap();
    let files = get_recent_files(StoredRecord::Entries(written), &vec![true, true, true]).unwrap();
    assert_eq!(files[0].path, "/c");
    assert_eq!(files.len(), 3);
}

#[test]
fn a_b_a_lists_a_then_b() {
    let mut stored = StoredRecord::Absent;
    let mut found: Vec<bool> = vec![];
    for p in ["/a.txt", "/b.txt", "/a.txt"] {
        let data =
            add_to_recent_files(stored, &found, p.to_string(), FileStat::Modified(at(1)), None)
                .unwrap();
        let written = save_recent_files(&data, true).unwrap();
        found = vec![true; written.len()];
        stored = StoredRecord::Entries(written);
    }
    let files = get_recent_files(stored, &found).unwrap();
    let listed: Vec<String> = files.into_iter().map(|f| f.path).collect();
    assert_eq!(listed, strings(&["/a.txt", "/b.txt"]));
}

#[test]
fn remove_keeps_the_others_in_order() {
    let data = remove_recent_file(
        record(&["/a", "/b", "/c", "/d"]),
        &vec![true, true, true, true],
        &"/b".to_string(),
    )
    .unwrap();
    assert_eq!(paths_of(&data), strings(&["/a", "/c", "/d"]));
}

#[test]
fn remove_of_an_absent_path_is_no_error() {
    let data = remove_recent_file(record(&["/a"]), &vec![true], &"/zzz".to_string()).unwrap();
    assert_eq!(paths_of(&data), strings(&["/a"]));
    let data = remove_recent_file(StoredRecord::Absent, &vec![], &"/zzz".to_string()).unwrap();
    assert_eq!(data.len(), 0);
}

#[test]
fn remove_from_a_corrupt_record_fails() {
    let res = remove_recent_file(StoredRecord::Corrupt, &vec![], &"/a".to_string());
    assert_eq!(res.err(), Some(RegistryError::CorruptState));
}

#[test]
fn clear_gives_an_empty_registry_and_record() {
    let data = clear_recent_files();
    assert_eq!(data.len(), 0);
    let written = save_recent_files(&data, true).unwrap();
    assert!(written.is_empty());
    let files = get_recent_files(StoredRecord::Entries(written), &vec![]).unwrap();
    assert!(files.is_empty());
}

#[test]
fn save_hands_out_the_entries_in_order() {
    let data = RecentFilesData::from_entries(vec![held("/a", 1), held("/b", 2)]);
    let written = save_recent_files(&data, true).unwrap();
    assert_eq!(written.len(), 2);
    assert_eq!(written[0].path, "/a");
    assert_eq!(written[1].path, "/b");
    assert_eq!(written[1].last_modified, at(2));
}

#[test]
fn save_without_a_directory_is_a_persist_failure() {
    let data = RecentFilesData::from_entries(vec![held("/a", 1)]);
    assert_eq!(save_recent_files(&data, false).err(), Some(RegistryError::PersistFailure));
}

#[test]
fn failed_write_does_not_touch_the_registry() {
    let res = save_file_with_tracking(
        false,
        record(&["/a"]),
        &vec![true],
        "/b".to_string(),
        FileStat::Modified(at(1)),
    );
    assert_eq!(res.err(), Some(TrackedError::Io));
}

#[test]
fn tracked_write_adds_the_path_without_preview() {
    let data = save_file_with_tracking(
        true,
        record(&["/a"]),
        &vec![true],
        "/docs/b.txt".to_string(),
        FileStat::Modified(at(3)),
    )
    .unwrap();
    let files = data.get_files();
    assert_eq!(files.len(), 2);
    assert_eq!(files[0].path, "/docs/b.txt");
    assert_eq!(files[0].name, "b.txt");
    assert_eq!(files[0].preview, None);
    assert_eq!(files[1].path, "/a");
}

#[test]
fn tracked_write_reports_a_registry_failure_apart() {
    let res = save_file_with_tracking(
        true,
        StoredRecord::Corrupt,
        &vec![],
        "/b".to_string(),
        FileStat::Modified(at(1)),
    );
    assert_eq!(res.err(), Some(TrackedError::Registry(RegistryError::CorruptState)));
    let res =
        save_file_with_tracking(true, StoredRecord::Absent, &vec![], "/b".to_string(), FileStat::Missing);
    assert_eq!(res.err(), Some(TrackedError::Registry(RegistryError::NotFound)));
}

#[test]
fn failed_read_does_not_touch_the_registry() {
    let res = load_file_with_tracking(
        None,
        StoredRecord::Corrupt,
        &vec![],
        "/b".to_string(),
        FileStat::Missing,
    );
    assert_eq!(res.err(), Some(TrackedError::Io));
}

#[test]
fn tracked_read_returns_the_content_and_the_registry() {
    let (text, data) = load_file_with_tracking(
        Some("content of b".to_string()),
        record(&["/a", "/b"]),
        &vec![true, true],
        "/b".to_string(),
        FileStat::Modified(at(8)),
    )
    .unwrap();
    assert_eq!(text, "content of b");
    assert_eq!(paths_of(&data), strings(&["/b", "/a"]));
    assert_eq!(data.get_files()[0].preview, None);
}

#[test]
fn tracked_read_reports_a_registry_failure_apart() {
    let res = load_file_with_tracking(
        Some("content".to_string()),
        StoredRecord::Unreadable,
        &vec![],
        "/b".to_string(),
        FileStat::Modified(at(8)),
    );
    assert_eq!(res.err(), Some(TrackedError::Registry(RegistryError::IoFailure)));
}
