use dirtable::color::Color;
use dirtable::files_logic::get_files_as_list;
use dirtable::path_handler::collect_path_outputs;
use dirtable::path_handler::detect_path_type;
use dirtable::path_handler::directory_error;
use dirtable::path_handler::get_path_size;
use dirtable::path_handler::get_paths;
use dirtable::path_handler::read_entry;
use dirtable::path_handler::CollectError;
use dirtable::path_handler::EntryProbe;
use dirtable::path_handler::IoFailure;
use dirtable::printer::Printer;
use dirtable::record::is_valid_name;
use dirtable::record::PathKind;
use dirtable::record::PathRecord;

fn read(name: &str, is_dir: bool, len: u64, modified: u64) -> EntryProbe {
    EntryProbe::Read { name: name.to_string(), is_dir, len, modified }
}

#[test]
fn denied_entry_is_left_out_and_the_rest_is_listed() {
    let entries = vec![
        read("a.txt", false, 10, 0),
        EntryProbe::Failed(IoFailure::PermissionDenied),
        read("b", true, 4096, 60),
    ];
    let listing = collect_path_outputs(Ok(entries)).unwrap();
    assert_eq!(listing.skipped, 1);
    assert_eq!(listing.records.len(), 2);
    assert_eq!(listing.records[0].name(), "a.txt");
    assert_eq!(listing.records[1].name(), "b");
    let out = Printer::new(Color::Default, Color::Default, Color::Default, true).render(&listing.records);
    let lines: Vec<&str> = out.lines().collect();
    assert_eq!(lines.len(), 5);
    assert_eq!(lines[2], "│ 0 │ a.txt │ file   │ 10   │ 1970-01-01 00:00:00 │");
    assert_eq!(lines[3], "│ 1 │ b     │ folder │ 0    │ 1970-01-01 00:01:00 │");
}

#[test]
fn a_directory_that_cannot_be_opened_gives_its_error() {
    assert_eq!(collect_path_outputs(Err(IoFailure::NotFound)).unwrap_err(), CollectError::NotFound);
    assert_eq!(
        collect_path_outputs(Err(IoFailure::NotADirectory)).unwrap_err(),
        CollectError::NotADirectory
    );
    assert_eq!(
        collect_path_outputs(Err(IoFailure::PermissionDenied)).unwrap_err(),
        CollectError::PermissionDenied
    );
    assert_eq!(collect_path_outputs(Err(IoFailure::Other)).unwrap_err(), CollectError::Unreadable);
}

#[test]
fn failures_map_to_errors_one_to_one() {
    assert_eq!(directory_error(IoFailure::NotFound), CollectError::NotFound);
    assert_eq!(directory_error(IoFailure::NotADirectory), CollectError::NotADirectory);
    assert_eq!(directory_error(IoFailure::PermissionDenied), CollectError::PermissionDenied);
    assert_eq!(directory_error(IoFailure::Other), CollectError::Unreadable);
}

#[test]
fn an_empty_directory_gives_an_empty_listing() {
    let listing = collect_path_outputs(Ok(Vec::new())).unwrap();
    assert_eq!(listing.records.len(), 0);
    assert_eq!(listing.skipped, 0);
}

#[test]
fn every_entry_is_listed_or_counted() {
    let entries = vec![
        EntryProbe::Failed(IoFailure::Other),
        read("", false, 1, 1),
        read("with/slash", false, 1, 1),
        read("ok", false, 7, 1),
        EntryProbe::Failed(IoFailure::NotFound),
    ];
    let listing = collect_path_outputs(Ok(entries)).unwrap();
    assert_eq!(listing.records.len(), 1);
    assert_eq!(listing.skipped, 4);
    assert_eq!(listing.records[0].name(), "ok");
    assert_eq!(listing.records[0].size_bytes(), 7);
}

#[test]
fn order_of_the_scan_is_kept() {
    let entries = vec![read("zeta", false, 1, 1), read("alpha", true, 1, 1), read("Mid", false, 1, 1)];
    assert_eq!(get_paths(&entries), vec!["zeta", "alpha", "Mid"]);
    let listing = collect_path_outputs(Ok(entries)).unwrap();
    assert_eq!(get_files_as_list(&listing.records), vec!["zeta", "alpha", "Mid"]);
}

#[test]
fn names_of_unreadable_entries_are_not_listed() {
    let entries = vec![
        read("one", false, 1, 1),
        EntryProbe::Failed(IoFailure::PermissionDenied),
        read("a/b", false, 1, 1),
        read("two", true, 1, 1),
    ];
    assert_eq!(get_paths(&entries), vec!["one", "two"]);
    assert_eq!(get_paths(&Vec::new()), Vec::<String>::new());
    assert_eq!(get_files_as_list(&Vec::new()), Vec::<String>::new());
}

#[test]
fn reading_one_entry() {
    let record = read_entry(&read("notes.md", false, 99, 5)).unwrap();
    assert_eq!(record.name(), "notes.md");
    assert_eq!(record.kind(), PathKind::File);
    assert_eq!(record.size_bytes(), 99);
    assert_eq!(record.modified(), 5);
    let folder = read_entry(&read("target", true, 4096, 6)).unwrap();
    assert_eq!(folder.kind(), PathKind::Folder);
    assert_eq!(folder.size_bytes(), 0);
    assert_eq!(read_entry(&read("", true, 0, 0)).unwrap_err(), CollectError::Unreadable);
    assert_eq!(
        read_entry(&EntryProbe::Failed(IoFailure::PermissionDenied)).unwrap_err(),
        CollectError::PermissionDenied
    );
    assert_eq!(read_entry(&EntryProbe::Failed(IoFailure::Other)).unwrap_err(), CollectError::Unreadable);
    assert_eq!(read_entry(&EntryProbe::Failed(IoFailure::NotFound)).unwrap_err(), CollectError::NotFound);
}

#[test]
fn kind_goes_by_metadata_not_by_name() {
    assert_eq!(detect_path_type(true), PathKind::Folder);
    assert_eq!(detect_path_type(false), PathKind::File);
    let record = read_entry(&read("looks-like-a-file.txt", true, 1, 1)).unwrap();
    assert_eq!(record.kind(), PathKind::Folder);
}

#[test]
fn folders_state_no_size() {
    assert_eq!(get_path_size(PathKind::File, 412), 412);
    assert_eq!(get_path_size(PathKind::File, 0), 0);
    assert_eq!(get_path_size(PathKind::Folder, 4096), 0);
}

#[test]
fn valid_names() {
    assert!(is_valid_name("main.rs"));
    assert!(is_valid_name(".hidden"));
    assert!(is_valid_name("with space"));
    assert!(is_valid_name("größe"));
    assert!(is_valid_name("back\\slash"));
    assert!(!is_valid_name(""));
    assert!(!is_valid_name("/"));
    assert!(!is_valid_name("a/b"));
    assert!(!is_valid_name("trailing/"));
    assert!(PathRecord::new("x".to_string(), PathKind::File, 0, 0).is_some());
    assert!(PathRecord::new("".to_string(), PathKind::File, 0, 0).is_none());
    assert!(PathRecord::new("a/b".to_string(), PathKind::Folder, 0, 0).is_none());
}
