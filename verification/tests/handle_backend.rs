use process_memory_reader::windows::matching_snapshot_pids;
use process_memory_reader::windows::module_name_matches;
use process_memory_reader::windows::read_bytes_outcome;
use process_memory_reader::windows::SnapshotEntry;
use process_memory_reader::MemoryReadError;

#[test]
fn failed_call_is_an_inaccessible_address() {
    let r = read_bytes_outcome(0x1000, 4, false, 0);
    assert_eq!(r, Err(MemoryReadError::InaccessibleMemoryAddress { address: 0x1000 }));
}

#[test]
fn short_read_reports_expected_and_actual() {
    let r = read_bytes_outcome(0x1000, 8, true, 3);
    assert_eq!(r, Err(MemoryReadError::LessBytesRead { expected: 8, actual: 3 }));
}

#[test]
fn full_read_succeeds() {
    assert_eq!(read_bytes_outcome(0x1000, 8, true, 8), Ok(()));
}

#[test]
fn module_names_match_case_insensitively() {
    assert!(module_name_matches("Notepad.EXE", "notepad.exe"));
    assert!(module_name_matches("kernel32.dll", "kernel32.dll"));
    assert!(!module_name_matches("kernel32.dll", "user32.dll"));
    assert!(!module_name_matches("kernel32.dll", "kernel32"));
}

fn entry(pid: u32, exe_name: &str) -> SnapshotEntry {
    SnapshotEntry { pid, exe_name: exe_name.as_bytes().to_vec() }
}

#[test]
fn snapshot_selection_is_exact_equality_in_order() {
    let entries: Vec<SnapshotEntry> = vec![
        entry(4, "System"),
        entry(100, "notepad.exe"),
        entry(200, "explorer.exe"),
        entry(300, "notepad.exe"),
    ];
    let query: Vec<u8> = b"notepad.exe".to_vec();
    assert_eq!(matching_snapshot_pids(&entries, &query), vec![100, 300]);
}

#[test]
fn snapshot_selection_is_case_sensitive_unlike_module_matching() {
    let entries: Vec<SnapshotEntry> = vec![entry(100, "Notepad.exe")];
    let query: Vec<u8> = b"notepad.exe".to_vec();
    assert!(matching_snapshot_pids(&entries, &query).is_empty());
}

#[test]
fn snapshot_with_no_match_selects_nothing_not_error() {
    let entries: Vec<SnapshotEntry> = vec![entry(4, "System"), entry(200, "explorer.exe")];
    let query: Vec<u8> = b"nonexistent-xyz".to_vec();
    assert!(matching_snapshot_pids(&entries, &query).is_empty());
    let none: Vec<SnapshotEntry> = vec![];
    assert!(matching_snapshot_pids(&none, &query).is_empty());
}
