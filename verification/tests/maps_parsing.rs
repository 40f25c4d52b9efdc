use process_memory_reader::linux::find_by_name_in_entries;
use process_memory_reader::linux::parse_pid;
use process_memory_reader::linux::MapsEntry;
use process_memory_reader::maps::base_address_in_maps;
use process_memory_reader::maps::line_matches;
use process_memory_reader::maps::parse_map_line_address;

fn line(text: &str) -> Vec<u8> {
    text.as_bytes().to_vec()
}

#[test]
fn line_with_matching_suffix_matches() {
    let l = line("7f1200000000-7f1200021000 r-xp 00000000 08:01 393240 /usr/lib/libc.so.6");
    assert!(line_matches(&l, &line("libc.so.6")));
    assert!(line_matches(&l, &line("/usr/lib/libc.so.6")));
}

#[test]
fn line_without_matching_suffix_does_not_match() {
    let l = line("7f1200000000-7f1200021000 r-xp 00000000 08:01 393240 /usr/lib/libc.so.6");
    assert!(!line_matches(&l, &line("libm.so.6")));
    assert!(!line_matches(&l, &line("libc.so")));
}

#[test]
fn trailing_whitespace_is_trimmed_before_matching() {
    let l = line("400000-452000 r-xp 00000000 08:02 173521 /usr/bin/target\n");
    assert!(line_matches(&l, &line("/usr/bin/target")));
    let padded = line("  400000-452000 rw-p 00000000 00:00 0 [heap] \t\r\n");
    assert!(line_matches(&padded, &line("[heap]")));
}

#[test]
fn empty_line_matches_only_empty_name() {
    let l = line("   \t  ");
    assert!(line_matches(&l, &line("")));
    assert!(!line_matches(&l, &line("x")));
}

#[test]
fn start_field_parses_as_hexadecimal() {
    assert_eq!(parse_map_line_address(&line("7f1200000000-7f1200021000 r-xp")), Some(0x7f1200000000));
    assert_eq!(parse_map_line_address(&line("400000-452000")), Some(0x400000));
    assert_eq!(parse_map_line_address(&line("DEADbeef-ffff")), Some(0xDEADBEEF));
}

#[test]
fn malformed_start_field_parses_to_absent() {
    assert_eq!(parse_map_line_address(&line("")), None);
    assert_eq!(parse_map_line_address(&line("-400000 r-xp")), None);
    assert_eq!(parse_map_line_address(&line("40g000-452000")), None);
    assert_eq!(parse_map_line_address(&line("fffffffffffffffff-0")), None);
}

#[test]
fn base_address_of_first_matching_line() {
    let lines: Vec<Vec<u8>> = vec![
        line("400000-452000 r-xp 00000000 08:02 1 /usr/bin/target"),
        line("7f1200000000-7f1200021000 r-xp 00000000 08:01 2 /usr/lib/libc.so.6"),
        line("7f1200021000-7f1200040000 rw-p 00000000 08:01 2 /usr/lib/libc.so.6"),
    ];
    assert_eq!(base_address_in_maps(&lines, &line("libc.so.6")), Some(0x7f1200000000));
    assert_eq!(base_address_in_maps(&lines, &line("target")), Some(0x400000));
}

#[test]
fn absent_module_resolves_to_absent_not_error() {
    let lines: Vec<Vec<u8>> = vec![
        line("400000-452000 r-xp 00000000 08:02 1 /usr/bin/target"),
        line("7f1200000000-7f1200021000 r-xp 00000000 08:01 2 /usr/lib/libc.so.6"),
    ];
    assert_eq!(base_address_in_maps(&lines, &line("libnothere.so")), None);
    let empty: Vec<Vec<u8>> = vec![];
    assert_eq!(base_address_in_maps(&empty, &line("libc.so.6")), None);
}

#[test]
fn first_matching_line_decides_even_when_malformed() {
    let lines: Vec<Vec<u8>> = vec![
        line("zzz-452000 r-xp 00000000 08:02 1 /usr/bin/target"),
        line("400000-452000 r-xp 00000000 08:02 1 /usr/bin/target"),
    ];
    assert_eq!(base_address_in_maps(&lines, &line("target")), None);
}

#[test]
fn pid_text_parses_decimal_only() {
    assert_eq!(parse_pid(&line("1234")), Some(1234));
    assert_eq!(parse_pid(&line("1")), Some(1));
    assert_eq!(parse_pid(&line("")), None);
    assert_eq!(parse_pid(&line("self")), None);
    assert_eq!(parse_pid(&line("12a4")), None);
    assert_eq!(parse_pid(&line("4294967295")), Some(u32::MAX));
    assert_eq!(parse_pid(&line("4294967296")), None);
}

fn entry(pid_text: &str, first_line: &str) -> MapsEntry {
    MapsEntry { pid_text: line(pid_text), first_line: line(first_line) }
}

#[test]
fn enumeration_opens_matching_entries_in_order() {
    let entries: Vec<MapsEntry> = vec![
        entry("100", "400000-452000 r-xp 00000000 08:02 1 /usr/bin/alpha"),
        entry("200", "400000-452000 r-xp 00000000 08:02 1 /usr/bin/beta"),
        entry("300", "400000-452000 r-xp 00000000 08:02 1 /usr/bin/alpha"),
    ];
    let found = find_by_name_in_entries(&entries, &line("alpha"));
    let pids: Vec<u32> = found.iter().map(|p| p.pid).collect();
    assert_eq!(pids, vec![100, 300]);
}

#[test]
fn enumeration_skips_entries_that_spell_no_pid() {
    let entries: Vec<MapsEntry> = vec![
        entry("self", "400000-452000 r-xp 00000000 08:02 1 /usr/bin/alpha"),
        entry("250", "400000-452000 r-xp 00000000 08:02 1 /usr/bin/alpha"),
    ];
    let found = find_by_name_in_entries(&entries, &line("alpha"));
    let pids: Vec<u32> = found.iter().map(|p| p.pid).collect();
    assert_eq!(pids, vec![250]);
}

#[test]
fn enumeration_with_no_match_is_empty_not_error() {
    let entries: Vec<MapsEntry> = vec![
        entry("100", "400000-452000 r-xp 00000000 08:02 1 /usr/bin/alpha"),
    ];
    assert!(find_by_name_in_entries(&entries, &line("nonexistent-xyz")).is_empty());
    let none: Vec<MapsEntry> = vec![];
    assert!(find_by_name_in_entries(&none, &line("alpha")).is_empty());
}
