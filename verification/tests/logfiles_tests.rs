use tondi_seeder::logfiles::{is_log_file_name, old_logs_to_remove, remaining_log_bytes, LogFileEntry};

fn entry(name: &str, modified: u64, size: u64) -> LogFileEntry {
    LogFileEntry { name: name.to_string(), modified, size }
}

#[test]
fn log_files_by_extension() {
    assert!(is_log_file_name("tondi_seeder.log"));
    assert!(is_log_file_name("tondi_seeder.log.2024-01-01.gz"));
    assert!(is_log_file_name("a.b.log"));
    assert!(!is_log_file_name("tondi_seeder.log.old"));
    assert!(!is_log_file_name(".log"));
    assert!(!is_log_file_name("notes.txt"));
    assert!(!is_log_file_name("log"));
    assert!(!is_log_file_name("file."));
    assert!(is_log_file_name("..log"));
}

#[test]
fn nothing_removed_within_the_limit() {
    let files = vec![entry("a.log", 3, 10), entry("b.log", 1, 10), entry("c.txt", 0, 10)];
    assert!(old_logs_to_remove(&files, 2).is_empty());
    assert!(old_logs_to_remove(&files, 5).is_empty());
}

#[test]
fn oldest_logs_removed_first() {
    let files = vec![
        entry("a.log", 30, 1),
        entry("notes.txt", 1, 1),
        entry("b.log", 10, 1),
        entry("c.gz", 20, 1),
        entry("d.log", 40, 1),
    ];
    assert_eq!(old_logs_to_remove(&files, 2), vec![2, 3]);
    assert_eq!(old_logs_to_remove(&files, 0), vec![2, 3, 0, 4]);
}

#[test]
fn disk_usage_of_kept_logs() {
    let files = vec![entry("a.log", 30, 100), entry("notes.txt", 1, 7), entry("b.gz", 10, 50)];
    assert_eq!(remaining_log_bytes(&files, &vec![false, false, false]), 150);
    assert_eq!(remaining_log_bytes(&files, &vec![true, false, false]), 50);
    assert_eq!(remaining_log_bytes(&files, &Vec::new()), 150);
}

#[test]
fn equally_old_logs_go_in_listing_order() {
    let files = vec![entry("c.log", 5, 1), entry("a.log", 5, 1), entry("b.log", 5, 1), entry("d.log", 9, 1)];
    assert_eq!(old_logs_to_remove(&files, 2), vec![0, 1]);
}
