use sap_pipeline::config::ArchiveConfig;
use sap_pipeline::config::FilesConfig;
use sap_pipeline::file_utils::FileCandidate;
use sap_pipeline::file_utils::FileWatcher;
use sap_pipeline::file_utils::PollDecision;
use sap_pipeline::timestamp::CivilTime;
use sap_pipeline::timestamp::parse_timestamp_prefix;

fn files_config(prefix: bool) -> FilesConfig {
    FilesConfig {
        output_dir: "/tmp/reports".to_string(),
        file_glob: "*.txt".to_string(),
        filename_timestamp_prefix: prefix,
        stable_size_check_secs: 1,
    }
}

fn candidate(name: &str, mtime_secs: i64, mtime_nanos: u32) -> FileCandidate {
    FileCandidate { name: name.to_string(), mtime_secs, mtime_nanos }
}

#[test]
fn test_find_newest_file() {
    let watcher = FileWatcher::new(&files_config(false)).unwrap();

    // Two files created 100 milliseconds apart, within the same second.
    let candidates = vec![
        candidate("old_file.txt", 1_700_000_000, 0),
        candidate("new_file.txt", 1_700_000_000, 100_000_000),
    ];

    let newest = watcher.find_newest_file(&candidates);
    assert!(newest.is_some());
    assert_eq!(candidates[newest.unwrap()].name, "new_file.txt");
}

#[test]
fn test_timestamp_parsing() {
    let watcher = FileWatcher::new(&files_config(true)).unwrap();

    // Modification times say the opposite; the filename prefixes decide.
    let candidates = vec![
        candidate("20251016170601_y_149-ALL.txt", 2_000_000_000, 0),
        candidate("20251016170602_y_149-ALL.txt", 1_000_000_000, 0),
    ];

    let newest = watcher.find_newest_file(&candidates);
    assert!(newest.is_some());
    assert_eq!(candidates[newest.unwrap()].name, "20251016170602_y_149-ALL.txt");
}

#[test]
fn test_find_newest_empty_is_none() {
    let watcher = FileWatcher::new(&files_config(true)).unwrap();
    assert!(watcher.find_newest_file(&Vec::new()).is_none());
}

#[test]
fn test_invalid_prefix_falls_back_to_mtime() {
    let watcher = FileWatcher::new(&files_config(true)).unwrap();
    // "20251399..." is fourteen digits but no real date: month 13, day 99.
    let candidates = vec![
        candidate("20251399990000_bad.txt", 1_000, 0),
        candidate("no_prefix_at_all.txt", 2_000, 0),
    ];
    let newest = watcher.find_newest_file(&candidates);
    assert_eq!(candidates[newest.unwrap()].name, "no_prefix_at_all.txt");
}

#[test]
fn test_prefix_ties_keep_first_seen() {
    let watcher = FileWatcher::new(&files_config(true)).unwrap();
    let candidates = vec![
        candidate("20250101000000_a.txt", 0, 0),
        candidate("20250101000000_b.txt", 0, 0),
    ];
    assert_eq!(watcher.find_newest_file(&candidates), Some(0));
}

#[test]
fn test_parse_timestamp_prefix_values() {
    let chars = |s: &str| s.chars().collect::<Vec<char>>();
    // The Unix epoch itself.
    assert_eq!(parse_timestamp_prefix(&chars("19700101000000_x.txt")), Some(0));
    // One day, one hour, one minute and one second later.
    assert_eq!(
        parse_timestamp_prefix(&chars("19700102010101_x.txt")),
        Some(86400 + 3661)
    );
    // 2025-10-16 17:06:01 UTC.
    assert_eq!(
        parse_timestamp_prefix(&chars("20251016170601_y_149-ALL.txt")),
        Some(1_760_634_361)
    );
    // A leap day parses; the same date in a common year does not.
    assert!(parse_timestamp_prefix(&chars("20240229120000.txt")).is_some());
    assert!(parse_timestamp_prefix(&chars("20230229120000.txt")).is_none());
    // Too short, non-digit, and out-of-range fields are refused.
    assert!(parse_timestamp_prefix(&chars("2025101617060")).is_none());
    assert!(parse_timestamp_prefix(&chars("2025101617060a.txt")).is_none());
    assert!(parse_timestamp_prefix(&chars("20251016240601.txt")).is_none());
    assert!(parse_timestamp_prefix(&chars("20251016176001.txt")).is_none());
    assert!(parse_timestamp_prefix(&chars("20251016170660.txt")).is_none());
    assert!(parse_timestamp_prefix(&chars("20251000170601.txt")).is_none());
}

#[test]
fn test_archive_file_name_appends_timestamp() {
    let archive = ArchiveConfig {
        enabled: true,
        path: "/tmp/archive".to_string(),
        append_timestamp: true,
    };
    let watcher = FileWatcher::new(&files_config(true)).unwrap().with_archive(&archive);
    let now = CivilTime { year: 2025, month: 1, day: 15, hour: 14, minute: 30, second: 22 };
    assert_eq!(
        watcher.archive_file_name("report.txt", &now),
        "report_20250115_143022.txt"
    );
    assert_eq!(
        watcher.archive_file_name("archive.tar.gz", &now),
        "archive.tar_20250115_143022.gz"
    );
    assert_eq!(
        watcher.archive_file_name("no_extension", &now),
        "no_extension_20250115_143022"
    );
    assert_eq!(
        watcher.archive_file_name(".hidden", &now),
        ".hidden_20250115_143022"
    );
}

#[test]
fn test_archive_file_name_without_timestamp() {
    let archive = ArchiveConfig {
        enabled: true,
        path: "/tmp/archive".to_string(),
        append_timestamp: false,
    };
    let watcher = FileWatcher::new(&files_config(true)).unwrap().with_archive(&archive);
    let now = CivilTime { year: 2025, month: 1, day: 15, hour: 14, minute: 30, second: 22 };
    assert_eq!(watcher.archive_file_name("report.txt", &now), "report.txt");
}

#[test]
fn test_stability_gate_constant_size_succeeds() {
    // stable_size_check_secs = 1 demands two consecutive equal readings.
    let watcher = FileWatcher::new(&files_config(false)).unwrap();
    let mut gate = watcher.stability_gate();
    let mut polls = 0;
    let decision = loop {
        let d = gate.observe(Some(4096));
        polls += 1;
        match d {
            PollDecision::Continue => continue,
            other => break other,
        }
    };
    assert_eq!(decision, PollDecision::Stable);
    assert!(polls < 20);
}

#[test]
fn test_stability_gate_growing_file_times_out_and_proceeds() {
    let watcher = FileWatcher::new(&files_config(false)).unwrap();
    let mut gate = watcher.stability_gate();
    let mut size = 0u64;
    let mut polls = 0;
    let decision = loop {
        size += 512;
        let d = gate.observe(Some(size));
        polls += 1;
        match d {
            PollDecision::Continue => continue,
            other => break other,
        }
    };
    // Polling proceeds anyway at its ceiling; it never blocks forever.
    assert_eq!(decision, PollDecision::ProceedTimeout);
    assert_eq!(polls, 20);
}

#[test]
fn test_stability_gate_read_errors_do_not_reset() {
    let watcher = FileWatcher::new(&files_config(false)).unwrap();
    let mut gate = watcher.stability_gate();
    // One good reading, a failed read, then a matching reading: the
    // failed read neither extends nor resets the run of equal sizes.
    assert_eq!(gate.observe(Some(100)), PollDecision::Continue);
    assert_eq!(gate.observe(None), PollDecision::Continue);
    assert_eq!(gate.observe(Some(100)), PollDecision::Continue);
    assert_eq!(gate.observe(Some(100)), PollDecision::Stable);
}
