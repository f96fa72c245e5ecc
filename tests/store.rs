use frontend_log::append::{plan_append, AppendPlan};
use frontend_log::clock::{read_clock, ClockReading};
use frontend_log::config::{get_log_config, update_log_config, ConfigFault, LogConfig};
use frontend_log::entry::{render_line, LogEntry};
use frontend_log::error::LogError;
use frontend_log::listing::list_log_files;
use frontend_log::naming::{current_file_name, is_log_file_name, rotated_file_name};
use frontend_log::order::name_less;
use frontend_log::paths::check_log_path;
use frontend_log::policy::{plan_retention, select_for_eviction, should_rotate, sort_newest_first, FileStat};
use frontend_log::tail::read_tail;

fn stat(name: &str, modified: u64) -> FileStat {
    FileStat { name: name.to_string(), modified }
}

fn names(files: &[FileStat]) -> Vec<String> {
    files.iter().map(|f| f.name.clone()).collect()
}

fn fixed_clock() -> ClockReading {
    ClockReading {
        date: "2024-03-05".to_string(),
        stamp: "20240305_142233".to_string(),
        rfc3339: "2024-03-05T14:22:33.123456789+01:00".to_string(),
    }
}

fn config(micro_mb: i64, max_files: usize) -> LogConfig {
    LogConfig { max_file_size_micro_mb: micro_mb, max_files, enabled: true }
}

#[test]
fn default_config_values() {
    let c = get_log_config();
    assert_eq!(c.max_file_size_micro_mb, 10_000_000);
    assert_eq!(c.max_files, 5);
    assert!(c.enabled);
    assert_eq!(LogConfig::default(), c);
}

#[test]
fn validation_rejects_zero_size() {
    let r = update_log_config(&config(0, 5));
    assert!(matches!(r, Err(LogError::InvalidConfig(ConfigFault::NonPositiveSize))));
}

#[test]
fn validation_rejects_negative_size() {
    let r = update_log_config(&config(-1_000_000, 5));
    assert!(matches!(r, Err(LogError::InvalidConfig(ConfigFault::NonPositiveSize))));
}

#[test]
fn validation_rejects_zero_files() {
    let r = update_log_config(&config(10_000_000, 0));
    assert!(matches!(r, Err(LogError::InvalidConfig(ConfigFault::ZeroFiles))));
}

#[test]
fn validation_accepts_defaults() {
    assert!(update_log_config(&config(10_000_000, 5)).is_ok());
    assert!(update_log_config(&config(1, 1)).is_ok());
}

#[test]
fn rotation_threshold_is_strict() {
    // 10 MB is 10 * 1_048_576 bytes.
    assert!(!should_rotate(10 * 1_048_576, 10_000_000));
    assert!(should_rotate(10 * 1_048_576 + 1, 10_000_000));
    assert!(!should_rotate(0, 10_000_000));
    // One millionth of a megabyte is about one byte.
    assert!(!should_rotate(1, 1));
    assert!(should_rotate(2, 1));
    assert!(should_rotate(u64::MAX, i64::MAX));
}

#[test]
fn file_names_follow_convention() {
    assert_eq!(current_file_name("2024-03-05"), "frontend-2024-03-05.log");
    assert_eq!(
        rotated_file_name("2024-03-05", "20240305_142233"),
        "frontend-2024-03-05-20240305_142233.log"
    );
    assert!(is_log_file_name("frontend-2024-03-05.log"));
    assert!(is_log_file_name("frontend-2024-03-05-20240305_142233.log"));
    assert!(!is_log_file_name("backend-2024-03-05.log"));
    assert!(!is_log_file_name("frontend-2024-03-05.txt"));
    assert!(!is_log_file_name("frontend-"));
    assert!(!is_log_file_name(""));
}

#[test]
fn names_compare_lexicographically() {
    assert!(name_less("a", "b"));
    assert!(name_less("ab", "abc"));
    assert!(!name_less("abc", "ab"));
    assert!(!name_less("same", "same"));
    assert!(name_less("", "x"));
}

#[test]
fn listing_filters_and_sorts_descending() {
    let input = vec![
        "frontend-2024-03-04.log".to_string(),
        "notes.txt".to_string(),
        "frontend-2024-03-05.log".to_string(),
        "frontend-2024-03-05-20240305_101010.log".to_string(),
        "other.log".to_string(),
    ];
    let listed = list_log_files(input);
    assert_eq!(
        listed,
        vec![
            "frontend-2024-03-05.log".to_string(),
            "frontend-2024-03-05-20240305_101010.log".to_string(),
            "frontend-2024-03-04.log".to_string(),
        ]
    );
}

#[test]
fn listing_empty_directory() {
    assert!(list_log_files(Vec::new()).is_empty());
}

#[test]
fn clear_selects_every_stream_file_once() {
    let input = vec![
        "keep.txt".to_string(),
        "frontend-a.log".to_string(),
        "frontend-b.log".to_string(),
    ];
    let selected = list_log_files(input);
    assert_eq!(selected.len(), 2);
    // What is left after deleting holds no stream file: clearing again deletes nothing.
    let left = vec!["keep.txt".to_string()];
    assert!(list_log_files(left).is_empty());
}

#[test]
fn sort_orders_by_time_then_name() {
    let sorted = sort_newest_first(vec![stat("b", 5), stat("a", 9), stat("c", 5), stat("d", 1)]);
    assert_eq!(names(&sorted), vec!["a", "c", "b", "d"]);
}

#[test]
fn eviction_keeps_everything_within_limit() {
    let plan = select_for_eviction(vec![stat("x", 1), stat("y", 2)], 2);
    assert_eq!(plan.keep.len(), 2);
    assert!(plan.evict.is_empty());
}

#[test]
fn eviction_drops_oldest_beyond_limit() {
    let files = vec![
        stat("frontend-2024-03-05-20240305_100000.log", 100),
        stat("frontend-2024-03-05.log", 300),
        stat("frontend-2024-03-05-20240305_100001.log", 200),
    ];
    let plan = select_for_eviction(files, 2);
    assert_eq!(
        names(&plan.keep),
        vec!["frontend-2024-03-05.log", "frontend-2024-03-05-20240305_100001.log"]
    );
    assert_eq!(names(&plan.evict), vec!["frontend-2024-03-05-20240305_100000.log"]);
}

#[test]
fn third_append_with_tiny_threshold_keeps_two_files() {
    // Before the third append's write: two rotated files, the current file
    // rotated away, and a file outside the stream.
    let files = vec![
        stat("frontend-2024-03-05-20240305_100000.log", 100),
        stat("notes.txt", 1),
        stat("frontend-2024-03-05-20240305_100001.log", 200),
    ];
    let current = "frontend-2024-03-05.log".to_string();
    let plan = plan_retention(files, &current, 2);
    assert_eq!(names(&plan.keep), vec!["frontend-2024-03-05-20240305_100001.log"]);
    assert_eq!(names(&plan.evict), vec!["frontend-2024-03-05-20240305_100000.log"]);
    // With the current file written, two files of the stream remain.
    assert_eq!(plan.keep.len() + 1, 2);
}

#[test]
fn retention_never_touches_current_or_foreign_files() {
    let files = vec![
        stat("frontend-2024-03-05.log", 1),
        stat("frontend-2024-03-04.log", 50),
        stat("frontend-2024-03-03.log", 40),
        stat("readme.md", 0),
    ];
    let current = "frontend-2024-03-05.log".to_string();
    let plan = plan_retention(files, &current, 1);
    assert!(plan.keep.is_empty());
    assert_eq!(names(&plan.evict), vec!["frontend-2024-03-04.log", "frontend-2024-03-03.log"]);
    let few = plan_retention(vec![stat("frontend-2024-03-04.log", 5)], &current, 2);
    assert_eq!(names(&few.keep), vec!["frontend-2024-03-04.log"]);
    assert!(few.evict.is_empty());
}

#[test]
fn eviction_with_limit_one() {
    let plan = select_for_eviction(vec![stat("a", 1), stat("b", 3), stat("c", 2)], 1);
    assert_eq!(names(&plan.keep), vec!["b"]);
    assert_eq!(names(&plan.evict), vec!["c", "a"]);
}

#[test]
fn tail_returns_last_lines() {
    let content = "one\ntwo\nthree\nfour\n";
    assert_eq!(read_tail(content, Some(2)), "three\nfour");
    assert_eq!(read_tail(content, Some(1)), "four");
    assert_eq!(read_tail(content, Some(0)), "");
}

#[test]
fn tail_with_fewer_lines_returns_all() {
    assert_eq!(read_tail("one\ntwo", Some(5)), "one\ntwo");
    assert_eq!(read_tail("", Some(3)), "");
}

#[test]
fn tail_without_limit_returns_content() {
    assert_eq!(read_tail("a\r\nb\n", None), "a\r\nb\n");
}

#[test]
fn tail_drops_carriage_returns() {
    assert_eq!(read_tail("a\r\nb\r\nc", Some(2)), "b\nc");
    assert_eq!(read_tail("a\n\nb\n", Some(2)), "\nb");
}

#[test]
fn path_check_accepts_plain_names() {
    assert!(check_log_path("frontend-2024-03-05.log").is_ok());
    assert!(check_log_path("..hidden.log").is_ok());
    assert!(check_log_path("sub/file.log").is_ok());
    assert!(check_log_path("./file.log").is_ok());
    assert!(check_log_path(".x").is_ok());
}

#[test]
fn path_check_rejects_escapes() {
    for bad in ["../secret", "..", "a/../../b", "logs/..", "/etc/passwd", "\\windows", "C:x", "", "a\\..\\b", ".", "./", "./.", ".\\"] {
        assert!(matches!(check_log_path(bad), Err(LogError::InvalidPath)), "{}", bad);
    }
}

#[test]
fn render_line_format() {
    assert_eq!(
        render_line("2024-03-05T14:22:33+01:00", "INFO", "started", ""),
        "[2024-03-05T14:22:33+01:00] [INFO] started \n"
    );
}

#[test]
fn entry_upper_cases_level() {
    let e = LogEntry {
        timestamp: "T".to_string(),
        level: "warn".to_string(),
        message: "disk low".to_string(),
        details: Some("92%".to_string()),
    };
    assert_eq!(e.render(), "[T] [WARN] disk low 92%\n");
}

#[test]
fn append_on_empty_directory_plans_one_line() {
    let plan: AppendPlan = plan_append(
        &fixed_clock(),
        None,
        "info".to_string(),
        "started".to_string(),
        None,
        &get_log_config(),
    )
    .unwrap();
    assert_eq!(plan.current_file, "frontend-2024-03-05.log");
    assert!(plan.rotate_to.is_none());
    assert_eq!(plan.line, "[2024-03-05T14:22:33.123456789+01:00] [INFO] started \n");
    assert_eq!(plan.line.matches('\n').count(), 1);
}

#[test]
fn append_rotates_oversized_file_once() {
    let cfg = config(1, 2);
    let first = plan_append(&fixed_clock(), Some(500), "info".to_string(), "m".to_string(), None, &cfg).unwrap();
    assert_eq!(first.rotate_to.as_deref(), Some("frontend-2024-03-05-20240305_142233.log"));
    // The rotated file is gone; the next append starts a fresh current file.
    let second = plan_append(&fixed_clock(), None, "info".to_string(), "m".to_string(), None, &cfg).unwrap();
    assert!(second.rotate_to.is_none());
    let fresh = plan_append(&fixed_clock(), Some(0), "info".to_string(), "m".to_string(), None, &cfg).unwrap();
    assert!(fresh.rotate_to.is_none());
}

#[test]
fn append_disabled_does_nothing() {
    let mut cfg = get_log_config();
    cfg.enabled = false;
    assert!(plan_append(&fixed_clock(), Some(u64::MAX), "x".to_string(), "y".to_string(), None, &cfg).is_none());
}

#[test]
fn clock_reading_has_expected_shapes() {
    let c = read_clock();
    assert_eq!(c.date.len(), 10);
    assert_eq!(c.stamp.len(), 15);
    assert!(c.rfc3339.starts_with(&c.date));
    assert!(is_log_file_name(&current_file_name(&c.date)));
    let compact: String = c.date.chars().filter(|ch| *ch != '-').collect();
    assert!(c.stamp.starts_with(&compact));
    assert_eq!(&c.stamp[8..9], "_");
}
