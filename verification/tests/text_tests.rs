use habitat::batch::{default_parallelism, default_scheduler, JobStatus};
use habitat::labels::{finalizer_name, get_label, push_label, task_name_label, task_owner_label};
use habitat::text::{parse_u32, str_eq, trailing_segment, u64_dec};

#[test]
fn dec_renders_small_numbers() {
    assert_eq!(u64_dec(0), "0");
    assert_eq!(u64_dec(7), "7");
    assert_eq!(u64_dec(10), "10");
    assert_eq!(u64_dec(12345), "12345");
}

#[test]
fn dec_renders_largest_value() {
    assert_eq!(u64_dec(u64::MAX), "18446744073709551615");
}

#[test]
fn parse_accepts_plain_decimals() {
    assert_eq!(parse_u32("0"), Some(0));
    assert_eq!(parse_u32("42"), Some(42));
    assert_eq!(parse_u32("007"), Some(7));
    assert_eq!(parse_u32("4294967295"), Some(u32::MAX));
}

#[test]
fn parse_accepts_leading_plus() {
    assert_eq!(parse_u32("+7"), Some(7));
    assert_eq!(parse_u32("+"), None);
}

#[test]
fn parse_rejects_overflow_and_garbage() {
    assert_eq!(parse_u32("4294967296"), None);
    assert_eq!(parse_u32("99999999999999999999"), None);
    assert_eq!(parse_u32(""), None);
    assert_eq!(parse_u32("12a"), None);
    assert_eq!(parse_u32("a12"), None);
    assert_eq!(parse_u32("-3"), None);
    assert_eq!(parse_u32(" 3"), None);
}

#[test]
fn parse_matches_std() {
    for s in ["0", "007", "+7", "4294967295", "4294967296", "", "12a", "-3", "task"] {
        assert_eq!(parse_u32(s), s.parse::<u32>().ok(), "diverged on {:?}", s);
    }
}

#[test]
fn trailing_segment_after_last_dash() {
    assert_eq!(trailing_segment("task-0"), "0");
    assert_eq!(trailing_segment("a-b-c"), "c");
    assert_eq!(trailing_segment("abc"), "abc");
    assert_eq!(trailing_segment("x-"), "");
    assert_eq!(trailing_segment(""), "");
}

#[test]
fn trailing_segment_matches_std_split() {
    for s in ["task-0", "a-b-c", "abc", "x-", "", "-9", "a--3"] {
        assert_eq!(trailing_segment(s), s.split('-').last().unwrap(), "diverged on {:?}", s);
    }
}

#[test]
fn str_eq_compares_contents() {
    assert!(str_eq("abc", "abc"));
    assert!(!str_eq("abc", "abd"));
    assert!(!str_eq("abc", "ab"));
    assert!(str_eq("", ""));
}

#[test]
fn label_constants() {
    assert_eq!(task_owner_label(), "habitat-task-owner");
    assert_eq!(task_name_label(), "habitat-task");
    assert_eq!(finalizer_name(), "controller.batch.habitat");
}

#[test]
fn label_lookup_later_binding_wins() {
    let mut pairs: Vec<(String, String)> = Vec::new();
    assert_eq!(get_label(&pairs, "k"), None);
    push_label(&mut pairs, "k".to_string(), "v1".to_string());
    push_label(&mut pairs, "other".to_string(), "x".to_string());
    assert_eq!(get_label(&pairs, "k"), Some("v1".to_string()));
    push_label(&mut pairs, "k".to_string(), "v2".to_string());
    assert_eq!(get_label(&pairs, "k"), Some("v2".to_string()));
    assert_eq!(get_label(&pairs, "other"), Some("x".to_string()));
    assert_eq!(get_label(&pairs, "absent"), None);
}

#[test]
fn defaults() {
    assert_eq!(default_parallelism(), 1);
    assert_eq!(default_scheduler(), "default-scheduler");
    let s = JobStatus::default();
    assert_eq!(s.phase, None);
    assert_eq!(s.pending, None);
    assert_eq!(s.running, None);
    assert_eq!(s.terminating, None);
    assert_eq!(s.succeeded, None);
    assert_eq!(s.failed, None);
    assert_eq!(s.start_time, None);
    assert_eq!(s.completion_time, None);
}
