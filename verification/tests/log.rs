use chatbot::log::{
    bucket_file_name, date_of_log_file, entry_lines, follow_new, make_entry, millis_to_date,
    millis_to_time, newest_first, reply_preview, rotated_lines, sort_by_time, Bucket, EventLogger, LocalTime,
    LogEvent, now_millis,
};
use chatbot::ui::theme::{BR_RED, RESET};

#[test]
fn file_names_and_dates() {
    assert_eq!(bucket_file_name(Bucket::Turns, "2024-05-01"), "turns-2024-05-01.jsonl");
    assert_eq!(date_of_log_file("errors-2024-05-01.jsonl"), Some("2024-05-01".to_string()));
    assert_eq!(date_of_log_file("events-2024-05-01.jsonl"), Some("2024-05-01".to_string()));
    assert_eq!(date_of_log_file("notes-2024-05-01.jsonl"), None);
    assert_eq!(date_of_log_file("turns-2024.jsonl"), None);
}

#[test]
fn utc_time_and_date_without_local_clock() {
    assert_eq!(millis_to_time(1_700_000_000_123, None), "22:13:20");
    assert_eq!(millis_to_date(1_700_000_000_123, None), "2023-11-14");
}

#[test]
fn local_clock_wins_when_known() {
    let t = LocalTime { year: 2024, month: 2, day: 9, hour: 7, minute: 5, second: 3 };
    assert_eq!(millis_to_time(0, Some(t)), "07:05:03");
    assert_eq!(millis_to_date(0, Some(t)), "2024-02-09");
}

#[test]
fn logger_events_carry_session_and_bucket() {
    let lg = EventLogger::new("s1".to_string());
    assert_eq!(lg.session_id(), "s1");
    let e = lg.error("tts", "boom");
    assert!(e.bucket() == Bucket::Errors);
    assert!(lg.session_end(3).bucket() == Bucket::Events);
    let entry = make_entry(1_000, None, e);
    assert_eq!(entry.ts, 1_000);
    assert_eq!(entry.time, "00:00:01");
    assert_eq!(entry.date, "1970-01-01");
}

#[test]
fn error_entry_lines() {
    let e = LogEvent::Error { session_id: "s".into(), stage: "asr".into(), msg: "down".into() };
    let lines = entry_lines("12:00:00", &e);
    assert_eq!(lines, vec![format!("   {BR_RED}12:00:00{RESET}  ❌ [asr] down")]);
}

#[test]
fn rotation_keeps_newest_seventy_percent() {
    let content = "1\n2\n3\n4\n5\n6\n7\n8\n9\n10\n";
    let kept = rotated_lines(content).unwrap();
    assert_eq!(kept, vec!["4", "5", "6", "7", "8", "9", "10"]);
    let three = rotated_lines("a\n\nb\nc").unwrap();
    assert_eq!(three, vec!["a", "b", "c"]);
    assert_eq!(rotated_lines("\n\n"), None);
}

#[test]
fn dates_newest_first_without_repeats() {
    let dates: Vec<String> = ["2024-01-02", "2024-03-01", "2024-01-02", "2023-12-31"]
        .iter()
        .map(|s| s.to_string())
        .collect();
    assert_eq!(newest_first(&dates), vec!["2024-03-01", "2024-01-02", "2023-12-31"]);
}

#[test]
fn entries_sorted_by_time_stably() {
    let sorted = sort_by_time(vec![(30, "a"), (10, "b"), (30, "c"), (20, "d"), (10, "e")]);
    assert_eq!(sorted, vec![(10, "b"), (10, "e"), (20, "d"), (30, "a"), (30, "c")]);
    let empty: Vec<(u64, ())> = Vec::new();
    assert!(sort_by_time(empty).is_empty());
}

#[test]
fn follow_prints_only_newer_entries() {
    assert_eq!(follow_new(&[5, 12, 11, 15], 10), (vec![1, 3], 15));
    assert_eq!(follow_new(&[5, 12, 11, 15], 20), (vec![], 20));
    assert_eq!(follow_new(&[], 7), (vec![], 7));
}

#[test]
fn long_replies_are_cut_on_a_character_boundary() {
    assert_eq!(reply_preview("short"), "short");
    let eighty = "a".repeat(80);
    assert_eq!(reply_preview(&eighty), eighty);
    let long = "a".repeat(90);
    assert_eq!(reply_preview(&long), format!("{}...", "a".repeat(77)));
    // 3-byte characters: 25 of them take 75 bytes, a 26th would pass 77.
    let wide = "字".repeat(30);
    assert_eq!(reply_preview(&wide), format!("{}...", "字".repeat(25)));
}

#[test]
fn clock_reads_after_2020() {
    assert!(now_millis() > 1_577_836_800_000);
}
