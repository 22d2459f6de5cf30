use gnome_mcp_bridge::order::sort_newest_first;
use gnome_mcp_bridge::records::{
    audit_lines, do_read_audit, do_read_pending, is_pending_file, AuditEntry, Fetched, PendingEntry,
    PendingFile,
};
use gnome_mcp_bridge::time::Timestamp;

fn at(secs: i64, nanos: u32) -> Timestamp {
    Timestamp::new(secs, nanos).unwrap()
}

fn audit(secs: i64, nanos: u32, agent: &str) -> AuditEntry {
    AuditEntry {
        timestamp: at(secs, nanos),
        agent_id: agent.to_string(),
        operation: "read".to_string(),
        target_path: "/tmp/x".to_string(),
        status: "Success".to_string(),
        duration_ms: 1,
        before_hash: None,
        after_hash: None,
        diff: None,
    }
}

fn pending(secs: i64, op_id: &str) -> PendingEntry {
    PendingEntry {
        op_id: op_id.to_string(),
        agent_id: "kimi".to_string(),
        tool: "write".to_string(),
        summary: "writes".to_string(),
        approved: false,
        created_at: at(secs, 0),
    }
}

fn agents(entries: &[AuditEntry]) -> Vec<&str> {
    entries.iter().map(|e| e.agent_id.as_str()).collect()
}

#[test]
fn blank_lines_are_left_out() {
    let body = "{\"a\":1}\n\n  \t\r\n{\"b\":2}\r\n\u{3000}\nnonsense";
    assert_eq!(audit_lines(body), vec!["{\"a\":1}", "{\"b\":2}", "nonsense"]);
    assert_eq!(audit_lines(""), Vec::<String>::new());
    assert_eq!(audit_lines("\n \n"), Vec::<String>::new());
}

#[test]
fn white_space_inside_a_line_stays() {
    assert_eq!(audit_lines("  x  \n"), vec!["  x  "]);
}

#[test]
fn an_appended_line_comes_last() {
    let log = "one\ntwo\n";
    assert_eq!(audit_lines(&format!("{}three\n", log)), vec!["one", "two", "three"]);
    assert_eq!(audit_lines(&format!("{}   \n", log)), vec!["one", "two"]);
    assert_eq!(audit_lines(&format!("{}three\r\n", log)), vec!["one", "two", "three"]);
    assert_eq!(audit_lines(&format!("{}three\r\r\n", log)), vec!["one", "two", "three\r"]);
    assert_eq!(audit_lines(&format!("{}\r\n", log)), vec!["one", "two"]);
}

#[test]
fn the_audit_log_is_newest_first() {
    let log = vec![
        Some(audit(10, 0, "a")),
        None,
        Some(audit(30, 5, "b")),
        Some(audit(30, 7, "c")),
        Some(audit(-5, 0, "d")),
    ];
    let shown = do_read_audit(Fetched::Found(log), 100).unwrap();
    assert_eq!(agents(&shown), vec!["c", "b", "a", "d"]);
}

#[test]
fn entries_of_one_time_keep_their_order() {
    let log = vec![
        Some(audit(1, 0, "a")),
        Some(audit(2, 0, "b")),
        Some(audit(1, 0, "c")),
        Some(audit(2, 0, "d")),
        Some(audit(1, 0, "e")),
    ];
    let shown = do_read_audit(Fetched::Found(log), 100).unwrap();
    assert_eq!(agents(&shown), vec!["b", "d", "a", "c", "e"]);
}

#[test]
fn the_newest_are_kept() {
    let log = || vec![Some(audit(1, 0, "a")), Some(audit(3, 0, "b")), Some(audit(2, 0, "c"))];
    let shown = do_read_audit(Fetched::Found(log()), 2).unwrap();
    assert_eq!(agents(&shown), vec!["b", "c"]);
    let shown = do_read_audit(Fetched::Found(log()), 0).unwrap();
    assert!(shown.is_empty());
    let shown = do_read_audit(Fetched::Found(log()), 3).unwrap();
    assert_eq!(agents(&shown), vec!["b", "c", "a"]);
}

#[test]
fn a_log_that_is_not_there_is_empty() {
    assert_eq!(do_read_audit(Fetched::Missing, 10), Ok(vec![]));
}

#[test]
fn a_log_that_cannot_be_read_is_an_error() {
    let log = Fetched::Failed("permission denied".to_string());
    assert_eq!(do_read_audit(log, 10), Err("permission denied".to_string()));
}

#[test]
fn sorting_agrees_with_std() {
    let mut seed: u64 = 7;
    let mut next = || {
        seed = seed.wrapping_mul(6364136223846793005).wrapping_add(1442695040888963407);
        seed >> 33
    };
    for len in 0..60 {
        let make: Vec<(i64, u32, String)> = (0..len)
            .map(|i| ((next() % 7) as i64 - 3, (next() % 3) as u32, format!("e{}", i)))
            .collect();
        let entries: Vec<AuditEntry> = make.iter().map(|(s, n, a)| audit(*s, *n, a)).collect();
        let mut expected = make;
        expected.sort_by_key(|e| std::cmp::Reverse((e.0, e.1)));
        let names: Vec<&str> = expected.iter().map(|e| e.2.as_str()).collect();
        assert_eq!(agents(&sort_newest_first(entries)), names);
    }
}

#[test]
fn only_json_files_are_read() {
    assert!(is_pending_file(&Some("json".to_string())));
    assert!(!is_pending_file(&Some("JSON".to_string())));
    assert!(!is_pending_file(&Some("jsonl".to_string())));
    assert!(!is_pending_file(&Some(String::new())));
    assert!(!is_pending_file(&None));
}

fn file(extension: Option<&str>, entry: Option<PendingEntry>) -> Option<PendingFile> {
    Some(PendingFile { extension: extension.map(|e| e.to_string()), entry })
}

#[test]
fn pending_approvals_are_newest_first() {
    let files = vec![
        file(Some("json"), Some(pending(1, "old"))),
        None,
        file(Some("json"), None),
        file(Some("tmp"), Some(pending(9, "other"))),
        file(None, Some(pending(9, "bare"))),
        file(Some("json"), Some(pending(5, "new"))),
    ];
    let shown = do_read_pending(Fetched::Found(files)).unwrap();
    let names: Vec<&str> = shown.iter().map(|p| p.op_id.as_str()).collect();
    assert_eq!(names, vec!["new", "old"]);
}

#[test]
fn a_pending_directory_that_is_not_there_is_empty() {
    assert_eq!(do_read_pending(Fetched::Missing), Ok(vec![]));
    let directory = Fetched::Failed("no access".to_string());
    assert_eq!(do_read_pending(directory), Err("no access".to_string()));
}

#[test]
fn points_in_time_have_a_date() {
    assert!(Timestamp::new(0, 0).is_some());
    assert!(Timestamp::new(-8_334_601_228_800, 0).is_some());
    assert!(Timestamp::new(-8_334_601_228_801, 0).is_none());
    assert!(Timestamp::new(8_210_266_876_799, 999_999_999).is_some());
    assert!(Timestamp::new(8_210_266_876_800, 0).is_none());
    assert!(Timestamp::new(0, 1_000_000_000).is_none());
    assert!(Timestamp::new(59, 1_999_999_999).is_some());
    assert!(Timestamp::new(-1, 1_000_000_000).is_some());
    assert!(Timestamp::new(-2, 1_000_000_000).is_none());
    assert!(Timestamp::new(59, 2_000_000_000).is_none());
    for secs in [-8_334_601_228_801i64, -8_334_601_228_800, -61, -1, 59, 8_210_266_876_799] {
        for nanos in [0u32, 999_999_999, 1_000_000_000, 1_999_999_999, 2_000_000_000] {
            let known = chrono::DateTime::<chrono::Utc>::from_timestamp(secs, nanos).is_some();
            assert_eq!(Timestamp::new(secs, nanos).is_some(), known);
        }
    }
}

#[test]
fn points_in_time_keep_their_parts() {
    let time = at(-7, 42);
    assert_eq!(time.secs(), -7);
    assert_eq!(time.nanos(), 42);
}

#[test]
fn earlier_and_later() {
    assert!(at(1, 9).is_before(&at(2, 0)));
    assert!(at(2, 0).is_before(&at(2, 1)));
    assert!(!at(2, 1).is_before(&at(2, 1)));
    assert!(!at(2, 1).is_before(&at(1, 5)));
    assert!(at(-2, 0).is_before(&at(-1, 0)));
}

#[test]
fn the_clock() {
    assert_eq!(at(0, 0).clock(), "00:00:00");
    assert_eq!(at(1_700_000_000, 5).clock(), "22:13:20");
    assert_eq!(at(-1, 0).clock(), "23:59:59");
    assert_eq!(at(86_399, 1_500_000_000).clock(), "23:59:60");
    assert_eq!(at(-8_334_601_228_800, 0).clock(), "00:00:00");
    assert_eq!(at(8_210_266_876_799, 0).clock(), "23:59:59");
}

#[test]
fn the_date() {
    assert_eq!(at(1_431_648_000, 0).date_and_time(), "2015-05-15 00:00:00 UTC");
    assert_eq!(at(0, 1_000_000).date_and_time(), "1970-01-01 00:00:00.001 UTC");
}
