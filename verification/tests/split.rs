//! The split writer and the per-file processor: reopen-on-change
//! grouping, dropped undated lines, skipping unclassified files, and the
//! append semantics of repeated runs.

use std::collections::HashMap;

use logboop::processor::{one_file, output_file_name, FileProcessor};
use logboop::splitter::{plan_splits, LineAction, SplitState, WriteOp};

fn iso_lines(texts: &[&str]) -> Vec<String> {
    texts.iter().map(|t| t.to_string()).collect()
}

/// Carry a plan out against an in-memory file system: append each line to
/// the file of its date, exactly as the plan orders.
fn apply(ops: &[WriteOp], files: &mut HashMap<String, Vec<String>>) {
    for op in ops {
        files.entry(op.date.clone()).or_insert_with(Vec::new).push(op.line.clone());
    }
}

#[test]
fn reopen_on_change_not_single_pass_grouping() {
    // Dates D1, D1, D2, D1 in that order: two files come out, D1 holding
    // lines 1, 2 and 4 and D2 holding line 3, with the writer switching
    // files at lines 1, 3 and 4.
    let lines = iso_lines(&[
        "2020-01-01 a",
        "2020-01-01 b",
        "2020-01-02 c",
        "2020-01-01 d",
    ]);
    let ops = one_file("in/app.log.1".to_string(), "out/app.log".to_string(), &lines, 1999)
        .expect("an Iso file must classify");
    assert_eq!(ops.len(), 4);
    let dates: Vec<&str> = ops.iter().map(|o| o.date.as_str()).collect();
    assert_eq!(dates, vec!["2020-01-01", "2020-01-01", "2020-01-02", "2020-01-01"]);
    let opens: Vec<bool> = ops.iter().map(|o| o.opens).collect();
    assert_eq!(opens, vec![true, false, true, true]);

    let mut files = HashMap::new();
    apply(&ops, &mut files);
    assert_eq!(files.len(), 2);
    assert_eq!(
        files["2020-01-01"],
        vec!["2020-01-01 a", "2020-01-01 b", "2020-01-01 d"]
    );
    assert_eq!(files["2020-01-02"], vec!["2020-01-02 c"]);
}

#[test]
fn undated_lines_reach_no_file() {
    let lines = iso_lines(&[
        "2020-01-01 first",
        "    continuation without a date",
        "2020-01-02 second",
    ]);
    let ops = one_file("in/a.1".to_string(), "out/a".to_string(), &lines, 1999).unwrap();
    // Fewer appends than lines, because one line had no date.
    assert_eq!(ops.len(), 2);
    let mut files = HashMap::new();
    apply(&ops, &mut files);
    let total: usize = files.values().map(|v| v.len()).sum();
    assert!(total <= lines.len());
    assert_eq!(total, 2);
    for contents in files.values() {
        assert!(!contents.iter().any(|l| l.contains("continuation")));
    }
}

#[test]
fn all_dated_lines_keep_the_count() {
    let lines = iso_lines(&["2020-01-01 a", "2020-01-02 b"]);
    let ops = one_file("in/a.1".to_string(), "out/a".to_string(), &lines, 1999).unwrap();
    assert_eq!(ops.len(), lines.len());
}

#[test]
fn rerun_appends_duplicate_lines() {
    // Running the same file twice without deletion doubles each dated
    // file's lines: append, never truncate.
    let lines = iso_lines(&["2020-01-01 a", "2020-01-02 b", "2020-01-01 c"]);
    let ops = one_file("in/a.1".to_string(), "out/a".to_string(), &lines, 1999).unwrap();
    let mut files = HashMap::new();
    apply(&ops, &mut files);
    apply(&ops, &mut files);
    assert_eq!(
        files["2020-01-01"],
        vec!["2020-01-01 a", "2020-01-01 c", "2020-01-01 a", "2020-01-01 c"]
    );
    assert_eq!(files["2020-01-02"], vec!["2020-01-02 b", "2020-01-02 b"]);
}

#[test]
fn unclassified_file_is_skipped() {
    let lines = iso_lines(&["no date on the first line", "2020-01-01 too late"]);
    let r = one_file("in/a.1".to_string(), "out/a".to_string(), &lines, 1999);
    assert!(r.is_none());
}

#[test]
fn empty_file_is_skipped() {
    let lines: Vec<String> = Vec::new();
    let r = one_file("in/a.1".to_string(), "out/a".to_string(), &lines, 1999);
    assert!(r.is_none());
}

#[test]
fn sentinel_lines_group_into_one_bucket() {
    let lines = iso_lines(&["2020-01-01 good", "2020-99-99 bad", "2021-13-01 also bad"]);
    let ops = one_file("in/a.1".to_string(), "out/a".to_string(), &lines, 1999).unwrap();
    let mut files = HashMap::new();
    apply(&ops, &mut files);
    assert_eq!(files["0001-01-01"].len(), 2);
}

#[test]
fn processor_classifies_then_processes() {
    let mut proco = FileProcessor::new("in/b.2".to_string(), "out/b".to_string());
    assert!(proco.logtype.is_none());
    proco.determine_type("May 17 03:12:01 host CRON: session opened");
    assert!(proco.logtype.is_some());
    let lines = iso_lines(&["May 17 one", "May 18 two"]);
    let ops = proco.process(&lines, 2020).unwrap();
    assert_eq!(ops.len(), 2);
    assert_eq!(ops[0].date, "2020-05-17");
    assert_eq!(ops[1].date, "2020-05-18");
    assert!(ops[0].opens && ops[1].opens);
}

#[test]
fn processor_without_format_plans_nothing() {
    let proco = FileProcessor::new("in/c.1".to_string(), "out/c".to_string());
    let lines = iso_lines(&["2020-01-01 a"]);
    assert!(proco.process(&lines, 2020).is_none());
}

#[test]
fn plan_splits_follows_date_changes() {
    let pairs = vec![
        (Some("2020-01-01".to_string()), "a".to_string()),
        (None, "dropped".to_string()),
        (Some("2020-01-01".to_string()), "b".to_string()),
        (Some("2020-01-02".to_string()), "c".to_string()),
    ];
    let ops = plan_splits(&pairs);
    assert_eq!(ops.len(), 3);
    assert!(ops[0].opens);
    assert!(!ops[1].opens);
    assert!(ops[2].opens);
    assert_eq!(ops[1].line, "b");
}

#[test]
fn split_state_decides_per_line() {
    let mut st = SplitState::new();
    assert_eq!(st.step(&None), LineAction::Skip);
    let d1 = Some("2020-01-01".to_string());
    let d2 = Some("2020-01-02".to_string());
    assert_eq!(st.step(&d1), LineAction::SwitchTo);
    assert_eq!(st.step(&d1), LineAction::Append);
    assert_eq!(st.step(&None), LineAction::Skip);
    assert_eq!(st.step(&d2), LineAction::SwitchTo);
    assert_eq!(st.step(&d1), LineAction::SwitchTo);
}

#[test]
fn output_names_join_prefix_and_date() {
    let name = output_file_name("out/var/log/syslog", "2020-05-12");
    assert_eq!(name, "out/var/log/syslog-2020-05-12");
}
