use llm_call::watcher::{is_relevant, ChangedPath, Debouncer, DEBOUNCE_NANOS};
use std::path::PathBuf;

const MS: u128 = 1_000_000;

fn change(path: &str) -> ChangedPath {
    let path = PathBuf::from(path);
    let file_name = path
        .file_name()
        .and_then(|name| name.to_str())
        .map(str::to_string);
    ChangedPath { path, file_name }
}

#[test]
fn only_skill_files_count() {
    assert!(is_relevant(&vec![change("skills/a/SKILL.md")]));
    assert!(is_relevant(&vec![change("skills/a/skill.MD")]));
    assert!(is_relevant(&vec![change("x.txt"), change("skills/a/Skill.md")]));
    assert!(!is_relevant(&vec![change("skills/a/SKILL.md.bak")]));
    assert!(!is_relevant(&vec![change("skills/SKILL.md/other")]));
    assert!(!is_relevant(&vec![change("..")]));
    assert!(!is_relevant(&vec![]));
}

#[test]
fn the_file_that_triggered_the_reload_is_named() {
    let mut debouncer = Debouncer::new();
    let event = debouncer
        .on_event(vec![change("/s/a.tmp"), change("/s/SKILL.md")], 0)
        .unwrap();
    assert_eq!(event.trigger_path, PathBuf::from("/s/SKILL.md"));
    assert_eq!(event.clone().trigger_path, event.trigger_path);
    let event = debouncer
        .on_event(vec![change("x"), change("b/skill.md"), change("a/SKILL.md")], 500 * MS)
        .unwrap();
    assert_eq!(event.trigger_path, PathBuf::from("b/skill.md"));
}

#[test]
fn changes_just_after_a_report_are_ignored() {
    assert_eq!(DEBOUNCE_NANOS, 300 * MS);
    let mut debouncer = Debouncer::new();
    assert!(debouncer.on_event(vec![change("SKILL.md")], 1000 * MS).is_some());
    assert!(debouncer.on_event(vec![change("SKILL.md")], 1000 * MS).is_none());
    assert!(debouncer.on_event(vec![change("SKILL.md")], 1300 * MS - 1).is_none());
    assert!(debouncer.on_event(vec![change("SKILL.md")], 1300 * MS).is_some());
    assert!(debouncer.on_event(vec![change("SKILL.md")], 1599 * MS).is_none());
    assert!(debouncer.on_event(vec![change("SKILL.md")], 1601 * MS).is_some());
}

#[test]
fn a_clock_that_runs_back_counts_as_no_time() {
    let mut debouncer = Debouncer::new();
    assert!(debouncer.on_event(vec![change("SKILL.md")], 5000 * MS).is_some());
    assert!(debouncer.on_event(vec![change("SKILL.md")], 10 * MS).is_none());
}

#[test]
fn other_files_do_not_count() {
    let mut debouncer = Debouncer::new();
    assert!(debouncer.on_event(vec![change("a.txt")], 0).is_none());
    assert!(debouncer.on_event(vec![change("SKILL.md")], 1).is_some());
    assert!(debouncer.on_event(vec![change("a.txt")], 301 * MS).is_none());
    assert!(debouncer.on_event(vec![change("SKILL.md")], 301 * MS).is_some());
}

#[test]
fn every_relevant_change_is_heard_and_reports_keep_their_distance() {
    let mut debouncer = Debouncer::new();
    let times = [0, 100, 250, 299, 300, 450, 900, 1000, 1199, 1200, 1201];
    let mut reports: Vec<u128> = vec![];
    for at in times {
        if debouncer.on_event(vec![change("SKILL.md")], at * MS).is_some() {
            reports.push(at);
        }
        assert!(reports.iter().any(|r| *r <= at && at < *r + 300));
    }
    assert_eq!(reports, vec![0, 300, 900, 1200]);
}
