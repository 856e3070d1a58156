use procmon::monitor::{Action, Key, Mode, Monitor, Snapshot, Status};
use procmon::record::{ProcessRecord, SortKey, SortOrder};

fn rec(pid: u32, name: &str, cpu: u32, mem_kb: u64) -> ProcessRecord {
    ProcessRecord::new(pid, name.to_string(), cpu, mem_kb)
}

fn snap(records: Vec<ProcessRecord>) -> Snapshot {
    Snapshot { records, cpu: 4250, mem_used_kb: 512, mem_total_kb: 2048 }
}

fn many(n: u32) -> Vec<ProcessRecord> {
    (1..=n).map(|i| rec(i, &format!("p{}", i), i * 10, u64::from(i))).collect()
}

fn pids(m: &Monitor) -> Vec<u32> {
    m.rows.iter().map(|r| r.pid).collect()
}

#[test]
fn starts_empty_and_normal() {
    let m = Monitor::new();
    assert_eq!(m.mode, Mode::Normal);
    assert_eq!(m.selected, None);
    assert_eq!(m.sort_key, SortKey::Cpu);
    assert_eq!(m.sort_order, SortOrder::Descending);
    assert_eq!(m.interval_ms, 1000);
    assert!(!m.paused);
}

#[test]
fn snapshot_fills_rows_and_history() {
    let mut m = Monitor::new();
    m.apply_snapshot(snap(vec![rec(1, "a", 1000, 100), rec(2, "b", 9000, 50)]));
    assert_eq!(pids(&m), vec![2, 1]);
    assert_eq!(m.selected, Some(0));
    assert_eq!(m.cpu_history.values(), vec![42]);
    assert_eq!(m.mem_history.values(), vec![25]);
}

#[test]
fn selection_is_clamped_after_shrink_and_cleared_when_empty() {
    let mut m = Monitor::new();
    m.apply_snapshot(snap(many(30)));
    m.go_end();
    assert_eq!(m.selected, Some(29));
    m.apply_snapshot(snap(many(5)));
    assert_eq!(m.selected, Some(4));
    m.apply_snapshot(snap(Vec::new()));
    assert_eq!(m.selected, None);
    m.apply_snapshot(snap(many(3)));
    assert_eq!(m.selected, Some(0));
}

#[test]
fn navigation_keys() {
    let mut m = Monitor::new();
    m.apply_snapshot(snap(many(25)));
    assert_eq!(m.handle_key(Key::Down), Action::Nothing);
    assert_eq!(m.selected, Some(1));
    m.handle_key(Key::PageDown);
    assert_eq!(m.selected, Some(11));
    m.handle_key(Key::PageDown);
    m.handle_key(Key::PageDown);
    assert_eq!(m.selected, Some(24));
    m.handle_key(Key::Down);
    assert_eq!(m.selected, Some(24));
    m.handle_key(Key::PageUp);
    assert_eq!(m.selected, Some(14));
    m.handle_key(Key::Home);
    assert_eq!(m.selected, Some(0));
    m.handle_key(Key::Up);
    assert_eq!(m.selected, Some(0));
    m.handle_key(Key::End);
    assert_eq!(m.selected, Some(24));
}

#[test]
fn filter_key_seeds_buffer_and_escape_keeps_filter() {
    let mut m = Monitor::new();
    m.apply_snapshot(snap(vec![rec(1, "a", 1000, 100), rec(2, "b", 9000, 50)]));
    m.handle_key(Key::Char('/'));
    assert_eq!(m.mode, Mode::FilterEditing);
    assert!(m.edit.is_empty());
    m.handle_key(Key::Char('a'));
    m.handle_key(Key::Enter);
    assert_eq!(m.mode, Mode::Normal);
    assert_eq!(m.filter, Some(vec!['a']));
    assert_eq!(pids(&m), vec![1]);
    m.handle_key(Key::Char('/'));
    assert_eq!(m.edit, vec!['a']);
    m.handle_key(Key::Char('x'));
    assert_eq!(m.handle_key(Key::Esc), Action::Nothing);
    assert_eq!(m.mode, Mode::Normal);
    assert_eq!(m.filter, Some(vec!['a']));
    assert_eq!(pids(&m), vec![1]);
}

#[test]
fn blank_commit_clears_filter() {
    let mut m = Monitor::new();
    m.apply_snapshot(snap(vec![rec(1, "a", 1000, 100), rec(2, "b", 9000, 50)]));
    m.handle_key(Key::Char('/'));
    m.handle_key(Key::Char('b'));
    m.handle_key(Key::Enter);
    assert_eq!(pids(&m), vec![2]);
    m.handle_key(Key::Char('/'));
    m.handle_key(Key::Backspace);
    m.handle_key(Key::Char(' '));
    m.handle_key(Key::Enter);
    assert_eq!(m.filter, None);
    assert_eq!(pids(&m), vec![2, 1]);
}

#[test]
fn commit_trims_and_ignores_control_chars() {
    let mut m = Monitor::new();
    m.handle_key(Key::Char('/'));
    for c in [' ', 'q', '\u{7}', 'p', '\t', '\u{3000}'] {
        m.handle_key(Key::Char(c));
    }
    assert_eq!(m.edit, vec![' ', 'q', 'p', '\u{3000}']);
    m.handle_key(Key::Enter);
    assert_eq!(m.filter, Some(vec!['q', 'p']));
}

#[test]
fn typing_in_filter_mode_does_not_quit() {
    let mut m = Monitor::new();
    m.handle_key(Key::Char('/'));
    assert_eq!(m.handle_key(Key::Char('q')), Action::Nothing);
    assert_eq!(m.mode, Mode::FilterEditing);
}

#[test]
fn details_popup_is_modal() {
    let mut m = Monitor::new();
    m.handle_key(Key::Char('i'));
    assert_eq!(m.mode, Mode::Normal);
    m.apply_snapshot(snap(many(3)));
    m.handle_key(Key::Char('i'));
    assert_eq!(m.mode, Mode::DetailsPopup);
    assert_eq!(m.handle_key(Key::Char('q')), Action::Nothing);
    assert_eq!(m.handle_key(Key::Down), Action::Nothing);
    assert_eq!(m.selected, Some(0));
    assert_eq!(m.mode, Mode::DetailsPopup);
    m.handle_key(Key::Esc);
    assert_eq!(m.mode, Mode::Normal);
}

#[test]
fn actions_from_normal_mode() {
    let mut m = Monitor::new();
    assert_eq!(m.handle_key(Key::Char('k')), Action::Nothing);
    m.apply_snapshot(snap(many(3)));
    assert_eq!(m.handle_key(Key::Char('k')), Action::Terminate(3));
    assert_eq!(m.handle_key(Key::F(5)), Action::Refresh);
    m.handle_key(Key::Char('p'));
    assert!(m.paused);
    assert!(!m.on_tick(10_000));
    assert_eq!(m.handle_key(Key::F(5)), Action::Refresh);
    assert_eq!(m.handle_key(Key::Char('q')), Action::Quit);
}

#[test]
fn sort_keys_and_interval_keys() {
    let mut m = Monitor::new();
    m.apply_snapshot(snap(vec![rec(1, "b", 1000, 100), rec(2, "a", 9000, 50)]));
    m.handle_key(Key::Char('s'));
    assert_eq!(m.sort_key, SortKey::Mem);
    assert_eq!(pids(&m), vec![1, 2]);
    m.handle_key(Key::Char('r'));
    assert_eq!(m.sort_order, SortOrder::Ascending);
    assert_eq!(pids(&m), vec![2, 1]);
    m.handle_key(Key::Char('s'));
    m.handle_key(Key::Char('s'));
    assert_eq!(m.sort_key, SortKey::Name);
    assert_eq!(pids(&m), vec![2, 1]);
    m.handle_key(Key::Char('+'));
    assert_eq!(m.interval_ms, 800);
    m.handle_key(Key::Char('-'));
    m.handle_key(Key::Char('-'));
    assert_eq!(m.interval_ms, 1200);
}

#[test]
fn status_messages() {
    let mut m = Monitor::new();
    m.sample_failed();
    assert_eq!(m.status, Status::SampleFailed);
    m.report_termination(7, true);
    assert_eq!(m.status, Status::Terminated(7));
    m.report_termination(8, false);
    assert_eq!(m.status, Status::TerminateFailed(8));
}
