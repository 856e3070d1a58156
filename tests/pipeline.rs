use procmon::pipeline::{filter_records, matches_folded, record_matches, run_pipeline, sort_records};
use procmon::record::{ProcessRecord, SortKey, SortOrder};

fn rec(pid: u32, name: &str, cpu: u32, mem_kb: u64) -> ProcessRecord {
    ProcessRecord::new(pid, name.to_string(), cpu, mem_kb)
}

fn two() -> Vec<ProcessRecord> {
    vec![rec(1, "a", 1000, 100), rec(2, "b", 9000, 50)]
}

fn pids(v: &[ProcessRecord]) -> Vec<u32> {
    v.iter().map(|r| r.pid).collect()
}

fn chars(s: &str) -> Vec<char> {
    s.chars().collect()
}

#[test]
fn cpu_descending_puts_busiest_first() {
    let out = run_pipeline(&two(), &None, SortKey::Cpu, SortOrder::Descending);
    assert_eq!(pids(&out), vec![2, 1]);
}

#[test]
fn filter_a_keeps_only_first_for_every_key() {
    for key in [SortKey::Cpu, SortKey::Mem, SortKey::Pid, SortKey::Name] {
        for order in [SortOrder::Ascending, SortOrder::Descending] {
            let out = run_pipeline(&two(), &Some(chars("a")), key, order);
            assert_eq!(pids(&out), vec![1]);
        }
    }
}

#[test]
fn output_is_sorted_permutation() {
    let recs = vec![
        rec(5, "e", 300, 7),
        rec(3, "c", 100, 9),
        rec(9, "i", 300, 1),
        rec(1, "a", 200, 9),
    ];
    let asc = run_pipeline(&recs, &None, SortKey::Cpu, SortOrder::Ascending);
    assert_eq!(pids(&asc), vec![3, 1, 5, 9]);
    let desc = run_pipeline(&recs, &None, SortKey::Cpu, SortOrder::Descending);
    assert_eq!(pids(&desc), vec![9, 5, 1, 3]);
    let mem = run_pipeline(&recs, &None, SortKey::Mem, SortOrder::Ascending);
    assert_eq!(pids(&mem), vec![9, 5, 3, 1]);
    let pid = run_pipeline(&recs, &None, SortKey::Pid, SortOrder::Descending);
    assert_eq!(pids(&pid), vec![9, 5, 3, 1]);
}

#[test]
fn equal_keys_keep_input_order() {
    let recs = vec![rec(4, "x", 5, 1), rec(2, "y", 5, 1), rec(7, "z", 5, 1)];
    let out = sort_records(&recs, SortKey::Cpu);
    assert_eq!(pids(&out), vec![4, 2, 7]);
}

#[test]
fn names_sort_without_case() {
    let recs = vec![rec(1, "beta", 0, 0), rec(2, "Alpha", 0, 0), rec(3, "alp", 0, 0)];
    let out = run_pipeline(&recs, &None, SortKey::Name, SortOrder::Ascending);
    assert_eq!(pids(&out), vec![3, 2, 1]);
}

#[test]
fn filter_matches_name_without_case_and_pid_text() {
    let recs = vec![rec(12, "Firefox", 0, 0), rec(345, "bash", 0, 0), rec(7, "fish", 0, 0)];
    let by_name = filter_records(&recs, &Some(chars("FI")));
    assert_eq!(pids(&by_name), vec![12, 7]);
    let by_pid = filter_records(&recs, &Some(chars("34")));
    assert_eq!(pids(&by_pid), vec![345]);
    let none = filter_records(&recs, &Some(chars("zzz")));
    assert!(none.is_empty());
    let all = filter_records(&recs, &None);
    assert_eq!(pids(&all), vec![12, 345, 7]);
}

#[test]
fn filtering_twice_changes_nothing() {
    let recs = vec![rec(1, "ab", 0, 0), rec(2, "b", 0, 0), rec(3, "xa", 0, 0)];
    let q = Some(chars("a"));
    let once = filter_records(&recs, &q);
    let twice = filter_records(&once, &q);
    assert_eq!(pids(&once), vec![1, 3]);
    assert_eq!(pids(&twice), pids(&once));
}

#[test]
fn folded_matching() {
    assert!(matches_folded(&chars("ir"), &chars("firefox"), &chars("12")));
    assert!(matches_folded(&chars("2"), &chars("firefox"), &chars("12")));
    assert!(!matches_folded(&chars("x2"), &chars("firefox"), &chars("12")));
    assert!(record_matches(&chars("fox"), &rec(1, "FireFOX", 0, 0)));
    assert!(!record_matches(&chars("FOX"), &rec(1, "FireFOX", 0, 0)));
}
