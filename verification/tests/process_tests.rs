use procmon::process::{name_matches, refresh_list, ProcessItem, SortBy};

fn item(pid: u64, name: &str, cpu_centi: u64, memory_bytes: u64) -> ProcessItem {
    ProcessItem {
        pid,
        name: name.to_owned(),
        cpu_centi,
        memory_bytes,
    }
}

fn sample() -> Vec<ProcessItem> {
    vec![
        item(1, "bash", 50, 1_000_000),
        item(2, "chrome", 4000, 200_000_000),
        item(3, "Chrome Helper", 500, 50_000_000),
    ]
}

#[test]
fn scenario_filter_chrome_sort_cpu() {
    let r = refresh_list(sample(), "chrome", SortBy::Cpu);
    assert_eq!(r.len(), 2);
    assert_eq!(r[0].name, "chrome");
    assert_eq!(r[0].cpu_centi, 4000);
    assert_eq!(r[1].name, "Chrome Helper");
    assert_eq!(r[1].cpu_centi, 500);
}

#[test]
fn empty_filter_keeps_every_entry() {
    let r = refresh_list(sample(), "", SortBy::Cpu);
    assert_eq!(r.len(), 3);
}

#[test]
fn filter_is_case_insensitive_both_ways() {
    let r = refresh_list(sample(), "CHROME", SortBy::Pid);
    assert_eq!(r.len(), 2);
    let r = refresh_list(sample(), "helper", SortBy::Pid);
    assert_eq!(r.len(), 1);
    assert_eq!(r[0].name, "Chrome Helper");
}

#[test]
fn filter_drops_everything_when_nothing_matches() {
    let r = refresh_list(sample(), "firefox", SortBy::Cpu);
    assert_eq!(r.len(), 0);
}

#[test]
fn sort_by_pid_is_ascending() {
    let raw = vec![
        item(30, "c", 1, 1),
        item(10, "a", 2, 2),
        item(20, "b", 3, 3),
    ];
    let r = refresh_list(raw, "", SortBy::Pid);
    let pids: Vec<u64> = r.iter().map(|p| p.pid).collect();
    assert_eq!(pids, vec![10, 20, 30]);
}

#[test]
fn sort_by_cpu_is_descending() {
    let r = refresh_list(sample(), "", SortBy::Cpu);
    let cpus: Vec<u64> = r.iter().map(|p| p.cpu_centi).collect();
    assert_eq!(cpus, vec![4000, 500, 50]);
}

#[test]
fn sort_by_memory_is_descending() {
    let r = refresh_list(sample(), "", SortBy::Memory);
    let mems: Vec<u64> = r.iter().map(|p| p.memory_bytes).collect();
    assert_eq!(mems, vec![200_000_000, 50_000_000, 1_000_000]);
}

#[test]
fn sort_by_name_is_case_insensitive_lexicographic() {
    let raw = vec![
        item(1, "gamma", 0, 0),
        item(2, "Alpha", 0, 0),
        item(3, "beta", 0, 0),
    ];
    let r = refresh_list(raw, "", SortBy::Name);
    let names: Vec<&str> = r.iter().map(|p| p.name.as_str()).collect();
    assert_eq!(names, vec!["Alpha", "beta", "gamma"]);
}

#[test]
fn sort_keeps_equal_keys_together() {
    let raw = vec![
        item(1, "a", 100, 0),
        item(2, "b", 100, 0),
        item(3, "c", 200, 0),
    ];
    let r = refresh_list(raw, "", SortBy::Cpu);
    assert_eq!(r[0].cpu_centi, 200);
    assert_eq!(r[1].cpu_centi, 100);
    assert_eq!(r[2].cpu_centi, 100);
    let pids: Vec<u64> = r.iter().map(|p| p.pid).collect();
    assert_eq!(pids, vec![3, 1, 2], "entries with equal keys keep their input order");
}

#[test]
fn single_entry_list_sorts_to_itself() {
    let r = refresh_list(vec![item(7, "only", 1, 2)], "", SortBy::Name);
    assert_eq!(r.len(), 1);
    assert_eq!(r[0].pid, 7);
}

#[test]
fn name_matches_folds_case() {
    assert!(name_matches("Chrome Helper", "chrome"));
    assert!(name_matches("chrome", "CHROME"));
    assert!(name_matches("anything", ""));
    assert!(!name_matches("bash", "chrome"));
    assert!(!name_matches("", "chrome"));
}

#[test]
fn sort_key_cycles_through_all_four() {
    assert_eq!(SortBy::Pid.next(), SortBy::Name);
    assert_eq!(SortBy::Name.next(), SortBy::Cpu);
    assert_eq!(SortBy::Cpu.next(), SortBy::Memory);
    assert_eq!(SortBy::Memory.next(), SortBy::Pid);
    assert_eq!(SortBy::Pid.next().next().next().next(), SortBy::Pid);
}
