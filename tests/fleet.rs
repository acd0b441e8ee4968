use fleet_control::{resolve_root, summarize_fleet, FleetSummary, ProfileEntry};

fn usable() -> Option<Vec<String>> {
    Some(vec!["key_datas".to_string(), "settings0".to_string(), "map1".to_string()])
}

fn profile(name: &str, marker: Option<Vec<String>>) -> ProfileEntry {
    ProfileEntry { name: name.to_string(), path: format!("C:\\Farm\\{}", name), marker_entries: marker }
}

fn counts(s: &FleetSummary) -> (usize, usize, usize, usize) {
    (s.total, s.running, s.blocked, s.unknown)
}

#[test]
fn idle_fleet_is_all_unknown() {
    for n in 0..5 {
        let profiles: Vec<ProfileEntry> = (0..n).map(|i| profile(&format!("TG {}", i + 1), usable())).collect();
        let s = summarize_fleet(&profiles, &[]);
        assert_eq!(counts(&s), (n, 0, 0, n));
    }
}

#[test]
fn unrelated_processes_do_not_count() {
    let profiles = vec![profile("TG 1", usable()), profile("TG 2", usable())];
    let procs = vec!["C:\\Other\\Telegram.exe".to_string(), "C:\\Farm\\TG 10\\Telegram.exe".to_string()];
    assert_eq!(counts(&summarize_fleet(&profiles, &procs)), (2, 0, 0, 2));
}

#[test]
fn disabled_markers_are_blocked() {
    let profiles = vec![profile("TG 1", None), profile("TG 2", Some(Vec::new())), profile("TG 3", usable())];
    assert_eq!(counts(&summarize_fleet(&profiles, &[])), (3, 0, 2, 1));
}

#[test]
fn each_process_counts_for_one_profile() {
    let profiles = vec![profile("TG 1", None), profile("TG 2", None), profile("TG 3", usable())];
    let procs = vec![
        "c:/farm/tg 1/Telegram.exe".to_string(),
        "C:\\Farm\\TG 2\\Telegram.exe".to_string(),
    ];
    assert_eq!(counts(&summarize_fleet(&profiles, &procs)), (3, 2, 0, 1));
    // one process whose path names two profiles is taken by the first only
    let nested = vec![ProfileEntry { name: "a".to_string(), path: "/x/a".to_string(), marker_entries: None },
        ProfileEntry { name: "b".to_string(), path: "/x/b".to_string(), marker_entries: None }];
    let procs = vec!["/y/a/b/app".to_string()];
    assert_eq!(counts(&summarize_fleet(&nested, &procs)), (2, 1, 1, 0));
}

#[test]
fn root_falls_back_to_saved_setting() {
    assert_eq!(resolve_root(&Some("  /farm  ".to_string()), "/saved"), "/farm");
    assert_eq!(resolve_root(&Some("   ".to_string()), " /saved "), "/saved");
    assert_eq!(resolve_root(&None, ""), "");
}
