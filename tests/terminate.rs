use fleet_control::{
    authorized_pids, close_batch_dirs, filter_target_processes, get_pids_for_account_dirs,
    is_target_process, merge_settings, pids_for_accounts, single_account_targets, AppSettings,
    CloseError, CloseRetry, ProcessRecord, SettingsUpdate,
};

fn proc(pid: u32, path: &str) -> ProcessRecord {
    ProcessRecord { pid, name: "Telegram".to_string(), path: path.to_string() }
}

/// One batch termination against a fixed snapshot where every kill succeeds.
fn terminate_round(ids: &[i32], root: &str, snapshot: &[ProcessRecord]) -> usize {
    let mut retry = CloseRetry::new();
    while retry.should_scan() {
        let targets = pids_for_accounts(ids, root, snapshot).unwrap();
        if !retry.on_targets(&targets) {
            break;
        }
        for pid in targets {
            retry.on_killed(pid, true);
        }
        retry.finish_attempt();
    }
    retry.closed_count()
}

#[test]
fn terminate_on_empty_snapshot_twice_closes_nothing() {
    assert_eq!(terminate_round(&[1, 2], "/farm", &[]), 0);
    assert_eq!(terminate_round(&[1, 2], "/farm", &[]), 0);
}

#[test]
fn terminate_counts_each_pid_once() {
    let snapshot = vec![proc(10, "/farm/TG 1/Telegram.exe"), proc(11, "/farm/TG 2/Telegram.exe")];
    assert_eq!(terminate_round(&[1, 2], "/farm", &snapshot), 2);
}

#[test]
fn retry_policy() {
    let mut retry = CloseRetry::new();
    assert!(retry.should_scan());
    assert!(retry.on_targets(&[7, 8]));
    retry.on_killed(7, true);
    retry.on_killed(7, true);
    retry.on_killed(8, false);
    assert_eq!(retry.closed_count(), 1);
    assert_eq!(retry.finish_attempt(), 600);
    assert_eq!(retry.finish_attempt(), 600);
    assert_eq!(retry.finish_attempt(), 0);
    assert!(!retry.should_scan());
}

#[test]
fn single_profile_without_process_is_an_error() {
    let snapshot = vec![proc(6, "/farm/TG 6/Telegram.exe")];
    assert_eq!(single_account_targets(5, "/farm", &snapshot), Err(CloseError::NoProcessFound));
    assert_eq!(single_account_targets(5, "/farm", &[]), Err(CloseError::NoProcessFound));
    assert_eq!(single_account_targets(6, "/Farm", &snapshot), Ok(vec![6]));
    assert_eq!(single_account_targets(6, "  ", &snapshot), Err(CloseError::NotConfigured));
}

#[test]
fn only_processes_under_root_are_authorized() {
    let snapshot = vec![proc(1, "/farm/TG 1/Telegram.exe"), proc(2, "/farmhouse/Telegram.exe"), proc(3, "/other/x")];
    assert_eq!(authorized_pids(&[1, 2, 3, 4], &snapshot, " /Farm/ "), Ok(vec![1]));
    assert_eq!(authorized_pids(&[1], &snapshot, ""), Err(CloseError::NotConfigured));
}

#[test]
fn batch_dirs_need_a_root_only_when_ids_are_given() {
    assert_eq!(close_batch_dirs(&[], ""), Ok(Vec::new()));
    assert_eq!(close_batch_dirs(&[3], " "), Err(CloseError::NotConfigured));
    assert_eq!(close_batch_dirs(&[3], "/Farm"), Ok(vec!["/farm/tg 3".to_string()]));
}

#[test]
fn pids_are_reported_once_in_snapshot_order() {
    let snapshot = vec![
        proc(5, "/farm/TG 2/Telegram.exe"),
        proc(4, "/farm/TG 1"),
        proc(5, "/farm/TG 2/Telegram.exe"),
        proc(9, "/farm/TG 12/Telegram.exe"),
    ];
    let dirs = vec!["/farm/tg 1".to_string(), "/farm/tg 2".to_string()];
    assert_eq!(get_pids_for_account_dirs(&snapshot, &dirs), vec![5, 4]);
    assert!(get_pids_for_account_dirs(&snapshot, &[]).is_empty());
}

#[test]
fn target_processes_are_recognized() {
    assert!(is_target_process("Telegram.exe", ""));
    assert!(is_target_process("app", "C:\\X\\TELEGRAM.EXE"));
    assert!(is_target_process("app", "/opt/x/telegram"));
    assert!(is_target_process("app", "C:\\Program Files\\Telegram Desktop\\Updater.exe"));
    assert!(!is_target_process("bash", "/usr/bin/bash"));
    let kept = filter_target_processes(vec![proc(1, "/a"), ProcessRecord { pid: 2, name: "bash".to_string(), path: "/bin/bash".to_string() }]);
    assert_eq!(kept.iter().map(|p| p.pid).collect::<Vec<_>>(), vec![1]);
}

#[test]
fn settings_update_replaces_given_fields() {
    let current = AppSettings { telegram_threads: "2".to_string(), telegram_folder_path: "/a".to_string(), ..AppSettings::default() };
    let update = SettingsUpdate { telegram_folder_path: Some("/b".to_string()), chrome_threads: Some("4".to_string()), ..SettingsUpdate::default() };
    let merged = merge_settings(current, update);
    assert_eq!(merged.telegram_threads, "2");
    assert_eq!(merged.telegram_folder_path, "/b");
    assert_eq!(merged.chrome_threads, "4");
    assert_eq!(merged.chrome_folder_path, "");
}
