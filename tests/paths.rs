use fleet_control::{build_account_dirs, normalize_path_for_match, profile_dir_path, profile_exe_path};
use fleet_control::paths::chars_dir_match;

fn chars(s: &str) -> Vec<char> {
    s.chars().collect()
}

#[test]
fn normalize_lowercases_and_unifies_separators() {
    assert_eq!(normalize_path_for_match("C:\\Farm\\TG 15\\"), "c:/farm/tg 15");
    assert_eq!(normalize_path_for_match("/Farm/TG 1///"), "/farm/tg 1");
    assert_eq!(normalize_path_for_match("/"), "");
    assert_eq!(normalize_path_for_match(""), "");
}

#[test]
fn normalize_is_idempotent() {
    for p in ["C:\\Farm\\TG 15\\", "/farm/tg 1", "D:/Accounts/", "\\\\server\\share\\x", "ПАПКА\\TG 2"] {
        let once = normalize_path_for_match(p);
        assert_eq!(normalize_path_for_match(&once), once);
    }
}

#[test]
fn profile_paths_are_joined_under_root() {
    assert_eq!(profile_dir_path("/farm", 15), "/farm/TG 15");
    assert_eq!(profile_dir_path("/farm/", -3), "/farm/TG -3");
    assert_eq!(profile_exe_path("/farm", 7), "/farm/TG 7/Telegram.exe");
    assert_eq!(profile_dir_path("/farm", i32::MIN), "/farm/TG -2147483648");
}

#[test]
fn process_path_matches_its_own_profile_only() {
    let path = chars(&normalize_path_for_match("/farm/TG 15/app.exe"));
    let dir15 = chars(&normalize_path_for_match(&profile_dir_path("/farm", 15)));
    let dir1 = chars(&normalize_path_for_match(&profile_dir_path("/farm", 1)));
    assert!(chars_dir_match(&path, &dir15));
    assert!(!chars_dir_match(&path, &dir1));
    assert!(chars_dir_match(&dir15, &dir15));
}

#[test]
fn account_dirs_stay_under_root() {
    let dirs = build_account_dirs(&[1, 15], "/Farm", "/farm");
    assert_eq!(dirs, vec!["/farm/tg 1".to_string(), "/farm/tg 15".to_string()]);
    let none = build_account_dirs(&[1, 2], "/Farm", "/elsewhere");
    assert!(none.is_empty());
    assert!(build_account_dirs(&[], "/farm", "/farm").is_empty());
}
