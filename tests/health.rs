use fleet_control::is_likely_logged_out;

fn names(v: &[&str]) -> Option<Vec<String>> {
    Some(v.iter().map(|s| s.to_string()).collect())
}

#[test]
fn unreadable_or_empty_marker_is_disabled() {
    assert!(is_likely_logged_out(&None));
    assert!(is_likely_logged_out(&Some(Vec::new())));
}

#[test]
fn ban_marker_is_disabled() {
    assert!(is_likely_logged_out(&names(&["key_datas", "settings0", "USER_BANNED"])));
    assert!(is_likely_logged_out(&names(&["key_datas", "settings0", "logout.flag", "map0"])));
}

#[test]
fn missing_core_artifact_is_disabled() {
    assert!(is_likely_logged_out(&names(&["a", "b", "c", "d"])));
}

#[test]
fn sparse_marker_is_disabled() {
    assert!(is_likely_logged_out(&names(&["key_datas", "settings0"])));
}

#[test]
fn full_session_is_usable() {
    assert!(!is_likely_logged_out(&names(&["key_datas", "Settings0", "D877F783D5D3EF8C"])));
    assert!(!is_likely_logged_out(&names(&["SESSION", "x", "y"])));
}
