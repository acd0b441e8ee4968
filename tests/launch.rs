use fleet_control::{
    build_telegram_link, launch_args, launch_order, parse_batch_size, wants_shuffle, LaunchAction,
    LaunchRun, SpawnOutcome, TelegramLink,
};

fn params(app_name: &str, app_type: &str, ref_link: &str) -> TelegramLink {
    TelegramLink {
        app_name: app_name.to_string(),
        app_type: app_type.to_string(),
        ref_link: ref_link.to_string(),
        ..TelegramLink::default()
    }
}

/// Drives a run, answering each start with `outcome(profile, with_link)`;
/// returns the launched pids, the waits and the progress records.
fn drive(run: &mut LaunchRun, outcome: impl Fn(i32, bool) -> SpawnOutcome) -> (Vec<u64>, Vec<(usize, usize, i32)>) {
    let mut waits = Vec::new();
    let mut progress = Vec::new();
    loop {
        match run.next_action() {
            LaunchAction::Finish => break,
            LaunchAction::Spawn { profile, with_link } => {
                let step = run.record(outcome(profile, with_link));
                waits.push(step.wait_secs);
                if let Some(p) = step.progress {
                    progress.push((p.batch_index, p.batch_total, p.profile));
                }
            }
        }
    }
    (waits, progress)
}

#[test]
fn batch_stops_at_batch_size() {
    let mut run = LaunchRun::batched(vec![1, 2, 3, 4, 5, 6, 7], 3);
    let (waits, progress) = drive(&mut run, |p, _| SpawnOutcome::Started(p as u32 * 100));
    assert_eq!(run.launched, vec![100, 200, 300]);
    assert_eq!(waits, vec![3, 2, 3, 2, 3, 2]);
    assert_eq!(progress, vec![(1, 7, 1), (2, 7, 2), (3, 7, 3)]);
}

#[test]
fn batch_larger_than_list_launches_all() {
    let mut run = LaunchRun::batched(vec![4, 9], 5);
    drive(&mut run, |p, _| SpawnOutcome::Started(p as u32));
    assert_eq!(run.launched, vec![4, 9]);
}

#[test]
fn failures_are_skipped() {
    let mut run = LaunchRun::unbatched(vec![1, 2, 3]);
    let (waits, progress) = drive(&mut run, |p, with_link| match (p, with_link) {
        (1, _) => SpawnOutcome::Missing,
        (2, false) => SpawnOutcome::Failed,
        (2, true) => SpawnOutcome::Started(22),
        (_, false) => SpawnOutcome::Started(33),
        (_, true) => SpawnOutcome::Failed,
    });
    assert_eq!(run.launched, vec![33]);
    assert_eq!(waits, vec![0, 0, 2, 3, 0]);
    assert_eq!(progress, vec![(1, 3, 1), (2, 3, 2), (3, 3, 3)]);
}

#[test]
fn order_is_ascending_without_shuffle() {
    assert_eq!(launch_order(3, 7, false), vec![3, 4, 5, 6, 7]);
    assert!(launch_order(5, 4, false).is_empty());
    assert_eq!(launch_order(i32::MAX - 1, i32::MAX, false), vec![i32::MAX - 1, i32::MAX]);
}

#[test]
fn shuffle_keeps_ids_and_changes_order() {
    let ascending: Vec<i32> = (1..=20).collect();
    let mut differs = 0;
    for _ in 0..10 {
        let mut order = launch_order(1, 20, true);
        if order != ascending {
            differs += 1;
        }
        order.sort();
        assert_eq!(order, ascending);
    }
    assert!(differs >= 9);
}

#[test]
fn shuffle_flag_is_exact_yes() {
    assert!(wants_shuffle("yes"));
    assert!(!wants_shuffle("Yes"));
    assert!(!wants_shuffle("no"));
    assert!(!wants_shuffle(""));
}

#[test]
fn batch_size_parsing() {
    assert_eq!(parse_batch_size("3"), 3);
    assert_eq!(parse_batch_size("  4 "), 4);
    assert_eq!(parse_batch_size("+5"), 5);
    assert_eq!(parse_batch_size("0"), 1);
    assert_eq!(parse_batch_size("-2"), 1);
    assert_eq!(parse_batch_size("abc"), 1);
    assert_eq!(parse_batch_size(""), 1);
    assert_eq!(parse_batch_size("99999999999999999999999"), 1);
}

#[test]
fn links_for_apps() {
    assert_eq!(build_telegram_link(&params("getbonus", "app", "")), "tg://resolve?domain=getbonus&appname=app&startapp");
    assert_eq!(
        build_telegram_link(&params("rollsgame_bot", "app", "ref_xEmnaKUVPi")),
        "tg://resolve?domain=rollsgame_bot&appname=app&startapp=ref_xEmnaKUVPi"
    );
}

#[test]
fn link_takes_startapp_from_url() {
    assert_eq!(
        build_telegram_link(&params("bot", "app", "https://t.me/bot/app?x=1&startapp=abc%20d&startapp=z")),
        "tg://resolve?domain=bot&appname=app&startapp=abc d"
    );
    assert_eq!(
        build_telegram_link(&params("bot", "app", "startapp=xyz")),
        "tg://resolve?domain=bot&appname=app&startapp=startapp=xyz"
    );
    assert_eq!(
        build_telegram_link(&params("bot", "app", "https://t.me/bot?nostartapp=1")),
        "tg://resolve?domain=bot&appname=app&startapp=https://t.me/bot?nostartapp=1"
    );
}

#[test]
fn links_without_app_type() {
    assert_eq!(build_telegram_link(&params("bot", "", "")), "tg://resolve?domain=bot&start");
    assert_eq!(build_telegram_link(&params("bot", "", "r1")), "tg://resolve?domain=bot&start=r1");
}

#[test]
fn start_arguments() {
    let hidden = params("bot", "app", "");
    let plain = params("bot", "", "");
    assert_eq!(launch_args(&hidden, "tg://x", false), vec!["-startintray".to_string()]);
    assert_eq!(launch_args(&hidden, "tg://x", true), vec!["tg://x".to_string(), "-startintray".to_string()]);
    assert!(launch_args(&plain, "tg://x", false).is_empty());
    assert_eq!(launch_args(&plain, "tg://x", true), vec!["tg://x".to_string()]);
}
