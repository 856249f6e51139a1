use std::sync::Arc;

use hdr_auto::hdr::{DisplayTarget, HdrTargetState};
use hdr_auto::lists::{
    load_cached_game_lists, CachedGameLists, ListTexts, Unavailable, ALL_GAME_LIST_FLAGS, GAME_LIST_CUSTOM_FLAG,
};
use hdr_auto::monitor::{
    monitor_games, reload_game_lists, reload_game_lists_for_flags, replace_cached_game_lists, GameMonitor,
    MonitorAction, MonitorControl, ReloadError, ScanWait, POLL_INTERVAL_MS,
};
use hdr_auto::rules::ProcessEntry;

fn texts(default: &str, custom: &str, exclusions: Result<&str, i32>) -> ListTexts<i32> {
    ListTexts {
        default: Ok(default.to_string()),
        custom: Ok(custom.to_string()),
        exclusions: exclusions.map(|s| s.to_string()),
    }
}

fn lists(custom: &str) -> Arc<CachedGameLists> {
    Arc::new(load_cached_game_lists(texts("", custom, Ok("")), ALL_GAME_LIST_FLAGS).unwrap())
}

fn running(names: &[&str]) -> Result<Vec<ProcessEntry>, i32> {
    Ok(names
        .iter()
        .map(|name| ProcessEntry { exe_file: name.encode_utf16().chain(Some(0)).collect(), image_path: None })
        .collect())
}

fn snapshot() -> Vec<HdrTargetState> {
    vec![HdrTargetState { target: DisplayTarget { adapter_low: 0, adapter_high: 0, id: 1 }, enabled: false }]
}

#[test]
fn failed_reload_keeps_previous_cached_lists() {
    let initial = Arc::new(
        load_cached_game_lists(texts("default.exe\n", "old.exe\n", Ok("excluded.exe\n")), ALL_GAME_LIST_FLAGS)
            .unwrap(),
    );
    let mut control = MonitorControl::new(Arc::clone(&initial));

    assert!(replace_cached_game_lists(
        &mut control,
        texts("default.exe\n", "new.exe\n", Err(2)),
        ALL_GAME_LIST_FLAGS
    )
    .is_err());

    let (cached, revision) = control.game_lists().expect("monitor should still be active");
    assert!(Arc::ptr_eq(&cached, &initial));
    assert_eq!(revision, 0);
    assert!(cached.games.names.contains("old"));
    assert!(!cached.games.names.contains("new"));
}

#[test]
fn a_reload_puts_new_lists_in_use() {
    let mut control = MonitorControl::new(lists("old.exe"));
    assert_eq!(replace_cached_game_lists(&mut control, texts("", "new.exe", Ok("")), 3), Ok(()));
    let (cached, revision) = control.game_lists().unwrap();
    assert_eq!(revision, 1);
    assert!(cached.games.names.contains("new"));
    assert!(!cached.games.names.contains("old"));
}

#[test]
fn new_lists_are_scanned_with_at_once() {
    let mut control = MonitorControl::new(lists("a.exe"));
    assert_eq!(control.wait_for_next_scan(0), ScanWait::Sleep { millis: 1000 });
    assert!(control.scan_after_wait());
    let other = lists("b.exe");
    control.replace_game_lists(Arc::clone(&other));
    assert_eq!(control.wait_for_next_scan(0), ScanWait::ScanNow);
    assert_eq!(control.wait_for_next_scan(1), ScanWait::Sleep { millis: 1000 });
    assert!(Arc::ptr_eq(&control.game_lists().unwrap().0, &other));
    control.state.revision = u64::MAX;
    control.replace_game_lists(other);
    assert_eq!(control.state.revision, 0);
}

#[test]
fn a_wait_without_news_goes_on_with_the_same_lists() {
    let initial = lists("a.exe");
    let control = MonitorControl::new(Arc::clone(&initial));
    assert_eq!(POLL_INTERVAL_MS, 1000);
    assert_eq!(control.wait_for_next_scan(0), ScanWait::Sleep { millis: POLL_INTERVAL_MS });
    assert!(control.scan_after_wait());
    let (cached, revision) = control.game_lists().unwrap();
    assert!(Arc::ptr_eq(&cached, &initial));
    assert_eq!(revision, 0);
}

#[test]
fn a_stopped_monitor_gets_no_lists() {
    let mut control = MonitorControl::new(lists("a.exe"));
    control.shutdown();
    assert!(control.game_lists().is_none());
    assert_eq!(control.wait_for_next_scan(0), ScanWait::Stop);
    assert_eq!(control.wait_for_next_scan(9), ScanWait::Stop);
    assert!(!control.scan_after_wait());
    control.replace_game_lists(lists("b.exe"));
    assert!(control.game_lists().is_none());
}

#[test]
fn reloading_says_what_is_missing() {
    let mut control = MonitorControl::new(lists("a.exe"));
    assert!(matches!(
        reload_game_lists_for_flags::<i32>(None, Some(&mut control), 3),
        Err(ReloadError::Unavailable(Unavailable::Paths))
    ));
    assert!(matches!(
        reload_game_lists_for_flags(Some(texts("", "b", Ok(""))), None, 3),
        Err(ReloadError::Unavailable(Unavailable::Control))
    ));
    assert!(matches!(
        reload_game_lists_for_flags::<i32>(None, None, 3),
        Err(ReloadError::Unavailable(Unavailable::Paths))
    ));
    assert!(matches!(
        reload_game_lists_for_flags(Some(texts("", "b", Err(8))), Some(&mut control), 3),
        Err(ReloadError::Read(8))
    ));
    assert_eq!(control.state.revision, 0);
}

#[test]
fn reloading_goes_by_the_active_flags() {
    let mut control = MonitorControl::new(lists("a.exe"));
    let custom_only = Some(GAME_LIST_CUSTOM_FLAG);
    assert!(reload_game_lists(Some(texts("d.exe", "c.exe", Ok(""))), Some(&mut control), custom_only).is_ok());
    assert!(!control.state.game_lists.games.names.contains("d"));
    assert!(control.state.game_lists.games.names.contains("c"));
    assert!(reload_game_lists(Some(texts("d.exe", "c.exe", Ok(""))), Some(&mut control), None).is_ok());
    assert!(control.state.game_lists.games.names.contains("d"));
    assert_eq!(control.state.revision, 2);
}

#[test]
fn hdr_follows_the_game() {
    let lists = lists("game.exe");
    let mut monitor = GameMonitor::new();
    assert!(matches!(monitor_games(&mut monitor, &lists, running(&["x.exe"])), MonitorAction::Nothing));
    assert!(matches!(monitor_games(&mut monitor, &lists, running(&["Game.exe"])), MonitorAction::EnableHdr));
    monitor.hdr_enabled::<i32>(Ok(Some(snapshot())));
    assert!(matches!(monitor_games(&mut monitor, &lists, running(&["Game.exe"])), MonitorAction::Nothing));
    assert!(matches!(monitor_games(&mut monitor, &lists, Err(5)), MonitorAction::Nothing));
    match monitor_games(&mut monitor, &lists, running(&[])) {
        MonitorAction::Restore(states) => assert_eq!(states, snapshot()),
        _ => panic!("the displays should be restored"),
    }
    assert!(monitor.hdr_snapshot.is_none());
    assert!(matches!(monitor_games(&mut monitor, &lists, running(&[])), MonitorAction::Nothing));
    assert!(matches!(monitor_games(&mut monitor, &lists, running(&["game.exe"])), MonitorAction::EnableHdr));
}

#[test]
fn a_game_that_runs_from_the_start_is_left_alone() {
    let lists = lists("game.exe");
    let mut monitor = GameMonitor::new();
    assert!(matches!(monitor_games(&mut monitor, &lists, Err(5)), MonitorAction::Nothing));
    assert!(!monitor.initialized);
    assert!(matches!(monitor_games(&mut monitor, &lists, running(&["game.exe"])), MonitorAction::Nothing));
    assert!(monitor.initialized && monitor.was_running);
    assert!(matches!(monitor_games(&mut monitor, &lists, running(&[])), MonitorAction::Nothing));
}

#[test]
fn nothing_is_restored_where_nothing_was_changed() {
    let lists = lists("game.exe");
    for outcome in [Ok(None), Err(3)] {
        let mut monitor = GameMonitor::new();
        monitor_games(&mut monitor, &lists, running(&[]));
        assert!(matches!(monitor_games(&mut monitor, &lists, running(&["game"])), MonitorAction::EnableHdr));
        monitor.hdr_enabled::<i32>(outcome);
        assert!(matches!(monitor_games(&mut monitor, &lists, running(&[])), MonitorAction::Nothing));
    }
}

#[test]
fn a_list_that_is_emptied_counts_as_no_game() {
    let mut monitor = GameMonitor::new();
    monitor_games(&mut monitor, &lists("game.exe"), running(&[]));
    monitor_games(&mut monitor, &lists("game.exe"), running(&["game.exe"]));
    monitor.hdr_enabled::<i32>(Ok(Some(snapshot())));
    assert!(matches!(monitor_games(&mut monitor, &lists(""), Err(5)), MonitorAction::Restore(_)));
}
