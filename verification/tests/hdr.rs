use hdr_auto::hdr::{
    active_display_paths, active_hdr_targets, changes_for_game, changes_result, display_target_hdr_enabled,
    display_target_hdr_enabled_legacy, display_target_hdr_enabled_v2, display_target_key, distinct_targets,
    enable_hdr_for_game, hdr_specific_display_config_unavailable, hdr_state_value, next_display, restore_hdr_targets,
    set_display_target_hdr_enabled, set_hdr_target_states, set_hdr_targets_enabled, toggle_hdr_menu_text,
    toggle_windows_hdr, windows_hdr_enabled, DisplayConfigGetAdvancedColorInfo2, DisplayPathQuery, DisplayTarget,
    HdrCall, HdrTargetState, TargetChange,
};
use hdr_auto::status::{is_not_found, registry_status_is, status_result, windows_status_is};

fn target(id: u32) -> DisplayTarget {
    DisplayTarget { adapter_low: 1, adapter_high: -2, id }
}

fn state(id: u32, enabled: bool) -> HdrTargetState {
    HdrTargetState { target: target(id), enabled }
}

fn change(id: u32, enabled: bool) -> TargetChange {
    TargetChange { target: target(id), enabled }
}

#[test]
fn statuses_are_results() {
    assert_eq!(status_result(0), Ok(()));
    assert_eq!(status_result(5), Err(5));
    assert!(windows_status_is(122, 122));
    assert!(!windows_status_is(0, 122));
    assert!(windows_status_is(-1, u32::MAX));
    assert!(registry_status_is(2, 2));
    assert!(!registry_status_is(2, 0));
    assert!(is_not_found(Some(2)));
    assert!(!is_not_found(Some(3)));
    assert!(!is_not_found(None));
}

#[test]
fn displays_are_told_apart_by_adapter_and_target() {
    assert_eq!(display_target_key(target(7)), (1, -2, 7));
    let other = DisplayTarget { adapter_low: 2, ..target(1) };
    let paths = [target(1), target(2), target(1), other, target(2)];
    assert_eq!(distinct_targets(&paths), vec![target(1), target(2), other]);
    assert!(distinct_targets(&[]).is_empty());
}

#[test]
fn display_paths_are_asked_for_three_times_at_most() {
    let start = DisplayPathQuery::Sizes { tried: 0 };
    assert_eq!(active_display_paths(start, 5, 9), DisplayPathQuery::Failed { code: 5 });
    let mut query = start;
    for round in 0..2u8 {
        query = active_display_paths(query, 0, 4);
        assert_eq!(query, DisplayPathQuery::Paths { tried: round });
        query = active_display_paths(query, 122, 4);
        assert_eq!(query, DisplayPathQuery::Sizes { tried: round + 1 });
    }
    query = active_display_paths(query, 0, 4);
    assert_eq!(active_display_paths(query, 122, 4), DisplayPathQuery::Failed { code: 122 });
    assert_eq!(active_display_paths(query, 31, 4), DisplayPathQuery::Failed { code: 31 });
    assert_eq!(active_display_paths(query, 0, 3), DisplayPathQuery::Done { count: 3 });
    let done = DisplayPathQuery::Done { count: 3 };
    assert_eq!(active_display_paths(done, 5, 1), done);
}

#[test]
fn the_hdr_call_tells_support_and_state() {
    let info = |value| DisplayConfigGetAdvancedColorInfo2 { value };
    assert_eq!(display_target_hdr_enabled_v2(0, info(0x30)), Ok(Some(true)));
    assert_eq!(display_target_hdr_enabled_v2(0, info(0x10)), Ok(Some(false)));
    assert_eq!(display_target_hdr_enabled_v2(0, info(0x20)), Ok(None));
    assert_eq!(display_target_hdr_enabled_v2(87, info(0x30)), Err(87));
    assert!(info(0x1f).high_dynamic_range_supported());
    assert!(!info(0x1f).high_dynamic_range_user_enabled());
}

#[test]
fn the_older_call_tells_support_and_state() {
    assert_eq!(display_target_hdr_enabled_legacy(0, 1, 1), Ok(Some(true)));
    assert_eq!(display_target_hdr_enabled_legacy(0, 1, 0), Ok(Some(false)));
    assert_eq!(display_target_hdr_enabled_legacy(0, 0, 1), Ok(None));
    assert_eq!(display_target_hdr_enabled_legacy(50, 1, 1), Err(50));
}

#[test]
fn the_older_call_is_for_windows_without_the_newer_one() {
    assert!(hdr_specific_display_config_unavailable(Some(87)));
    assert!(hdr_specific_display_config_unavailable(Some(50)));
    assert!(!hdr_specific_display_config_unavailable(Some(5)));
    assert!(!hdr_specific_display_config_unavailable(None));
    assert!(matches!(display_target_hdr_enabled(Ok(None)), HdrCall::Answered(Ok(None))));
    assert!(matches!(display_target_hdr_enabled(Ok(Some(true))), HdrCall::Answered(Ok(Some(true)))));
    assert!(matches!(display_target_hdr_enabled(Err(50)), HdrCall::TryLegacy));
    assert!(matches!(display_target_hdr_enabled(Err(31)), HdrCall::Answered(Err(31))));
    assert!(matches!(set_display_target_hdr_enabled(Ok(())), HdrCall::Answered(Ok(()))));
    assert!(matches!(set_display_target_hdr_enabled(Err(87)), HdrCall::TryLegacy));
    assert!(matches!(set_display_target_hdr_enabled(Err(2)), HdrCall::Answered(Err(2))));
    assert_eq!(hdr_state_value(true), 1);
    assert_eq!(hdr_state_value(false), 0);
}

#[test]
fn displays_that_cannot_show_hdr_are_left_out() {
    let targets = [target(1), target(2), target(3)];
    let answers: Vec<Result<Option<bool>, i32>> = vec![Ok(Some(true)), Ok(None), Ok(Some(false))];
    assert_eq!(active_hdr_targets(&targets, answers), Ok(vec![state(1, true), state(3, false)]));
    assert_eq!(active_hdr_targets(&targets, vec![Ok(Some(true)), Err(9)]), Err(9));
    assert_eq!(active_hdr_targets::<i32>(&[], vec![]), Ok(vec![]));
}

#[test]
fn hdr_is_on_where_some_display_has_it_on() {
    assert_eq!(windows_hdr_enabled::<i32>(Ok(vec![state(1, false), state(2, true)])), Ok(true));
    assert_eq!(windows_hdr_enabled::<i32>(Ok(vec![state(1, false)])), Ok(false));
    assert_eq!(windows_hdr_enabled::<i32>(Ok(vec![])), Ok(false));
    assert_eq!(windows_hdr_enabled(Err(4)), Err(4));
    assert_eq!(toggle_hdr_menu_text::<i32>(Ok(true)), "Toggle HDR Off");
    assert_eq!(toggle_hdr_menu_text::<i32>(Ok(false)), "Toggle HDR On");
    assert_eq!(toggle_hdr_menu_text(Err(4)), "Toggle HDR On");
}

#[test]
fn switching_turns_all_displays_off_or_all_on() {
    let mixed = vec![state(1, true), state(2, false), state(3, true)];
    assert_eq!(toggle_windows_hdr::<i32>(Ok(mixed)), Ok(vec![change(1, false), change(3, false)]));
    let off = vec![state(1, false), state(2, false)];
    assert_eq!(toggle_windows_hdr::<i32>(Ok(off)), Ok(vec![change(1, true), change(2, true)]));
    assert_eq!(toggle_windows_hdr::<i32>(Ok(vec![])), Ok(vec![]));
    assert_eq!(toggle_windows_hdr(Err(6)), Err(6));
}

#[test]
fn only_displays_in_another_state_are_changed() {
    let states = [state(1, true), state(2, false)];
    assert_eq!(set_hdr_targets_enabled(&states, true), vec![change(2, true)]);
    assert_eq!(set_hdr_targets_enabled(&states, false), vec![change(1, false)]);
    assert_eq!(changes_for_game(&states), vec![change(2, true)]);
    assert_eq!(set_hdr_target_states(&states), vec![change(1, true), change(2, false)]);
    assert_eq!(restore_hdr_targets(&states), vec![change(1, true), change(2, false)]);
}

#[test]
fn the_first_failure_of_changes_is_their_result() {
    assert_eq!(changes_result::<i32>(vec![]), Ok(()));
    assert_eq!(changes_result::<i32>(vec![Ok(()), Ok(())]), Ok(()));
    assert_eq!(changes_result(vec![Ok(()), Err(3), Err(4)]), Err(3));
}

#[test]
fn a_snapshot_is_kept_where_something_was_changed() {
    let snapshot = || vec![state(1, false), state(2, false)];
    assert_eq!(enable_hdr_for_game(snapshot(), vec![Err(3), Ok(())]), Ok(Some(snapshot())));
    assert_eq!(enable_hdr_for_game(snapshot(), vec![Err(3), Err(4)]), Err(3));
    assert_eq!(enable_hdr_for_game::<i32>(vec![state(1, true)], vec![]), Ok(None));
}

fn apply(displays: &mut [HdrTargetState], changes: &[TargetChange]) {
    for change in changes {
        for display in displays.iter_mut() {
            if display.target == change.target {
                display.enabled = change.enabled;
            }
        }
    }
}

#[test]
fn a_game_leaves_the_displays_as_they_were() {
    let before = vec![state(1, false), state(2, true), state(3, false)];
    let mut displays = before.clone();
    apply(&mut displays, &set_hdr_targets_enabled(&before, true));
    assert!(displays.iter().all(|display| display.enabled));
    displays[1].enabled = false;
    apply(&mut displays, &restore_hdr_targets(&before));
    assert_eq!(displays, before);
}

#[test]
fn asking_stops_at_the_first_failure() {
    let targets = [target(1), target(2), target(3)];
    let mut answers: Vec<Result<Option<bool>, i32>> = Vec::new();
    assert_eq!(next_display(&targets, &answers), Some(target(1)));
    answers.push(Ok(None));
    assert_eq!(next_display(&targets, &answers), Some(target(2)));
    answers.push(Err(9));
    assert_eq!(next_display(&targets, &answers), None);
    assert_eq!(active_hdr_targets(&targets, answers), Err(9));
    let all: Vec<Result<Option<bool>, i32>> = vec![Ok(None), Ok(Some(true)), Ok(None)];
    assert_eq!(next_display(&targets, &all), None);
    assert_eq!(next_display::<i32>(&[], &[]), None);
}
