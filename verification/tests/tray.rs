use hdr_auto::tray::{
    add_tray_icon, checked_if, choose_scaled_icon, gdiplus_error, gdiplus_made, icon_path, load_tray_icon, loword,
    menu_command, message_loop, remove_tray_icon, run_tray_app, scale_icon_for_tray, show_context_menu,
    window_proc, IconFate, IconPlace, IconStep, LoopStep, MenuCommand, SingleInstance, TrayStep, WindowAction,
    WM_CLOSE, WM_COMMAND, WM_DESTROY, WM_LBUTTONDBLCLK, WM_RBUTTONUP, WM_TRAY_ICON,
};

#[test]
fn one_instance_runs() {
    assert_eq!(SingleInstance::acquire(true, 0), SingleInstance::Acquired);
    assert_eq!(SingleInstance::acquire(true, 183), SingleInstance::AlreadyRunning);
    assert_eq!(SingleInstance::acquire(false, 183), SingleInstance::Failed);
}

#[test]
fn the_menu_shows_where_things_stand() {
    let entries: Vec<(u32, usize, Option<&str>)> = show_context_menu::<i32>(Ok(true), Some(3), false)
        .iter()
        .map(|entry| (entry.flags, entry.id, entry.text))
        .collect();
    assert_eq!(
        entries,
        vec![
            (0, 1001, Some("Toggle HDR Off")),
            (0x800, 0, None),
            (8, 1002, Some("Use default game list")),
            (0, 1004, Some("Edit custom game list")),
            (0, 1007, Some("Edit exclusion list")),
            (0, 1003, Some("Reload game lists")),
            (0x800, 0, None),
            (0, 1005, Some("Run at Windows startup")),
            (0x800, 0, None),
            (0, 1006, Some("Quit")),
        ]
    );
    let other = show_context_menu(Err(5), Some(2), true);
    assert_eq!(other[0].text, Some("Toggle HDR On"));
    assert_eq!(other[2].flags, 0);
    assert_eq!(other[7].flags, 8);
    assert_eq!(show_context_menu(Err(5), None, true)[2].flags, 8);
    assert_eq!(checked_if(true), 8);
    assert_eq!(checked_if(false), 0);
}

#[test]
fn every_item_of_the_menu_does_something() {
    let mut commands = Vec::new();
    for entry in show_context_menu::<i32>(Ok(false), None, false) {
        if entry.text.is_some() {
            let command = menu_command(entry.id).unwrap();
            let high = 0x1234_0000;
            assert_eq!(window_proc(WM_COMMAND, entry.id + high, 0), WindowAction::Run(command));
            assert!(!commands.contains(&command));
            commands.push(command);
        }
    }
    assert_eq!(commands.len(), 7);
}

#[test]
fn messages_lead_to_actions() {
    let tray = |lparam| window_proc(WM_TRAY_ICON, 1, lparam);
    assert_eq!(WM_TRAY_ICON, 0x8001);
    assert_eq!(tray(WM_RBUTTONUP as isize), WindowAction::ShowMenu);
    assert_eq!(tray(WM_LBUTTONDBLCLK as isize), WindowAction::Run(MenuCommand::ToggleHdr));
    assert_eq!(tray(0x200), WindowAction::Nothing);
    assert_eq!(tray(-1), WindowAction::Nothing);
    assert_eq!(window_proc(WM_COMMAND, 1002, 0), WindowAction::Run(MenuCommand::UseDefaultList));
    assert_eq!(window_proc(WM_COMMAND, 1003, 0), WindowAction::Run(MenuCommand::ReloadGameLists));
    assert_eq!(window_proc(WM_COMMAND, 1004, 0), WindowAction::Run(MenuCommand::EditCustomList));
    assert_eq!(window_proc(WM_COMMAND, 1007, 0), WindowAction::Run(MenuCommand::EditExclusionList));
    assert_eq!(window_proc(WM_COMMAND, 1005, 0), WindowAction::Run(MenuCommand::RunAtStartup));
    assert_eq!(window_proc(WM_COMMAND, 1006, 0), WindowAction::Run(MenuCommand::Quit));
    assert_eq!(window_proc(WM_COMMAND, 1008, 0), WindowAction::Nothing);
    assert_eq!(window_proc(WM_CLOSE, 0, 0), WindowAction::Run(MenuCommand::Quit));
    assert_eq!(window_proc(WM_DESTROY, 0, 0), WindowAction::TakeDown);
    assert_eq!(window_proc(0xf, 0, 0), WindowAction::Default);
}

#[test]
fn the_low_word_is_kept() {
    assert_eq!(loword(0x1234_03e9), 0x03e9);
    assert_eq!(loword(usize::MAX), 0xffff);
    assert_eq!(loword(0x1_0000), 0);
}

#[test]
fn the_message_loop_ends_at_quit() {
    assert_eq!(message_loop(1), LoopStep::Dispatch);
    assert_eq!(message_loop(0), LoopStep::End);
    assert_eq!(message_loop(-1), LoopStep::Fail);
}

#[test]
fn setting_up_stops_at_the_first_failure() {
    let steps = [TrayStep::FindModule, TrayStep::RegisterClass, TrayStep::CreateWindow, TrayStep::AddIcon];
    let mut step = TrayStep::FindModule;
    for expected in steps {
        assert_eq!(step, expected);
        assert_eq!(run_tray_app(step, false), TrayStep::GiveUp);
        step = run_tray_app(step, true);
    }
    assert_eq!(step, TrayStep::RunMessageLoop);
    assert_eq!(run_tray_app(TrayStep::GiveUp, true), TrayStep::GiveUp);
}

#[test]
fn the_icon_file_is_looked_for_in_two_places() {
    assert_eq!(icon_path(Some(true), Some(true)), Some(IconPlace::Executable));
    assert_eq!(icon_path(Some(false), Some(true)), Some(IconPlace::Working));
    assert_eq!(icon_path(None, Some(true)), Some(IconPlace::Working));
    assert_eq!(icon_path(None, Some(false)), None);
    assert_eq!(icon_path(Some(false), None), None);
}

#[test]
fn there_is_an_icon_in_the_end() {
    assert_eq!(load_tray_icon(IconStep::LoadEmbedded, true), IconStep::Use { owned: true });
    assert_eq!(load_tray_icon(IconStep::LoadEmbedded, false), IconStep::LoadFile);
    assert_eq!(load_tray_icon(IconStep::LoadFile, true), IconStep::Use { owned: true });
    assert_eq!(load_tray_icon(IconStep::LoadFile, false), IconStep::LoadSystem);
    assert_eq!(load_tray_icon(IconStep::LoadSystem, false), IconStep::Use { owned: false });
}

#[test]
fn icons_are_scaled_where_the_size_is_known() {
    assert_eq!(scale_icon_for_tray(16, 20), Some((16, 20)));
    assert_eq!(scale_icon_for_tray(0, 20), None);
    assert_eq!(scale_icon_for_tray(16, -1), None);
    let kept = choose_scaled_icon(7, 0);
    assert_eq!((kept.used, kept.destroyed), (7, 0));
    let scaled = choose_scaled_icon(7, 9);
    assert_eq!((scaled.used, scaled.destroyed), (9, 7));
}

#[test]
fn an_owned_icon_is_destroyed_once() {
    let mut handle = 0;
    assert_eq!(add_tray_icon(&mut handle, 7, true, true), IconFate::Remembered);
    assert_eq!(remove_tray_icon(&mut handle), Some(7));
    assert_eq!(remove_tray_icon(&mut handle), None);
    assert_eq!(add_tray_icon(&mut handle, 7, false, true), IconFate::Destroyed);
    assert_eq!(remove_tray_icon(&mut handle), None);
    assert_eq!(add_tray_icon(&mut handle, 7, true, false), IconFate::Shown);
    assert_eq!(remove_tray_icon(&mut handle), None);
    assert_eq!(add_tray_icon(&mut handle, 7, false, false), IconFate::Refused);
}

#[test]
fn gdiplus_failures_have_a_message() {
    assert_eq!(gdiplus_error("GdiplusStartup", 18), "GdiplusStartup failed with GDI+ status 18");
    assert_eq!(gdiplus_error("X", -1), "X failed with GDI+ status -1");
    assert_eq!(gdiplus_made("X", 0, true), Ok(()));
    assert_eq!(gdiplus_made("X", 0, false), Err("X failed with GDI+ status 0".to_string()));
    assert_eq!(gdiplus_made("X", 2, true), Err("X failed with GDI+ status 2".to_string()));
}
