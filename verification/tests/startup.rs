use hdr_auto::lists::load_saved_game_list_flags;
use hdr_auto::startup::{
    command_exe_path, disable_startup, enable_startup, same_path, save_game_list_flags, saved_game_list_flags,
    set_startup_enabled, startup_command, startup_command_deleted, startup_command_sized, startup_command_wide,
    startup_enabled, startup_executable, startup_key_opened, toggle_startup, NumberRead, NumberValue, ResolvedPath, StartupChange,
    StartupRead, StartupRemoval, APP_NAME, GAME_LIST_FLAGS_REGISTRY_VALUE_NAME, REG_DWORD, REG_SZ,
    SETTINGS_REGISTRY_SUBKEY, STARTUP_REGISTRY_SUBKEY, STARTUP_REGISTRY_VALUE_NAME,
};

fn units(s: &str) -> Vec<u16> {
    s.encode_utf16().collect()
}

fn given(path: &str) -> ResolvedPath {
    ResolvedPath { given: path.to_string(), canonical: None }
}

#[test]
fn the_registry_names_are_fixed() {
    assert_eq!(APP_NAME, "HDR Auto");
    assert_eq!(SETTINGS_REGISTRY_SUBKEY, r"Software\HDR Auto");
    assert_eq!(GAME_LIST_FLAGS_REGISTRY_VALUE_NAME, "GameListFlags");
    assert_eq!(STARTUP_REGISTRY_SUBKEY, r"Software\Microsoft\Windows\CurrentVersion\Run");
    assert_eq!(STARTUP_REGISTRY_VALUE_NAME, "HDR Auto");
}

#[test]
fn saved_flags_are_read() {
    let found = NumberValue { value_type: REG_DWORD, value: 2, byte_len: 4 };
    let read = |status, found| saved_game_list_flags(Ok(NumberRead { status, found }));
    assert_eq!(read(0, found), Ok(2));
    assert_eq!(read(0, NumberValue { value: 0xff, ..found }), Ok(0xff));
    assert_eq!(read(2, found), Ok(3));
    assert_eq!(read(5, found), Err(5));
    assert_eq!(read(0, NumberValue { value_type: REG_SZ, ..found }), Ok(3));
    assert_eq!(read(0, NumberValue { byte_len: 2, ..found }), Ok(3));
    assert_eq!(saved_game_list_flags(Err(2)), Ok(3));
    assert_eq!(saved_game_list_flags(Err(5)), Err(5));
}

#[test]
fn saved_flags_come_back() {
    for flags in [0usize, 1, 2, 3, 0xf0, usize::MAX] {
        let found = save_game_list_flags(flags);
        assert_eq!(found.value_type, 4);
        assert_eq!(found.byte_len, 4);
        let saved = saved_game_list_flags(Ok(NumberRead { status: 0, found }));
        assert_eq!(load_saved_game_list_flags(saved), Some((flags & 3) | 2));
    }
}

#[test]
fn the_startup_key_may_be_missing() {
    assert!(matches!(startup_key_opened(Ok(())), StartupRead::AskSize));
    assert!(matches!(startup_key_opened(Err(2)), StartupRead::NoCommand));
    assert!(matches!(startup_key_opened(Err(5)), StartupRead::Failed(5)));
}

#[test]
fn the_startup_command_is_a_string() {
    assert!(matches!(startup_command_sized(0, REG_SZ, 10), StartupRead::AskValue { units: 5 }));
    assert!(matches!(startup_command_sized(0, REG_SZ, 11), StartupRead::AskValue { units: 6 }));
    assert!(matches!(startup_command_sized(0, REG_SZ, u32::MAX), StartupRead::AskValue { units: 0x8000_0000 }));
    assert!(matches!(startup_command_sized(0, REG_SZ, 0), StartupRead::NoCommand));
    assert!(matches!(startup_command_sized(0, REG_DWORD, 10), StartupRead::NoCommand));
    assert!(matches!(startup_command_sized(2, REG_SZ, 10), StartupRead::NoCommand));
    assert!(matches!(startup_command_sized(6, REG_SZ, 10), StartupRead::Failed(6)));
}

#[test]
fn the_startup_command_ends_at_its_zero() {
    let read = |s: &str, byte_len| startup_command(0, units(s), byte_len);
    assert_eq!(read("abc\0", 8), Ok(Some("abc".to_string())));
    assert_eq!(read("abc", 6), Ok(Some("abc".to_string())));
    assert_eq!(read("a\0c", 6), Ok(Some("a".to_string())));
    assert_eq!(read("abc", 5), Ok(Some("ab".to_string())));
    assert_eq!(read("abc", 100), Ok(Some("abc".to_string())));
    assert_eq!(read("", 0), Ok(Some(String::new())));
    assert_eq!(startup_command(2, units("abc"), 6), Ok(None));
    assert_eq!(startup_command(5, units("abc"), 6), Err(5));
}

#[test]
fn commands_name_executables() {
    assert_eq!(command_exe_path("\"C:\\a b\\c.exe\" --x").as_deref(), Some("C:\\a b\\c.exe"));
    assert_eq!(command_exe_path("  C:\\c.exe --x").as_deref(), Some("C:\\c.exe"));
    assert_eq!(command_exe_path("C:\\c.exe").as_deref(), Some("C:\\c.exe"));
    assert_eq!(command_exe_path("a\u{2003}b").as_deref(), Some("a"));
    assert_eq!(command_exe_path("\"\"").as_deref(), Some(""));
    assert_eq!(command_exe_path("\"open"), None);
    assert_eq!(command_exe_path("\""), None);
    assert_eq!(command_exe_path("   "), None);
    assert_eq!(command_exe_path(""), None);
}

#[test]
fn paths_are_compared_without_ascii_case() {
    assert!(same_path(&given("C:\\A.exe"), &given("c:\\a.EXE")));
    assert!(!same_path(&given("C:\\A.exe"), &given("C:\\B.exe")));
    assert!(!same_path(&given("\u{c9}"), &given("\u{e9}")));
    let resolved = ResolvedPath { given: "x".to_string(), canonical: Some("C:\\A.exe".to_string()) };
    assert!(same_path(&resolved, &given("c:\\a.exe")));
    assert!(!same_path(&resolved, &given("x")));
}

#[test]
fn startup_is_on_for_the_running_executable() {
    assert!(startup_enabled(Some(given("C:\\A.exe")), Some(given("c:\\a.exe"))));
    assert!(!startup_enabled(Some(given("C:\\A.exe")), Some(given("c:\\b.exe"))));
    assert!(!startup_enabled(Some(given("C:\\A.exe")), None));
    assert!(!startup_enabled(None, Some(given("C:\\A.exe"))));
    assert_eq!(startup_executable::<i32>(Ok(Some("\"a b\"".to_string()))).as_deref(), Some("a b"));
    assert_eq!(startup_executable::<i32>(Ok(None)), None);
    assert_eq!(startup_executable(Err(5)), None);
    assert_eq!(set_startup_enabled(true), StartupChange::Enable);
    assert_eq!(set_startup_enabled(false), StartupChange::Disable);
    assert_eq!(toggle_startup(true), StartupChange::Disable);
    assert_eq!(toggle_startup(false), StartupChange::Enable);
}

#[test]
fn the_startup_command_is_quoted() {
    assert_eq!(startup_command_wide(&units("C:\\a b.exe")), units("\"C:\\a b.exe\"\0"));
    assert_eq!(startup_command_wide(&[]), units("\"\"\0"));
}

#[test]
fn the_written_command_names_the_executable() {
    for path in ["C:\\Program Files\\HDR Auto\\hdr-auto.exe", "D:\\gr\u{fc}n\\\u{1f600}.exe", ""] {
        let value = enable_startup::<i32>(Ok(()), Ok(units(path))).unwrap();
        assert_eq!(value.value_type, REG_SZ);
        assert_eq!(value.byte_len as usize, value.units.len() * 2);
        let room = match startup_command_sized(0, value.value_type, value.byte_len) {
            StartupRead::AskValue { units } => units,
            _ => panic!("the value should be read"),
        };
        assert_eq!(room, value.units.len());
        let command = startup_command(0, value.units, value.byte_len);
        assert_eq!(startup_executable(command).as_deref(), Some(path));
    }
}

#[test]
fn enabling_hands_the_first_failure_on() {
    assert_eq!(enable_startup(Err(1), Err(2)).err(), Some(1));
    assert_eq!(enable_startup(Ok(()), Err(2)).err(), Some(2));
}

#[test]
fn disabling_what_is_not_there_is_no_failure() {
    assert!(matches!(disable_startup(Ok(())), StartupRemoval::DeleteValue));
    assert!(matches!(disable_startup(Err(2)), StartupRemoval::Done(Ok(()))));
    assert!(matches!(disable_startup(Err(5)), StartupRemoval::Done(Err(5))));
    assert_eq!(startup_command_deleted(0), Ok(()));
    assert_eq!(startup_command_deleted(2), Ok(()));
    assert_eq!(startup_command_deleted(5), Err(5));
}
