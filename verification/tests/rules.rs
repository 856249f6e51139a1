use hdr_auto::rules::{
    is_path_rule, known_suffix_trim, matching_game_processes, normalize_game_name, normalize_process_key,
    process_image_path, process_matches, scan_plan, ProcessEntry, ProcessRules, ScanPlan,
};

fn rules_of(lines: &[&str]) -> ProcessRules {
    ProcessRules::from_entries(lines.iter().filter_map(|line| normalize_game_name(line)).collect())
}

fn process(exe: &str, path: Option<&str>) -> ProcessEntry {
    let mut exe_file = vec![0u16; 260];
    for (slot, unit) in exe_file.iter_mut().zip(exe.encode_utf16()) {
        *slot = unit;
    }
    ProcessEntry { exe_file, image_path: path.map(|p| p.to_string()) }
}

#[test]
fn full_path_rules_match_only_the_exact_process_path() {
    let rules = ProcessRules::from_entries(vec![normalize_game_name(r"D:\Games\launcher.exe").unwrap()]);

    assert!(process_matches("launcher.exe", Some(r"d:\games\launcher.exe"), &rules));
    assert!(!process_matches("launcher.exe", Some(r"d:\other\launcher.exe"), &rules));
}

#[test]
fn executable_name_rules_still_match_without_a_process_path() {
    let rules = ProcessRules::from_entries(vec![normalize_game_name("launcher.exe").unwrap()]);
    assert!(process_matches("Launcher.exe", None, &rules));
}

#[test]
fn executable_name_rules_do_not_match_arbitrary_prefixes() {
    let rules = ProcessRules::from_entries(vec![normalize_game_name("disco.exe").unwrap()]);

    assert!(process_matches("disco.exe", None, &rules));
    assert!(!process_matches("Discord.exe", None, &rules));
}

#[test]
fn executable_name_rules_match_explicit_known_suffixes() {
    let rules = ProcessRules::from_entries(vec![normalize_game_name("stalker2.exe").unwrap()]);

    assert!(process_matches("Stalker2-Win64-Shipping.exe", None, &rules));
    assert!(process_matches("Stalker2-x64.exe", None, &rules));
    assert!(process_matches("Stalker2-DX11.exe", None, &rules));
    assert!(process_matches("Stalker2-DX12.exe", None, &rules));
}

#[test]
fn lines_give_their_entries() {
    assert_eq!(normalize_game_name("  \"Other Game.EXE\" ").as_deref(), Some("other game"));
    assert_eq!(normalize_game_name("Elden Ring").as_deref(), Some("elden ring"));
    assert_eq!(normalize_game_name("C:/Games/A.exe").as_deref(), Some("c:\\games\\a.exe"));
    assert_eq!(normalize_game_name("games\\a.exe").as_deref(), Some("games\\a.exe"));
    assert_eq!(normalize_game_name(".exe").as_deref(), Some(""));
    assert_eq!(normalize_game_name("\u{a0}game\u{3000}").as_deref(), Some("game"));
    assert_eq!(normalize_game_name("\u{c9}T\u{c9}.exe").as_deref(), Some("\u{c9}t\u{c9}"));
}

#[test]
fn blank_lines_and_comments_give_no_entry() {
    assert_eq!(normalize_game_name(""), None);
    assert_eq!(normalize_game_name("   \t"), None);
    assert_eq!(normalize_game_name("\"\""), None);
    assert_eq!(normalize_game_name("# bg3.exe"), None);
    assert_eq!(normalize_game_name("\"# quoted\""), None);
}

#[test]
fn path_rules_have_a_backslash_or_are_absolute() {
    assert!(is_path_rule("a\\b"));
    assert!(is_path_rule("c:/games"));
    assert!(is_path_rule("Z:/"));
    assert!(is_path_rule("//server/share"));
    assert!(is_path_rule("//./com1"));
    assert!(is_path_rule("//?/x"));
    assert!(!is_path_rule("c:games"));
    assert!(!is_path_rule("1:/games"));
    assert!(!is_path_rule("/games"));
    assert!(!is_path_rule("//server"));
    assert!(!is_path_rule("//server/"));
    assert!(!is_path_rule("//server//share"));
    assert!(!is_path_rule("game.exe"));
    assert!(!is_path_rule(""));
}

#[test]
fn keys_keep_ascii_letters_and_digits() {
    assert_eq!(normalize_process_key("Launcher.exe"), "launcher");
    assert_eq!(normalize_process_key(" \"Stalker2-Win64-Shipping.EXE\" "), "stalker2win64shipping");
    assert_eq!(normalize_process_key("game.exe.exe"), "gameexe");
    assert_eq!(normalize_process_key("\u{e9}t\u{e9} 7"), "t7");
    assert_eq!(normalize_process_key("!!!"), "");
}

#[test]
fn one_known_suffix_is_taken_off() {
    assert_eq!(known_suffix_trim("stalker2win64shipping"), "stalker2");
    assert_eq!(known_suffix_trim("stalker2shipping"), "stalker2");
    assert_eq!(known_suffix_trim("gamex64"), "game");
    assert_eq!(known_suffix_trim("gamedx12"), "game");
    assert_eq!(known_suffix_trim("gamedx11"), "game");
    assert_eq!(known_suffix_trim("gamex64dx12"), "gamex64");
    assert_eq!(known_suffix_trim("game"), "game");
    assert_eq!(known_suffix_trim("x64"), "");
    assert_eq!(known_suffix_trim(""), "");
}

#[test]
fn entries_do_not_tell_case_apart() {
    assert_eq!(normalize_game_name("ELDENRING.EXE"), normalize_game_name("eldenring.exe"));
    assert_eq!(normalize_process_key("ELDENRING.EXE"), normalize_process_key("eldenring.exe"));
}

#[test]
fn the_extension_may_be_left_out() {
    let with = rules_of(&["MonsterHunterWilds.exe"]);
    let without = rules_of(&["MonsterHunterWilds"]);
    for exe in ["MonsterHunterWilds.exe", "monsterhunterwilds", "MonsterHunterRise.exe"] {
        assert_eq!(process_matches(exe, None, &with), process_matches(exe, None, &without));
    }
    assert!(process_matches("MonsterHunterWilds.exe", None, &without));
}

#[test]
fn a_name_without_letters_or_digits_matches_nothing() {
    let rules = rules_of(&["...", ".exe"]);
    assert!(rules.names.is_empty());
    assert!(!process_matches("!!!.exe", None, &rules));
    assert!(!process_matches("x64.exe", None, &rules));
}

#[test]
fn paths_are_needed_only_for_path_rules() {
    assert!(!rules_of(&["a.exe"]).needs_process_path());
    assert!(rules_of(&["a.exe", "c:\\b.exe"]).needs_process_path());
    assert!(!ProcessRules::default().needs_process_path());
}

#[test]
fn a_scan_looks_at_no_more_than_it_needs() {
    let none = rules_of(&[]);
    let names = rules_of(&["a.exe"]);
    let paths = rules_of(&["c:\\b.exe"]);
    assert_eq!(scan_plan(&none, &paths), ScanPlan::Nothing);
    assert_eq!(scan_plan(&names, &none), ScanPlan::Names);
    assert_eq!(scan_plan(&names, &paths), ScanPlan::NamesAndPaths);
    assert_eq!(scan_plan(&paths, &none), ScanPlan::NamesAndPaths);
}

#[test]
fn running_games_are_those_not_excluded() {
    let games = rules_of(&["a.exe", "b.exe", "D:\\Games\\launcher.exe"]);
    let exclusions = rules_of(&["B", "c:\\tools\\a.exe"]);
    let snapshot: Result<Vec<ProcessEntry>, i32> = Ok(vec![
        process("A.exe", Some("c:\\games\\a.exe")),
        process("a.exe", Some("c:\\tools\\a.exe")),
        process("B.exe", None),
        process("Launcher.exe", Some("d:\\games\\launcher.exe")),
        process("explorer.exe", None),
    ]);
    let matches = matching_game_processes(&games, &exclusions, snapshot).unwrap();
    assert_eq!(matches.len(), 2);
    assert!(matches.contains("A.exe"));
    assert!(matches.contains("Launcher.exe"));
}

#[test]
fn entries_that_are_all_excluded_never_count() {
    let games = rules_of(&["a.exe"]);
    let exclusions = rules_of(&["A", "other.exe"]);
    let snapshot: Result<Vec<ProcessEntry>, i32> = Ok(vec![process("a.exe", None), process("a-x64.exe", None)]);
    assert!(matching_game_processes(&games, &exclusions, snapshot).unwrap().is_empty());
}

#[test]
fn a_failed_snapshot_is_an_error_only_where_it_is_needed() {
    let none = rules_of(&[]);
    let games = rules_of(&["a.exe"]);
    assert_eq!(matching_game_processes(&games, &none, Err(5)).err(), Some(5));
    assert!(matching_game_processes(&none, &games, Err(5)).unwrap().is_empty());
}

#[test]
fn image_paths_are_made_comparable() {
    let units: Vec<u16> = "C:/Games\\A.EXE".encode_utf16().chain([0, 0, 7]).collect();
    assert_eq!(process_image_path(true, 1, &units, 14).as_deref(), Some("c:\\games\\a.exe"));
    assert_eq!(process_image_path(true, 0, &units, 14), None);
    assert_eq!(process_image_path(false, 1, &units, 14), None);
    assert_eq!(process_image_path(true, 1, &units, 0).as_deref(), Some(""));
}

#[test]
fn a_doubled_extension_loses_both() {
    let rules = rules_of(&["game.exe.exe"]);
    assert!(process_matches("game.exe", None, &rules));
    assert!(!process_matches("game.exe.exe", None, &rules));
}

#[test]
fn a_name_matches_its_executable_anywhere() {
    for line in ["launcher.exe", "  \"LAUNCHER\"", "Laun-cher.EXE"] {
        let rules = rules_of(&["other.exe", line]);
        assert!(process_matches("Launcher.exe", None, &rules));
        assert!(process_matches("Launcher.exe", Some("e:\\anywhere\\launcher.exe"), &rules));
    }
}
