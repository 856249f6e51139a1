use hdr_auto::list_files::{
    download_text, ensure_game_list_files, first_write_step, game_list_base_dir, game_list_paths,
    has_game_list_file, refresh_default_game_list, write_file_atomically, write_result, BaseDir, BaseDirStep, GameList,
    ListPresence, RefreshError, WriteStep, DEFAULT_LIST_TEXT, TEMP_EXTENSION,
};
use hdr_auto::lists::{
    append_game_list, finish_flag_toggle, game_list_flags, load_cached_game_lists, load_game_list, load_list,
    load_saved_game_list_flags, sanitize_game_list_flags, toggle_default_list, toggle_game_list_flag,
    valid_default_game_list_download, ListTexts, Unavailable, ALL_GAME_LIST_FLAGS, GAME_LIST_CUSTOM_FLAG,
    GAME_LIST_DEFAULT_FLAG, INITIAL_GAME_LIST_FLAGS, MIN_DOWNLOADED_GAME_LIST_ENTRIES,
};
use hdr_auto::rules::ProcessRules;

fn read(contents: &str) -> Result<String, i32> {
    Ok(contents.to_string())
}

fn list_of(count: usize) -> String {
    let mut contents = String::new();
    for index in 0..count {
        contents.push_str(&format!("game-{index}.exe\n"));
    }
    contents
}

#[test]
fn load_game_list_deduplicates_across_enabled_lists() {
    let games = load_game_list(
        read("Game.exe\n\"Other Game.exe\"\n"),
        read("game\nthird.exe\nother game.exe\n"),
        GAME_LIST_DEFAULT_FLAG | GAME_LIST_CUSTOM_FLAG,
    );
    assert_eq!(
        games,
        Ok(vec!["game".to_string(), "other game".to_string(), "third".to_string()])
    );
}

#[test]
fn custom_game_list_is_loaded_when_no_optional_lists_are_enabled() {
    let games = load_game_list(read("game.exe\n"), read("other.exe\n"), 0);
    assert_eq!(games, Ok(vec!["other".to_string()]));
}

#[test]
fn sanitize_game_list_flags_keeps_known_flags_only() {
    assert_eq!(sanitize_game_list_flags(usize::MAX), ALL_GAME_LIST_FLAGS);
    assert_eq!(sanitize_game_list_flags(0), GAME_LIST_CUSTOM_FLAG);
}

#[test]
fn valid_default_game_list_download_accepts_game_entries() {
    let mut contents = String::new();
    for index in 0..MIN_DOWNLOADED_GAME_LIST_ENTRIES {
        contents.push_str(&format!("game-{index}.exe\n"));
    }

    assert!(valid_default_game_list_download(&contents));
}

#[test]
fn valid_default_game_list_download_rejects_error_pages() {
    assert!(!valid_default_game_list_download(
        "<!DOCTYPE html><html><body>Not a game list</body></html>"
    ));
    assert!(!valid_default_game_list_download("404: Not Found"));
}

#[test]
fn error_pages_are_refused_even_with_enough_lines() {
    let list = list_of(30);
    assert!(valid_default_game_list_download(&list));
    assert!(!valid_default_game_list_download(&format!("\n  404: gone\n{list}")));
    assert!(!valid_default_game_list_download(&format!("<!DocType x>\n{list}")));
    assert!(!valid_default_game_list_download(&format!("x <HTML>\n{list}")));
    assert!(valid_default_game_list_download(&format!("x 404: <!doctype\n{list}")));
}

#[test]
fn only_the_first_characters_tell_an_error_page() {
    let list = list_of(30);
    let pad = "a".repeat(507);
    assert!(!valid_default_game_list_download(&format!("{pad}<html\n{list}")));
    assert!(valid_default_game_list_download(&format!("{pad}a<html\n{list}")));
    assert!(!valid_default_game_list_download(&format!("   {pad}<html\n{list}")));
}

#[test]
fn a_download_needs_enough_entries() {
    assert_eq!(MIN_DOWNLOADED_GAME_LIST_ENTRIES, 25);
    assert!(valid_default_game_list_download(&list_of(25)));
    assert!(!valid_default_game_list_download(&list_of(24)));
    assert!(!valid_default_game_list_download(&format!("{}# comment\n\n", list_of(24))));
    let same = "game.exe\n".repeat(25);
    assert!(valid_default_game_list_download(&same));
    assert!(!valid_default_game_list_download(""));
}

#[test]
fn lines_end_with_a_line_feed_or_the_end() {
    assert_eq!(
        load_list(read("a.exe\r\nb.exe\n\n# c\nd")),
        Ok(vec!["a".to_string(), "b".to_string(), "d".to_string()])
    );
    assert_eq!(load_list(read("")), Ok(vec![]));
    assert_eq!(load_list::<i32>(Err(3)), Err(3));
}

#[test]
fn the_first_failure_is_handed_on() {
    assert_eq!(load_game_list(Err(1), Err(2), ALL_GAME_LIST_FLAGS), Err(1));
    assert_eq!(load_game_list(read("a"), Err(2), ALL_GAME_LIST_FLAGS), Err(2));
    assert_eq!(load_game_list(Err(1), read("b"), GAME_LIST_CUSTOM_FLAG), Ok(vec!["b".to_string()]));
    let texts = |default, custom, exclusions| ListTexts { default, custom, exclusions };
    assert_eq!(load_cached_game_lists(texts(Err(1), Err(2), Err(3)), 3).err(), Some(1));
    assert_eq!(load_cached_game_lists(texts(Err(1), Err(2), Err(3)), 2).err(), Some(2));
    assert_eq!(load_cached_game_lists(texts(Err(1), read("a"), Err(3)), 2).err(), Some(3));
    assert!(load_cached_game_lists(texts(Err(1), read("a"), read("")), 2).is_ok());
}

#[test]
fn loaded_lists_hold_names_and_paths() {
    let lists = load_cached_game_lists(
        ListTexts {
            default: read("default.exe\n"),
            custom: read("Old-Game.exe\nC:/x.exe\n"),
            exclusions: read("excluded.exe\n"),
        },
        ALL_GAME_LIST_FLAGS,
    )
    .unwrap();
    assert_eq!(lists.games.names.len(), 2);
    assert!(lists.games.names.contains("default"));
    assert!(lists.games.names.contains("oldgame"));
    assert!(lists.games.paths.contains("c:\\x.exe"));
    assert!(lists.exclusions.names.contains("excluded"));
    assert!(lists.exclusions.paths.is_empty());
}

#[test]
fn a_new_community_list_names_no_game() {
    assert_eq!(load_list(read(DEFAULT_LIST_TEXT)), Ok(vec![]));
    assert_eq!(
        DEFAULT_LIST_TEXT,
        concat_lines(&[
            "# One process executable per line. Extension is optional.",
            "# eldenring.exe",
            "# Cyberpunk2077.exe",
            "# bg3.exe",
        ])
    );
}

fn concat_lines(lines: &[&str]) -> String {
    lines.iter().map(|line| format!("{line}\n")).collect()
}

#[test]
fn flags_in_use_are_the_active_ones() {
    assert_eq!(game_list_flags(None), INITIAL_GAME_LIST_FLAGS);
    assert_eq!(game_list_flags(Some(2)), 2);
    assert_eq!(load_saved_game_list_flags::<i32>(Ok(0xf1)), Some(3));
    assert_eq!(load_saved_game_list_flags::<i32>(Ok(4)), Some(2));
    assert_eq!(load_saved_game_list_flags(Err(5)), None);
}

#[test]
fn switching_the_community_list_twice_gives_the_flags_back() {
    let once = toggle_game_list_flag(Some(3), GAME_LIST_DEFAULT_FLAG).unwrap();
    assert_eq!(once, 2);
    assert_eq!(toggle_game_list_flag(Some(once), GAME_LIST_DEFAULT_FLAG), Ok(3));
    assert_eq!(toggle_game_list_flag(Some(3), GAME_LIST_CUSTOM_FLAG), Ok(3));
    assert_eq!(toggle_game_list_flag(None, GAME_LIST_DEFAULT_FLAG), Err(Unavailable::Flags));
    assert_eq!(toggle_default_list(Some(3)), Ok(2));
    assert_eq!(toggle_default_list(Some(2)), Ok(3));
    assert_eq!(toggle_default_list(None), Err(Unavailable::Flags));
}

#[test]
fn flags_take_effect_once_the_lists_are_loaded() {
    let mut active = 3;
    assert_eq!(finish_flag_toggle(&mut active, 2, Err(7)), Err(7));
    assert_eq!(active, 3);
    assert_eq!(finish_flag_toggle::<i32>(&mut active, 2, Ok(())), Ok(2));
    assert_eq!(active, 2);
}

#[test]
fn what_is_missing_has_a_message() {
    assert_eq!(Unavailable::Paths.message(), "game list paths are unavailable");
    assert_eq!(Unavailable::Control.message(), "monitor control is unavailable");
    assert_eq!(Unavailable::Flags.message(), "game list flags are unavailable");
}

#[test]
fn lists_stand_in_the_first_directory_that_holds_one() {
    let none = ListPresence { default: false, custom: false, exclusions: false };
    let custom = ListPresence { custom: true, ..none };
    assert!(!has_game_list_file(none));
    assert!(has_game_list_file(custom));
    assert!(has_game_list_file(ListPresence { default: true, ..none }));
    assert!(has_game_list_file(ListPresence { exclusions: true, ..none }));
    assert_eq!(game_list_base_dir(BaseDir::Executable, true), BaseDirStep::Use(BaseDir::Executable));
    assert_eq!(game_list_base_dir(BaseDir::Executable, false), BaseDirStep::Probe(BaseDir::Working));
    assert_eq!(game_list_base_dir(BaseDir::Working, true), BaseDirStep::Use(BaseDir::Working));
    assert_eq!(game_list_base_dir(BaseDir::Working, false), BaseDirStep::Use(BaseDir::Executable));
}

#[test]
fn list_files_have_their_names() {
    let paths = game_list_paths(BaseDir::Working);
    assert_eq!(paths.dir, BaseDir::Working);
    assert_eq!(paths.default, "games_default.txt");
    assert_eq!(paths.custom, "games_custom.txt");
    assert_eq!(paths.exclusions, "games_excluded.txt");
}

#[test]
fn missing_list_files_are_made() {
    let none = ListPresence { default: false, custom: false, exclusions: false };
    let made: Vec<(GameList, &str)> = ensure_game_list_files(none).iter().map(|f| (f.list, f.contents)).collect();
    assert_eq!(
        made,
        vec![(GameList::Default, DEFAULT_LIST_TEXT), (GameList::Custom, ""), (GameList::Exclusions, "")]
    );
    let some = ListPresence { default: true, custom: false, exclusions: true };
    let made: Vec<GameList> = ensure_game_list_files(some).iter().map(|f| f.list).collect();
    assert_eq!(made, vec![GameList::Custom]);
    let all = ListPresence { default: true, custom: true, exclusions: true };
    assert!(ensure_game_list_files(all).is_empty());
}

#[test]
fn downloads_are_text() {
    assert_eq!(download_text::<i32>(Ok("gr\u{fc}n".as_bytes().to_vec())).unwrap(), "gr\u{fc}n");
    assert!(matches!(download_text::<i32>(Ok(vec![0xff, 0x41])), Err(RefreshError::NotText)));
    assert!(matches!(download_text(Err(12)), Err(RefreshError::Download(12))));
}

#[test]
fn only_a_list_is_written() {
    let list = list_of(25);
    assert_eq!(refresh_default_game_list::<i32>(Ok(list.as_bytes().to_vec())).unwrap(), list);
    assert!(matches!(
        refresh_default_game_list::<i32>(Ok(b"404: Not Found".to_vec())),
        Err(RefreshError::NotAList)
    ));
    assert!(matches!(refresh_default_game_list::<i32>(Ok(vec![0xc0])), Err(RefreshError::NotText)));
    assert!(matches!(refresh_default_game_list(Err(3)), Err(RefreshError::Download(3))));
}

struct Disk {
    target: Option<Vec<u8>>,
    temp: Option<Vec<u8>>,
}

fn replace(disk: &mut Disk, contents: &[u8], failing: Option<WriteStep>) -> bool {
    let mut step = first_write_step(true);
    loop {
        let ok = failing != Some(step);
        match step {
            WriteStep::CreateParent => {}
            WriteStep::WriteTemp => disk.temp = Some(if ok { contents.to_vec() } else { vec![] }),
            WriteStep::Rename => {
                if ok {
                    disk.target = disk.temp.take();
                }
            }
            WriteStep::RemoveTemp => disk.temp = None,
            WriteStep::Done => return true,
            WriteStep::Failed => return false,
        }
        step = write_file_atomically(step, ok);
    }
}

#[test]
fn write_file_atomically_replaces_existing_file() {
    let mut disk = Disk { target: Some(b"old.exe\n".to_vec()), temp: None };
    assert!(replace(&mut disk, b"new.exe\n", None));
    assert_eq!(disk.target.as_deref(), Some(&b"new.exe\n"[..]));
    assert_eq!(disk.temp, None);
    assert_eq!(TEMP_EXTENSION, "txt.download");
}

#[test]
fn a_failed_write_leaves_the_file_alone() {
    for failing in [WriteStep::CreateParent, WriteStep::WriteTemp, WriteStep::Rename] {
        let mut disk = Disk { target: Some(b"old".to_vec()), temp: None };
        assert!(!replace(&mut disk, b"new", Some(failing)));
        assert_eq!(disk.target.as_deref(), Some(&b"old"[..]));
    }
    let mut disk = Disk { target: None, temp: None };
    assert!(!replace(&mut disk, b"new", Some(WriteStep::Rename)));
    assert_eq!(disk.temp, None);
    assert_eq!(first_write_step(false), WriteStep::WriteTemp);
}

#[test]
fn the_first_failure_of_a_write_is_its_result() {
    assert_eq!(write_result::<i32>(vec![Ok(()), Ok(()), Ok(())]), Ok(()));
    assert_eq!(write_result(vec![Ok(()), Ok(()), Err(5), Err(6)]), Err(5));
    assert_eq!(write_result(vec![Ok(()), Ok(()), Err(5), Ok(())]), Err(5));
}

#[test]
fn appending_goes_by_what_was_seen() {
    let mut games = vec!["a".to_string()];
    let mut seen = ProcessRules::default().names;
    seen.insert("b".to_string());
    assert_eq!(append_game_list(&mut games, &mut seen, read("b.exe\na.exe\nc.exe\nA\n")), Ok(()));
    assert_eq!(games, vec!["a".to_string(), "a".to_string(), "c".to_string()]);
    assert_eq!(seen.len(), 3);
    assert!(seen.contains("a") && seen.contains("b") && seen.contains("c"));
    assert_eq!(append_game_list(&mut games, &mut seen, Err(4)), Err(4));
    assert_eq!(games.len(), 3);
    assert_eq!(seen.len(), 3);
}
