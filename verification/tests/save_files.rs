use ironboy::save_file::{save_path, session_name, strip_save_extensions, temp_path, LoadSource, SaveFile};
use ironboy::text::{ends_with, remove_all};

#[test]
fn extension_of_each_format() {
    assert_eq!(SaveFile::Json.extension(), ".sav.json");
    assert_eq!(SaveFile::Bin.extension(), ".sav.bin");
}

#[test]
fn formats_list_json_then_bin() {
    assert_eq!(SaveFile::formats(), [SaveFile::Json, SaveFile::Bin]);
}

#[test]
fn remove_all_deletes_every_occurrence() {
    assert_eq!(remove_all("a.sav.jsonb.sav.json", ".sav.json"), "ab");
    assert_eq!(remove_all("plain.gb", ".sav.json"), "plain.gb");
    assert_eq!(remove_all("", ".sav.bin"), "");
}

#[test]
fn remove_all_matches_left_to_right_without_rescanning() {
    // Deleting the inner occurrence forms a new one, which stays.
    assert_eq!(remove_all("x.sav.sav.jsonjson", ".sav.json"), "x.savjson");
    assert_eq!(remove_all("aaa", "aa"), "a");
    assert_eq!("x.sav.sav.jsonjson".replace(".sav.json", ""), "x.savjson");
}

#[test]
fn remove_all_with_empty_pattern_keeps_input() {
    assert_eq!(remove_all("rom.gb", ""), "rom.gb");
}

#[test]
fn remove_all_handles_non_ascii() {
    assert_eq!(remove_all("ポケモン.sav.bin", ".sav.bin"), "ポケモン");
}

#[test]
fn ends_with_checks_suffix() {
    assert!(ends_with("tetris.gb", ".gb"));
    assert!(!ends_with("tetris.gbc", ".gb"));
    assert!(ends_with("tetris.gbc", ".gbc"));
    assert!(!ends_with("gb", ".gb"));
    assert!(ends_with("anything", ""));
    assert!(ends_with("ゼルダ.gb", ".gb"));
}

#[test]
fn strip_removes_both_save_extensions() {
    assert_eq!(strip_save_extensions("red.gb.sav.json"), "red.gb");
    assert_eq!(strip_save_extensions("red.gb.sav.bin"), "red.gb");
    assert_eq!(strip_save_extensions("red.gb"), "red.gb");
}

#[test]
fn save_path_of_rom_appends_extension() {
    assert_eq!(save_path("roms/red.gb", SaveFile::Bin), "roms/red.gb.sav.bin");
    assert_eq!(save_path("roms/red.gb", SaveFile::Json), "roms/red.gb.sav.json");
}

#[test]
fn save_path_of_save_replaces_extension() {
    assert_eq!(save_path("red.gb.sav.json", SaveFile::Bin), "red.gb.sav.bin");
    assert_eq!(save_path("red.gb.sav.bin", SaveFile::Json), "red.gb.sav.json");
    assert_eq!(save_path("red.gb.sav.bin", SaveFile::Bin), "red.gb.sav.bin");
}

#[test]
fn temp_path_appends_tmp() {
    assert_eq!(temp_path("red.gb"), "red.gb.tmp");
}

#[test]
fn session_name_strips_bin_then_json() {
    assert_eq!(session_name("blue.gb.sav.bin"), "blue.gb");
    assert_eq!(session_name("blue.gb.sav.json"), "blue.gb");
    assert_eq!(session_name("demo.gb"), "demo.gb");
}

#[test]
fn load_source_by_name() {
    assert_eq!(LoadSource::from_path("red.gb"), Some(LoadSource::Rom));
    assert_eq!(LoadSource::from_path("crystal.gbc"), Some(LoadSource::Rom));
    assert_eq!(LoadSource::from_path("red.gb.sav.json"), Some(LoadSource::SaveState(SaveFile::Json)));
    assert_eq!(LoadSource::from_path("red.gb.sav.bin"), Some(LoadSource::SaveState(SaveFile::Bin)));
    assert_eq!(LoadSource::from_path("state.json"), Some(LoadSource::SaveState(SaveFile::Json)));
    assert_eq!(LoadSource::from_path("red.txt"), None);
    assert_eq!(LoadSource::from_path(""), None);
}

#[test]
fn saved_file_loads_in_its_format() {
    for rom in ["red.gb", "red.gb.sav.json", "red.gb.sav.bin", "", "dir/x.gbc"] {
        for format in [SaveFile::Json, SaveFile::Bin] {
            let path = save_path(rom, format);
            assert_eq!(LoadSource::from_path(&path), Some(LoadSource::SaveState(format)));
        }
    }
}

#[test]
fn resave_of_loaded_save_targets_same_file() {
    let first = save_path("games/red.gb", SaveFile::Json);
    assert_eq!(save_path(&first, SaveFile::Json), first);
    assert_eq!(save_path(&first, SaveFile::Bin), save_path("games/red.gb", SaveFile::Bin));
}

#[test]
fn resave_of_name_holding_an_extension_strips_more() {
    let first = save_path("a.sav.jso.sav.jsonn", SaveFile::Json);
    assert_eq!(first, "a.sav.json.sav.json");
    assert_eq!(save_path(&first, SaveFile::Json), "a.sav.json");
}
