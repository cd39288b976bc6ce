use whipseey_save_manager::data::cheats::{Cheats, CheatsEnabled};
use whipseey_save_manager::data::file::{
    BossNoDamageProgress, EnemiesDefeated, Ending, File, Gems, Intro, Level, Lives,
};
use whipseey_save_manager::data::options::{
    Fullscreen, Language, LeftHanded, MusicToggle, MusicVolume, Options, Scale, SoundToggle,
    SoundVolume,
};
use whipseey_save_manager::data::{BfsSettings, WhipseeySaveData};
use whipseey_save_manager::document::Document;
use whipseey_save_manager::util::error::Error;
use whipseey_save_manager::util::file::parse_ini_file;

const DEFAULT: &str = r#"[options]
language="0.000000"
scale="3.000000"
fullscreen="1.000000"
left_handed="0.000000"
sound_volume="1.000000"
sound_toggle="1.000000"
music_volume="1.000000"
music_toggle="1.000000"
[file1]
boss_no_damage_progress="0.000000"
enemies_defeated="0.000000"
castle="0.000000"
moon="0.000000"
snow="0.000000"
desert="0.000000"
forest="0.000000"
ending="0.000000"
intro="0.000000"
lives="5.000000"
gems="0.000000"
[file2]
boss_no_damage_progress="0.000000"
enemies_defeated="0.000000"
castle="0.000000"
moon="0.000000"
snow="0.000000"
desert="0.000000"
forest="0.000000"
ending="0.000000"
intro="0.000000"
lives="5.000000"
gems="0.000000"
[file3]
boss_no_damage_progress="0.000000"
enemies_defeated="0.000000"
castle="0.000000"
moon="0.000000"
snow="0.000000"
desert="0.000000"
forest="0.000000"
ending="0.000000"
intro="0.000000"
lives="5.000000"
gems="0.000000"
[Cheats]
cheats_enabled=0
"#;

const VALID: &str = r#"[options]
language="7.000000"
scale="4.000000"
fullscreen="0.000000"
left_handed="1.000000"
sound_volume="0.300000"
sound_toggle="1.000000"
music_volume="0.000000"
music_toggle="0.000000"
[file1]
boss_no_damage_progress="3.000000"
enemies_defeated="2442.000000"
castle="32.000000"
moon="16.000000"
snow="8.000000"
desert="4.000000"
forest="2.000000"
ending="1.000000"
intro="1.000000"
lives="9118.000000"
gems="40.000000"
[file2]
boss_no_damage_progress="0.000000"
enemies_defeated="2442.000000"
castle="32.000000"
moon="16.000000"
snow="8.000000"
desert="4.000000"
forest="2.000000"
ending="1.000000"
intro="1.000000"
lives="9118.000000"
gems="40.000000"
[file3]
enemies_defeated="2442.000000"
castle="32.000000"
moon="16.000000"
snow="8.000000"
desert="4.000000"
forest="2.000000"
ending="1.000000"
intro="1.000000"
lives="9118.000000"
gems="40.000000"
[Cheats]
cheats_enabled=1
"#;

const LENIENT_VALUES: &str = r#"[options]
language=7
scale=4.0
fullscreen=0
left_handed=1.0
sound_volume=.3
sound_toggle=1
music_volume=0
music_toggle="0"
[file1]
boss_no_damage_progress=3
enemies_defeated=2442
castle=32.
moon=16
snow=8
desert=4
forest=2
ending=1
intro=1.000000000
lives=9118
gems="40"
[file2]
boss_no_damage_progress=3
enemies_defeated=2442
castle=32.
moon=16
snow=8
desert=4
forest=2
ending=1
intro=1.000000000
lives=9118
gems="40"
[file3]
boss_no_damage_progress=3
enemies_defeated=2442
castle=32.
moon=16
snow=8
desert=4
forest=2
ending=1
intro=1.000000000
lives=9118
gems="40"
[Cheats]
cheats_enabled="1.0"
"#;

const INVALID_SECTIONS: &str = r#"[opciones]
language="0.000000"
[archivo1]
castle="0.000000"
"#;

const INVALID_KEYS: &str = r#"[options]
lang="0.000000"
[file1]
bos="1.000000"
[file2]
bos="1.000000"
[file3]
bos="1.000000"
[Cheats]
cheats=1
"#;

const INVALID_VALUE_RANGES: &str = r#"[options]
language="10.000000"
scale="5.000000"
fullscreen="2.000000"
left_handed="3.000000"
sound_volume="0.350000"
sound_toggle="2.000000"
music_volume="1.100000"
music_toggle="-1.000000"
[file1]
boss_no_damage_progress="8.000000"
enemies_defeated="1677216.000000"
castle="31.000000"
moon="15.000000"
snow="9.000000"
desert="5.000000"
forest="3.000000"
ending="2.000000"
intro="5.000000"
lives="100000.000000"
gems="100.000000"
[file2]
lives="0.000000"
[file3]
lives="0.000000"
[Cheats]
cheats_enabled=2
"#;

const INVALID_VALUE_TYPES: &str = r#"[options]
language="abc"
scale="True"
fullscreen=""
left_handed="1O.000000"
sound_volume="0.3.0"
sound_toggle="--1"
music_volume="1,0"
music_toggle="one"
[file1]
boss_no_damage_progress="x"
enemies_defeated="1x2"
castle="??"
moon="string"
snow="8,0"
desert="4 2"
forest="-"
ending="."
intro="+"
lives="9,118"
gems="4O"
[file2]
lives="x"
[file3]
lives="x"
[Cheats]
cheats_enabled=yes
"#;

fn parse(fixture: &str) -> Document {
    parse_ini_file(fixture.to_string()).expect("fixture should parse")
}

fn text_of<'a>(doc: &'a Document, section: &str, key: &str) -> Option<&'a str> {
    doc.section(section).and_then(|sec| sec.get(key)).map(|v| v.as_str())
}

#[test]
fn bfs_settings_into_ini() {
    let settings = BfsSettings {
        cheats: Cheats { cheats_enabled: CheatsEnabled::Disabled },
    };
    let doc: Document = settings.into_ini();
    assert_eq!(text_of(&doc, "Cheats", "cheats_enabled"), Some("0"));
}

#[test]
fn bfs_settings_default() {
    let doc = parse(DEFAULT);
    let settings_loaded = BfsSettings::try_from(&doc).expect("defaults should decode");
    let settings_default = BfsSettings::default();
    assert_eq!(settings_loaded, settings_default);
}

#[test]
fn bfs_settings_try_from_ini_valid() {
    let doc = parse(VALID);
    let settings = BfsSettings::try_from(&doc).expect("fixture should decode");
    assert_eq!(settings.cheats.cheats_enabled, CheatsEnabled::Enabled);
}

#[test]
fn bfs_settings_try_from_ini_lenient() {
    let doc = parse(LENIENT_VALUES);
    let settings = BfsSettings::try_from(&doc).expect("lenient spellings should decode");
    assert_eq!(settings.cheats.cheats_enabled, CheatsEnabled::Enabled);
}

#[test]
fn bfs_settings_try_from_ini_invalid_sections() {
    let doc = parse(INVALID_SECTIONS);
    let error = BfsSettings::try_from(&doc).expect_err("missing section should fail");
    assert!(matches!(&error, Error::SectionMissing(section) if section == "Cheats"));
}

#[test]
fn bfs_settings_try_from_ini_invalid_keys() {
    let doc = parse(INVALID_KEYS);
    let error = BfsSettings::try_from(&doc).expect_err("missing key should fail");
    assert!(matches!(&error, Error::KeyMissing(key) if key == "cheats_enabled"));
}

#[test]
fn bfs_settings_try_from_ini_invalid_value_ranges() {
    let doc = parse(INVALID_VALUE_RANGES);
    let error = BfsSettings::try_from(&doc).expect_err("out-of-set ordinal should fail");
    assert!(matches!(error, Error::InvalidOrdinal(_)));
}

#[test]
fn bfs_settings_try_from_ini_invalid_value_types() {
    let doc = parse(INVALID_VALUE_TYPES);
    let error = BfsSettings::try_from(&doc).expect_err("unparseable text should fail");
    assert!(matches!(error, Error::NumberFormat(_)));
}

#[test]
fn whipseey_save_data_into_ini() {
    let file1 = File {
        boss_no_damage_progress: BossNoDamageProgress::Desert,
        enemies_defeated: EnemiesDefeated::try_from(0).expect("in range"),
        level: Level::Beach,
        ending: Ending::Unwatched,
        intro: Intro::Unwatched,
        lives: Lives::try_from(1).expect("in range"),
        gems: Gems::try_from(12).expect("in range"),
    };
    let file2 = File { level: Level::Snow, ending: Ending::Watched, ..file1 };
    let file3 = File { level: Level::Castle, ..file1 };
    let data = WhipseeySaveData {
        options: Options {
            language: Language::French,
            scale: Scale::R768x432,
            fullscreen: Fullscreen::Disabled,
            left_handed: LeftHanded::Disabled,
            sound_volume: SoundVolume::V70,
            sound_toggle: SoundToggle::Disabled,
            music_volume: MusicVolume::V50,
            music_toggle: MusicToggle::Enabled,
        },
        files: [file1, file2, file3],
    };
    let doc: Document = data.into_ini();
    assert_eq!(text_of(&doc, "options", "language"), Some("\"2.000000\""));
    assert_eq!(text_of(&doc, "options", "scale"), Some("\"2.000000\""));
    assert_eq!(text_of(&doc, "options", "fullscreen"), Some("\"0.000000\""));
    assert_eq!(text_of(&doc, "options", "left_handed"), Some("\"0.000000\""));
    assert_eq!(text_of(&doc, "options", "sound_volume"), Some("\"0.700000\""));
    assert_eq!(text_of(&doc, "options", "sound_toggle"), Some("\"0.000000\""));
    assert_eq!(text_of(&doc, "options", "music_volume"), Some("\"0.500000\""));
    assert_eq!(text_of(&doc, "options", "music_toggle"), Some("\"1.000000\""));
    assert_eq!(
        text_of(&doc, "file1", "boss_no_damage_progress"),
        Some("\"2.000000\"")
    );
    assert_eq!(text_of(&doc, "file2", "enemies_defeated"), Some("\"0.000000\""));
    assert_eq!(text_of(&doc, "file3", "castle"), Some("\"32.000000\""));
    assert_eq!(text_of(&doc, "file1", "moon"), Some("\"0.000000\""));
    assert_eq!(text_of(&doc, "file2", "snow"), Some("\"8.000000\""));
    assert_eq!(text_of(&doc, "file3", "desert"), Some("\"4.000000\""));
    assert_eq!(text_of(&doc, "file1", "forest"), Some("\"0.000000\""));
    assert_eq!(text_of(&doc, "file2", "ending"), Some("\"1.000000\""));
    assert_eq!(text_of(&doc, "file3", "intro"), Some("\"0.000000\""));
    assert_eq!(text_of(&doc, "file1", "lives"), Some("\"1.000000\""));
    assert_eq!(text_of(&doc, "file2", "gems"), Some("\"12.000000\""));
}

#[test]
fn whipseey_save_data_default() {
    let doc = parse(DEFAULT);
    let save_loaded = WhipseeySaveData::try_from(&doc).expect("defaults should decode");
    let save_default = WhipseeySaveData::default();
    assert_eq!(save_loaded, save_default);
}

#[test]
fn whipseey_save_data_try_from_ini_valid() {
    let doc = parse(VALID);
    let save = WhipseeySaveData::try_from(&doc).expect("fixture should decode");
    assert_eq!(save.options.sound_volume, SoundVolume::V30);
    assert_eq!(
        save.files[0].boss_no_damage_progress,
        BossNoDamageProgress::ForestDesert
    );
    assert_eq!(save.files[1].boss_no_damage_progress, BossNoDamageProgress::Nothing);
    assert_eq!(save.files[2].ending, Ending::Watched);
}

#[test]
fn whipseey_save_data_try_from_ini_lenient() {
    let doc = parse(LENIENT_VALUES);
    let save = WhipseeySaveData::try_from(&doc).expect("lenient spellings should decode");
    assert_eq!(save.options.scale, Scale::R1536x864);
    assert_eq!(save.files[2].gems, Gems::try_from(40).expect("in range"));
    assert_eq!(save.files[1].level, Level::Castle);
    assert_eq!(save.files[0].ending, Ending::Watched);
}

#[test]
fn whipseey_save_data_try_from_ini_invalid_sections() {
    let doc = parse(INVALID_SECTIONS);
    let error = WhipseeySaveData::try_from(&doc).expect_err("missing sections should fail");
    assert!(matches!(
        &error,
        Error::SectionMissing(section) if section == "options"
            || section == "file1"
            || section == "file2"
            || section == "file3"
    ));
}

#[test]
fn whipseey_save_data_try_from_ini_invalid_keys() {
    let doc = parse(INVALID_KEYS);
    let error = WhipseeySaveData::try_from(&doc).expect_err("missing keys should fail");
    assert!(matches!(
        &error,
        Error::KeyMissing(key) if key == "language"
            || key == "scale"
            || key == "fullscreen"
            || key == "left_handed"
            || key == "sound_volume"
            || key == "sound_toggle"
            || key == "music_volume"
            || key == "music_toggle"
            || key == "boss_no_damage_progress"
            || key == "enemies_defeated"
            || key == "castle"
            || key == "moon"
            || key == "snow"
            || key == "desert"
            || key == "forest"
            || key == "ending"
            || key == "intro"
            || key == "lives"
            || key == "gems"
    ));
}

#[test]
fn whipseey_save_data_try_from_ini_invalid_value_ranges() {
    let doc = parse(INVALID_VALUE_RANGES);
    let error = WhipseeySaveData::try_from(&doc).expect_err("out-of-range values should fail");
    assert!(matches!(error, Error::InvalidOrdinal(_) | Error::Range(_)));
}

#[test]
fn whipseey_save_data_try_from_ini_invalid_value_types() {
    let doc = parse(INVALID_VALUE_TYPES);
    let error = WhipseeySaveData::try_from(&doc).expect_err("unparseable text should fail");
    assert!(matches!(error, Error::NumberFormat(_)));
}
