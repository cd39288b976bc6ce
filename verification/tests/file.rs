use whipseey_save_manager::data::file::{
    BossNoDamageProgress, EnemiesDefeated, File, Gems, Intro, Level, Lives,
};
use whipseey_save_manager::data::file::Ending;
use whipseey_save_manager::document::Section;
use whipseey_save_manager::util::error::Error;
use whipseey_save_manager::util::file::parse_ini_file;

const DEFAULT: &str = r#"[file1]
boss_no_damage_progress="0.000000"
enemies_defeated="0.000000"
castle="0.000000"
moon="0.000000"
snow="0.000000"
desert="0.000000"
forest="0.000000"
ending="0.000000"
intro="0.000000"
lives="5.000000"
gems="0.000000"
"#;

const VALID: &str = r#"[file1]
boss_no_damage_progress="3.000000"
enemies_defeated="2442.000000"
castle="32.000000"
moon="16.000000"
snow="8.000000"
desert="4.000000"
forest="2.000000"
ending="1.000000"
intro="1.000000"
lives="9118.000000"
gems="40.000000"
[file3]
enemies_defeated="2442.000000"
castle="32.000000"
moon="16.000000"
snow="8.000000"
desert="4.000000"
forest="2.000000"
ending="1.000000"
intro="1.000000"
lives="9118.000000"
gems="40.000000"
"#;

const LENIENT_VALUES: &str = r#"[file2]
boss_no_damage_progress=3
enemies_defeated=2442
castle=32.
moon=16
snow=8
desert=4
forest=2
ending=1
intro=1.000000000
lives=9118
gems="40"
"#;

const INVALID_KEYS: &str = r#"[file1]
bos="1.000000"
enemies="2.000000"
"#;

const INVALID_VALUE_RANGES: &str = r#"[file1]
boss_no_damage_progress="8.000000"
enemies_defeated="1677216.000000"
castle="31.000000"
moon="15.000000"
snow="9.000000"
desert="5.000000"
forest="3.000000"
ending="2.000000"
intro="5.000000"
lives="100000.000000"
gems="100.000000"
"#;

const INVALID_VALUE_TYPES: &str = r#"[file1]
boss_no_damage_progress="x"
enemies_defeated="1x2"
castle="??"
moon="string"
snow="8,0"
desert="4 2"
forest="-"
ending="."
intro="+"
lives="9,118"
gems="4O"
"#;

const FILE_KEYS: [&str; 13] = [
    "boss_no_damage_progress",
    "enemies_defeated",
    "castle",
    "moon",
    "snow",
    "desert",
    "forest",
    "ending",
    "intro",
    "lives",
    "gems",
    "bos",
    "enemies",
];

// a section borrowed from a parsed document cannot outlive it, so the
// entries the tests need are copied into a section of their own
fn file_section(fixture: &str, name: &str) -> Section {
    let doc = parse_ini_file(fixture.to_string()).expect("fixture should parse");
    let sec = doc.section(name).expect("fixture should hold the section");
    let mut copy = Section::new(name);
    for key in FILE_KEYS {
        if let Some(v) = sec.get(key) {
            copy.insert(key, v.clone());
        }
    }
    copy
}

#[test]
fn file_into_properties() {
    let file = File {
        boss_no_damage_progress: BossNoDamageProgress::ForestCastle,
        enemies_defeated: EnemiesDefeated::try_from(1337).expect("in range"),
        level: Level::Moon,
        ending: Ending::Watched,
        intro: Intro::Watched,
        lives: Lives::try_from(5).expect("in range"),
        gems: Gems::try_from(99).expect("in range"),
    };
    let props: Section = file.into_properties();
    assert_eq!(
        props.get("boss_no_damage_progress").map(|v| v.as_str()),
        Some("\"5.000000\"")
    );
    assert_eq!(props.get("enemies_defeated").map(|v| v.as_str()), Some("\"1337.000000\""));
    assert_eq!(props.get("castle").map(|v| v.as_str()), Some("\"0.000000\""));
    assert_eq!(props.get("moon").map(|v| v.as_str()), Some("\"16.000000\""));
    assert_eq!(props.get("snow").map(|v| v.as_str()), Some("\"8.000000\""));
    assert_eq!(props.get("desert").map(|v| v.as_str()), Some("\"4.000000\""));
    assert_eq!(props.get("forest").map(|v| v.as_str()), Some("\"2.000000\""));
    assert_eq!(props.get("ending").map(|v| v.as_str()), Some("\"1.000000\""));
    assert_eq!(props.get("intro").map(|v| v.as_str()), Some("\"1.000000\""));
    assert_eq!(props.get("lives").map(|v| v.as_str()), Some("\"5.000000\""));
    assert_eq!(props.get("gems").map(|v| v.as_str()), Some("\"99.000000\""));
}

#[test]
fn file_default() {
    let section = file_section(DEFAULT, "file1");
    let (file_loaded, errors) = File::from_props_or_defaulted(&section);
    assert!(errors.is_empty());
    let file_default = File::default();
    assert_eq!(file_loaded, file_default);
}

#[test]
fn file_from_properties_valid_complete() {
    let section = file_section(VALID, "file1");
    let (file, errors) = File::from_props_or_defaulted(&section);
    assert!(errors.is_empty());
    assert_eq!(file.boss_no_damage_progress, BossNoDamageProgress::ForestDesert);
    assert_eq!(file.enemies_defeated, EnemiesDefeated::try_from(2442).expect("in range"));
    assert_eq!(file.level, Level::Castle);
    assert_eq!(file.ending, Ending::Watched);
    assert_eq!(file.intro, Intro::Watched);
    assert_eq!(file.lives, Lives::try_from(9118).expect("in range"));
    assert_eq!(file.gems, Gems::try_from(40).expect("in range"));
}

#[test]
fn file_from_properties_valid_missing() {
    let section = file_section(VALID, "file3");
    let (file, errors) = File::from_props_or_defaulted(&section);
    assert!(errors.is_empty());
    assert_eq!(file.boss_no_damage_progress, BossNoDamageProgress::Nothing);
    assert_eq!(file.enemies_defeated, EnemiesDefeated::try_from(2442).expect("in range"));
    assert_eq!(file.level, Level::Castle);
    assert_eq!(file.ending, Ending::Watched);
    assert_eq!(file.intro, Intro::Watched);
    assert_eq!(file.lives, Lives::try_from(9118).expect("in range"));
    assert_eq!(file.gems, Gems::try_from(40).expect("in range"));
}

#[test]
fn file_from_properties_lenient_values() {
    let section = file_section(LENIENT_VALUES, "file2");
    let (file, errors) = File::from_props_or_defaulted(&section);
    assert!(errors.is_empty());
    assert_eq!(file.boss_no_damage_progress, BossNoDamageProgress::ForestDesert);
    assert_eq!(file.enemies_defeated, EnemiesDefeated::try_from(2442).expect("in range"));
    assert_eq!(file.level, Level::Castle);
    assert_eq!(file.ending, Ending::Watched);
    assert_eq!(file.intro, Intro::Watched);
    assert_eq!(file.lives, Lives::try_from(9118).expect("in range"));
    assert_eq!(file.gems, Gems::try_from(40).expect("in range"));
}

#[test]
fn file_from_properties_invalid_keys() {
    let section = file_section(INVALID_KEYS, "file1");
    let (file, errors) = File::from_props_or_defaulted(&section);
    assert_eq!(file, File::default());
    assert_eq!(errors.len(), 10);
    for error in errors {
        assert!(matches!(
            &error,
            Error::KeyMissing(key) if key == "enemies_defeated"
                || key == "castle"
                || key == "moon"
                || key == "snow"
                || key == "desert"
                || key == "forest"
                || key == "ending"
                || key == "intro"
                || key == "lives"
                || key == "gems"
        ));
    }
}

#[test]
fn file_from_properties_invalid_value_ranges() {
    let section = file_section(INVALID_VALUE_RANGES, "file1");
    let (file, errors) = File::from_props_or_defaulted(&section);
    assert_eq!(file, File::default());
    assert_eq!(errors.len(), 11);
    for error in errors {
        assert!(matches!(error, Error::InvalidOrdinal(_) | Error::Range(_)));
    }
}

#[test]
fn file_from_properties_invalid_value_types() {
    let section = file_section(INVALID_VALUE_TYPES, "file1");
    let (file, errors) = File::from_props_or_defaulted(&section);
    assert_eq!(file, File::default());
    assert_eq!(errors.len(), 11);
    for error in errors {
        assert!(matches!(error, Error::NumberFormat(_)));
    }
}
