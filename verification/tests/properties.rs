use whipseey_save_manager::data::cheats::{Cheats, CheatsEnabled};
use whipseey_save_manager::data::file::{
    BossNoDamageProgress, Castle, Desert, EnemiesDefeated, Ending, File, Forest, Gems, Intro,
    Level, Lives, Moon, Snow,
};
use whipseey_save_manager::data::options::{
    Fullscreen, Language, LeftHanded, MusicToggle, MusicVolume, Options, Scale, SoundToggle,
    SoundVolume,
};
use whipseey_save_manager::data::{into_quoted_scaled_float_string, BfsSettings, WhipseeySaveData};
use whipseey_save_manager::document::Section;
use whipseey_save_manager::util::error::Error;
use whipseey_save_manager::util::file::{ini_to_vec_padded_no_spacing, parse_ini_file};

fn full_file_section(lives: &str) -> Section {
    file_section_with_castle("\"0.000000\"", lives)
}

fn file_section_with_castle(castle: &str, lives: &str) -> Section {
    let mut sec = Section::new("file1");
    sec.insert("boss_no_damage_progress", "\"7.000000\"".to_string());
    sec.insert("enemies_defeated", "\"1677215.000000\"".to_string());
    sec.insert("castle", castle.to_string());
    sec.insert("moon", "\"0.000000\"".to_string());
    sec.insert("snow", "\"8.000000\"".to_string());
    sec.insert("desert", "\"4.000000\"".to_string());
    sec.insert("forest", "\"2.000000\"".to_string());
    sec.insert("ending", "\"1.000000\"".to_string());
    sec.insert("intro", "\"0.000000\"".to_string());
    sec.insert("lives", lives.to_string());
    sec.insert("gems", "\"99.000000\"".to_string());
    sec
}

#[test]
fn scaled_float_sound_volume_step_thirty_encodes_to_exact_literal() {
    assert_eq!(into_quoted_scaled_float_string(30, 2), "\"0.300000\"");
}

#[test]
fn scaled_float_literal_decodes_to_step_thirty() {
    let mut sec = Section::new("options");
    sec.insert("sound_volume", "\"0.300000\"".to_string());
    let (options, _errors) = Options::from_props_or_defaulted(&sec);
    assert_eq!(options.sound_volume, SoundVolume::V30);
}

#[test]
fn primitive_roundtrips_and_bounds() {
    assert_eq!(Lives::try_from(1).expect("lower bound").value(), 1);
    assert_eq!(Lives::try_from(99999).expect("upper bound").value(), 99999);
    assert!(matches!(Lives::try_from(0), Err(Error::Range(_))));
    assert!(matches!(Lives::try_from(100000), Err(Error::Range(_))));
    assert_eq!(Gems::try_from(0).expect("lower bound").value(), 0);
    assert_eq!(Gems::try_from(99).expect("upper bound").value(), 99);
    assert!(matches!(Gems::try_from(100), Err(Error::Range(_))));
    assert_eq!(
        EnemiesDefeated::try_from(1677215).expect("upper bound").value(),
        1677215
    );
    assert!(matches!(EnemiesDefeated::try_from(1677216), Err(Error::Range(_))));
}

#[test]
fn enum_decode_rejects_ordinals_between_declared_ones() {
    // scale accepts only 2, 3 and 4; sound volume only multiples of ten;
    // a flag only zero and its own bit value
    let mut sec = Section::new("options");
    sec.insert("scale", "\"1.000000\"".to_string());
    let (options, errors) = Options::from_props_or_defaulted(&sec);
    assert_eq!(options.scale, Scale::R1152x648);
    assert!(errors.iter().any(|e| matches!(e, Error::InvalidOrdinal(k) if k == "scale")));

    let mut vol = Section::new("options");
    vol.insert("sound_volume", "\"0.350000\"".to_string());
    let (_, errors) = Options::from_props_or_defaulted(&vol);
    assert!(
        errors.iter().any(|e| matches!(e, Error::InvalidOrdinal(k) if k == "sound_volume"))
    );

    let flag = file_section_with_castle("\"16.000000\"", "\"5.000000\"");
    let (_, errors) = File::from_props_or_defaulted(&flag);
    assert!(errors.iter().any(|e| matches!(e, Error::InvalidOrdinal(k) if k == "castle")));
}

#[test]
fn boss_progress_value_reports_the_stored_ordinal() {
    assert_eq!(BossNoDamageProgress::Nothing.value(), 0);
    assert_eq!(BossNoDamageProgress::ForestDesert.value(), 3);
    assert_eq!(BossNoDamageProgress::ForestDesertCastle.value(), 7);
}

#[test]
fn level_codec_castle_roundtrip() {
    let parts = Level::Castle.into_parts();
    assert_eq!(
        parts,
        (
            Castle::Unlocked,
            Moon::Unlocked,
            Snow::Unlocked,
            Desert::Unlocked,
            Forest::Unlocked
        )
    );
    assert_eq!(Level::from_parts(parts), Level::Castle);
}

#[test]
fn level_codec_beach_roundtrip() {
    let parts = Level::Beach.into_parts();
    assert_eq!(
        parts,
        (Castle::Locked, Moon::Locked, Snow::Locked, Desert::Locked, Forest::Locked)
    );
    assert_eq!(Level::from_parts(parts), Level::Beach);
}

#[test]
fn level_codec_resolves_corrupt_flags_to_highest_set() {
    // a lower flag set without its higher neighbours is ignored
    let level = Level::from_parts((
        Castle::Locked,
        Moon::Unlocked,
        Snow::Locked,
        Desert::Locked,
        Forest::Unlocked,
    ));
    assert_eq!(level, Level::Moon);
}

#[test]
fn lenient_decode_of_empty_file_section_defaults_every_field() {
    let sec = Section::new("file1");
    let (file, errors) = File::from_props_or_defaulted(&sec);
    assert_eq!(file, File::default());
    assert_eq!(errors.len(), 10);
    for error in &errors {
        assert!(matches!(error, Error::KeyMissing(_)));
    }
    let keys: Vec<&str> = errors
        .iter()
        .map(|e| match e {
            Error::KeyMissing(k) => k.as_str(),
            _ => unreachable!(),
        })
        .collect();
    assert_eq!(
        keys,
        vec![
            "castle",
            "moon",
            "snow",
            "desert",
            "forest",
            "enemies_defeated",
            "ending",
            "intro",
            "lives",
            "gems"
        ]
    );
}

#[test]
fn strict_decode_of_out_of_range_lives_is_a_range_error() {
    let sec = full_file_section("\"123456.000000\"");
    let error = File::try_from(&sec).expect_err("out-of-range lives should fail");
    assert!(matches!(&error, Error::Range(key) if key == "lives"));
}

#[test]
fn strict_decode_of_unparseable_lives_is_a_number_format_error() {
    let sec = full_file_section("\"abc\"");
    let error = File::try_from(&sec).expect_err("unparseable lives should fail");
    assert!(matches!(&error, Error::NumberFormat(key) if key == "lives"));
}

#[test]
fn save_data_survives_the_whole_pipeline() {
    let file1 = File {
        boss_no_damage_progress: BossNoDamageProgress::ForestCastle,
        enemies_defeated: EnemiesDefeated::try_from(1677215).expect("in range"),
        level: Level::Moon,
        ending: Ending::Watched,
        intro: Intro::Unwatched,
        lives: Lives::try_from(99999).expect("in range"),
        gems: Gems::try_from(99).expect("in range"),
    };
    let file2 = File { level: Level::Forest, ..File::default() };
    let file3 = File::default();
    let save = WhipseeySaveData {
        options: Options {
            language: Language::Portuguese,
            scale: Scale::R768x432,
            fullscreen: Fullscreen::Disabled,
            left_handed: LeftHanded::Enabled,
            sound_volume: SoundVolume::V10,
            sound_toggle: SoundToggle::Disabled,
            music_volume: MusicVolume::V90,
            music_toggle: MusicToggle::Enabled,
        },
        files: [file1, file2, file3],
    };
    let bytes = ini_to_vec_padded_no_spacing(&save.into_ini(), 1024);
    assert_eq!(bytes.len(), 1024);
    let text = String::from_utf8(bytes).expect("output should be text");
    let doc = parse_ini_file(text).expect("written save should parse back");
    let reread = WhipseeySaveData::try_from(&doc).expect("written save should decode back");
    assert_eq!(reread, save);
}

#[test]
fn save_document_writes_sections_in_engine_order() {
    let save = WhipseeySaveData::default();
    let bytes = ini_to_vec_padded_no_spacing(&save.into_ini(), 0);
    let text = String::from_utf8(bytes).expect("output should be text");
    let o = text.find("[options]").expect("options section");
    let f1 = text.find("[file1]").expect("file1 section");
    let f2 = text.find("[file2]").expect("file2 section");
    let f3 = text.find("[file3]").expect("file3 section");
    assert!(o < f1 && f1 < f2 && f2 < f3);
}

#[test]
fn settings_survive_the_whole_pipeline() {
    let settings = BfsSettings {
        cheats: Cheats { cheats_enabled: CheatsEnabled::Enabled },
    };
    let bytes = ini_to_vec_padded_no_spacing(&settings.into_ini(), 0);
    assert_eq!(bytes, b"[Cheats]\r\ncheats_enabled=1\r\n");
    let text = String::from_utf8(bytes).expect("output should be text");
    let doc = parse_ini_file(text).expect("written settings should parse back");
    let reread = BfsSettings::try_from(&doc).expect("written settings should decode back");
    assert_eq!(reread, settings);
}

#[test]
fn lenient_save_decode_reports_missing_sections_and_never_fails() {
    let doc = parse_ini_file("[file2]\nlives=\"7.000000\"\n".to_string()).expect("should parse");
    let (save, errors) = WhipseeySaveData::from_ini(&doc);
    assert_eq!(save.options, Options::default());
    assert_eq!(save.files[1].lives, Lives::try_from(7).expect("in range"));
    assert!(errors.iter().any(|e| matches!(e, Error::SectionMissing(s) if s == "options")));
    assert!(errors.iter().any(|e| matches!(e, Error::SectionMissing(s) if s == "file1")));
    assert!(errors.iter().any(|e| matches!(e, Error::SectionMissing(s) if s == "file3")));
}
