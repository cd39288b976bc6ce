use whipseey_save_manager::data::options::{
    Fullscreen, Language, LeftHanded, MusicToggle, MusicVolume, Options, Scale, SoundToggle,
    SoundVolume,
};
use whipseey_save_manager::document::Section;
use whipseey_save_manager::util::error::Error;
use whipseey_save_manager::util::file::parse_ini_file;

const DEFAULT: &str = r#"[options]
language="0.000000"
scale="3.000000"
fullscreen="1.000000"
left_handed="0.000000"
sound_volume="1.000000"
sound_toggle="1.000000"
music_volume="1.000000"
music_toggle="1.000000"
"#;

const VALID: &str = r#"[options]
language="7.000000"
scale="4.000000"
fullscreen="0.000000"
left_handed="1.000000"
sound_volume="0.300000"
sound_toggle="1.000000"
music_volume="0.000000"
music_toggle="0.000000"
"#;

const LENIENT_VALUES: &str = r#"[options]
language=7
scale=4.0
fullscreen=0
left_handed=1.0
sound_volume=.3
sound_toggle=1
music_volume=0
music_toggle="0"
"#;

const INVALID_KEYS: &str = r#"[options]
lang="0.000000"
size="3.000000"
"#;

const INVALID_VALUE_RANGES: &str = r#"[options]
language="10.000000"
scale="5.000000"
fullscreen="2.000000"
left_handed="3.000000"
sound_volume="0.350000"
sound_toggle="2.000000"
music_volume="1.100000"
music_toggle="-1.000000"
"#;

const INVALID_VALUE_TYPES: &str = r#"[options]
language="abc"
scale="True"
fullscreen=""
left_handed="1O.000000"
sound_volume="0.3.0"
sound_toggle="--1"
music_volume="1,0"
music_toggle="one"
"#;

// a section borrowed from a parsed document cannot outlive it, so the
// entries the tests need are copied into a section of their own
fn options_section(fixture: &str) -> Section {
    let doc = parse_ini_file(fixture.to_string()).expect("fixture should parse");
    let sec = doc.section("options").expect("fixture should hold an options section");
    let mut copy = Section::new("options");
    let keys = [
        "language",
        "scale",
        "fullscreen",
        "left_handed",
        "sound_volume",
        "sound_toggle",
        "music_volume",
        "music_toggle",
        "lang",
        "size",
    ];
    for key in keys {
        if let Some(v) = sec.get(key) {
            copy.insert(key, v.clone());
        }
    }
    copy
}

#[test]
fn options_into_properties() {
    let options = Options {
        language: Language::Japanese,
        scale: Scale::R1152x648,
        fullscreen: Fullscreen::Disabled,
        left_handed: LeftHanded::Enabled,
        sound_volume: SoundVolume::V40,
        sound_toggle: SoundToggle::Enabled,
        music_volume: MusicVolume::V0,
        music_toggle: MusicToggle::Disabled,
    };
    let props: Section = options.into_properties();
    assert_eq!(props.get("language").map(|v| v.as_str()), Some("\"7.000000\""));
    assert_eq!(props.get("scale").map(|v| v.as_str()), Some("\"3.000000\""));
    assert_eq!(props.get("fullscreen").map(|v| v.as_str()), Some("\"0.000000\""));
    assert_eq!(props.get("left_handed").map(|v| v.as_str()), Some("\"1.000000\""));
    assert_eq!(props.get("sound_volume").map(|v| v.as_str()), Some("\"0.400000\""));
    assert_eq!(props.get("sound_toggle").map(|v| v.as_str()), Some("\"1.000000\""));
    assert_eq!(props.get("music_volume").map(|v| v.as_str()), Some("\"0.000000\""));
    assert_eq!(props.get("music_toggle").map(|v| v.as_str()), Some("\"0.000000\""));
}

#[test]
fn options_default() {
    let section = options_section(DEFAULT);
    let options_loaded = Options::try_from(&section).expect("defaults should decode");
    let options_default = Options::default();
    assert_eq!(options_loaded, options_default);
}

#[test]
fn options_try_from_properties_valid() {
    let section = options_section(VALID);
    let options = Options::try_from(&section).expect("fixture should decode");
    assert_eq!(options.language, Language::Japanese);
    assert_eq!(options.scale, Scale::R1536x864);
    assert_eq!(options.fullscreen, Fullscreen::Disabled);
    assert_eq!(options.left_handed, LeftHanded::Enabled);
    assert_eq!(options.sound_volume, SoundVolume::V30);
    assert_eq!(options.sound_toggle, SoundToggle::Enabled);
    assert_eq!(options.music_volume, MusicVolume::V0);
    assert_eq!(options.music_toggle, MusicToggle::Disabled);
}

#[test]
fn options_from_properties_valid() {
    let section = options_section(VALID);
    let (options, errors) = Options::from_props_or_defaulted(&section);
    assert!(errors.is_empty());
    assert_eq!(options.language, Language::Japanese);
    assert_eq!(options.scale, Scale::R1536x864);
    assert_eq!(options.fullscreen, Fullscreen::Disabled);
    assert_eq!(options.left_handed, LeftHanded::Enabled);
    assert_eq!(options.sound_volume, SoundVolume::V30);
    assert_eq!(options.sound_toggle, SoundToggle::Enabled);
    assert_eq!(options.music_volume, MusicVolume::V0);
    assert_eq!(options.music_toggle, MusicToggle::Disabled);
}

#[test]
fn options_try_from_properties_lenient_values() {
    let section = options_section(LENIENT_VALUES);
    let options = Options::try_from(&section).expect("lenient spellings should decode");
    assert_eq!(options.language, Language::Japanese);
    assert_eq!(options.scale, Scale::R1536x864);
    assert_eq!(options.fullscreen, Fullscreen::Disabled);
    assert_eq!(options.left_handed, LeftHanded::Enabled);
    assert_eq!(options.sound_volume, SoundVolume::V30);
    assert_eq!(options.sound_toggle, SoundToggle::Enabled);
    assert_eq!(options.music_volume, MusicVolume::V0);
    assert_eq!(options.music_toggle, MusicToggle::Disabled);
}

#[test]
fn options_from_properties_lenient_values() {
    let section = options_section(LENIENT_VALUES);
    let (options, errors) = Options::from_props_or_defaulted(&section);
    assert!(errors.is_empty());
    assert_eq!(options.language, Language::Japanese);
    assert_eq!(options.scale, Scale::R1536x864);
    assert_eq!(options.fullscreen, Fullscreen::Disabled);
    assert_eq!(options.left_handed, LeftHanded::Enabled);
    assert_eq!(options.sound_volume, SoundVolume::V30);
    assert_eq!(options.sound_toggle, SoundToggle::Enabled);
    assert_eq!(options.music_volume, MusicVolume::V0);
    assert_eq!(options.music_toggle, MusicToggle::Disabled);
}

#[test]
fn options_try_from_properties_invalid_keys() {
    let section = options_section(INVALID_KEYS);
    let error = Options::try_from(&section).expect_err("missing keys should fail");
    assert!(matches!(
        &error,
        Error::KeyMissing(key) if key == "language"
            || key == "scale"
            || key == "fullscreen"
            || key == "left_handed"
            || key == "sound_volume"
            || key == "sound_toggle"
            || key == "music_volume"
            || key == "music_toggle"
    ));
}

#[test]
fn options_from_properties_invalid_keys() {
    let section = options_section(INVALID_KEYS);
    let (options, errors) = Options::from_props_or_defaulted(&section);
    assert_eq!(options, Options::default());
    assert_eq!(errors.len(), 8);
    for error in errors {
        assert!(matches!(
            &error,
            Error::KeyMissing(key) if key == "language"
                || key == "scale"
                || key == "fullscreen"
                || key == "left_handed"
                || key == "sound_volume"
                || key == "sound_toggle"
                || key == "music_volume"
                || key == "music_toggle"
        ));
    }
}

#[test]
fn options_try_from_properties_invalid_value_ranges() {
    let section = options_section(INVALID_VALUE_RANGES);
    let error = Options::try_from(&section).expect_err("out-of-set ordinals should fail");
    assert!(matches!(error, Error::InvalidOrdinal(_)));
}

#[test]
fn options_from_properties_invalid_value_ranges() {
    let section = options_section(INVALID_VALUE_RANGES);
    let (options, errors) = Options::from_props_or_defaulted(&section);
    assert_eq!(options, Options::default());
    assert_eq!(errors.len(), 8);
    for error in errors {
        assert!(matches!(error, Error::InvalidOrdinal(_)));
    }
}

#[test]
fn options_try_from_properties_invalid_value_types() {
    let section = options_section(INVALID_VALUE_TYPES);
    let error = Options::try_from(&section).expect_err("unparseable text should fail");
    assert!(matches!(error, Error::NumberFormat(_)));
}

#[test]
fn options_from_properties_invalid_value_types() {
    let section = options_section(INVALID_VALUE_TYPES);
    let (options, errors) = Options::from_props_or_defaulted(&section);
    assert_eq!(options, Options::default());
    assert_eq!(errors.len(), 8);
    for error in errors {
        assert!(matches!(error, Error::NumberFormat(_)));
    }
}
