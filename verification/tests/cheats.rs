use whipseey_save_manager::data::cheats::{Cheats, CheatsEnabled};
use whipseey_save_manager::document::Section;
use whipseey_save_manager::util::error::Error;
use whipseey_save_manager::util::file::parse_ini_file;

const DEFAULT: &str = "[Cheats]\ncheats_enabled=0\n";

const VALID: &str = "[Cheats]\ncheats_enabled=1\n";

const LENIENT_VALUES: &str = "[Cheats]\ncheats_enabled=\"1.0\"\n";

const INVALID_KEYS: &str = "[Cheats]\ncheats=1\n";

const INVALID_VALUE_RANGES: &str = "[Cheats]\ncheats_enabled=2\n";

const INVALID_VALUE_TYPES: &str = "[Cheats]\ncheats_enabled=yes\n";

// a section borrowed from a parsed document cannot outlive it, so the
// entries the tests need are copied into a section of their own
fn cheats_section(fixture: &str) -> Section {
    let doc = parse_ini_file(fixture.to_string()).expect("fixture should parse");
    let sec = doc.section("Cheats").expect("fixture should hold a Cheats section");
    let mut copy = Section::new("Cheats");
    for key in ["cheats_enabled", "cheats"] {
        if let Some(v) = sec.get(key) {
            copy.insert(key, v.clone());
        }
    }
    copy
}

#[test]
fn cheats_into_properties() {
    let cheats = Cheats { cheats_enabled: CheatsEnabled::Enabled };
    let props: Section = cheats.into_properties();
    assert_eq!(props.get("cheats_enabled").map(|v| v.as_str()), Some("1"));
}

#[test]
fn cheats_default() {
    let section = cheats_section(DEFAULT);
    let cheats_loaded = Cheats::try_from(&section).expect("defaults should decode");
    let cheats_default = Cheats::default();
    assert_eq!(cheats_loaded, cheats_default);
}

#[test]
fn cheats_try_from_properties_valid() {
    let section = cheats_section(VALID);
    let cheats = Cheats::try_from(&section).expect("fixture should decode");
    assert_eq!(cheats.cheats_enabled, CheatsEnabled::Enabled);
}

#[test]
fn cheats_from_properties_valid() {
    let section = cheats_section(VALID);
    let (cheats, errors) = Cheats::from_props_or_defaulted(&section);
    assert!(errors.is_empty());
    assert_eq!(cheats.cheats_enabled, CheatsEnabled::Enabled);
}

#[test]
fn cheats_try_from_properties_lenient() {
    let section = cheats_section(LENIENT_VALUES);
    let cheats = Cheats::try_from(&section).expect("lenient spelling should decode");
    assert_eq!(cheats.cheats_enabled, CheatsEnabled::Enabled);
}

#[test]
fn cheats_from_properties_lenient() {
    let section = cheats_section(LENIENT_VALUES);
    let (cheats, errors) = Cheats::from_props_or_defaulted(&section);
    assert!(errors.is_empty());
    assert_eq!(cheats.cheats_enabled, CheatsEnabled::Enabled);
}

#[test]
fn cheats_try_from_properties_invalid_keys() {
    let section = cheats_section(INVALID_KEYS);
    let error = Cheats::try_from(&section).expect_err("missing key should fail");
    assert!(matches!(&error, Error::KeyMissing(key) if key == "cheats_enabled"));
}

#[test]
fn cheats_from_properties_invalid_keys() {
    let section = cheats_section(INVALID_KEYS);
    let (cheats, errors) = Cheats::from_props_or_defaulted(&section);
    assert_eq!(cheats, Cheats::default());
    assert_eq!(errors.len(), 1);
    for error in errors {
        assert!(matches!(&error, Error::KeyMissing(key) if key == "cheats_enabled"));
    }
}

#[test]
fn cheats_try_from_properties_invalid_value_ranges() {
    let section = cheats_section(INVALID_VALUE_RANGES);
    let error = Cheats::try_from(&section).expect_err("out-of-set ordinal should fail");
    assert!(matches!(error, Error::InvalidOrdinal(_)));
}

#[test]
fn cheats_from_properties_invalid_value_ranges() {
    let section = cheats_section(INVALID_VALUE_RANGES);
    let (cheats, errors) = Cheats::from_props_or_defaulted(&section);
    assert_eq!(cheats, Cheats::default());
    assert_eq!(errors.len(), 1);
    for error in errors {
        assert!(matches!(error, Error::InvalidOrdinal(_)));
    }
}

#[test]
fn cheats_try_from_properties_invalid_value_types() {
    let section = cheats_section(INVALID_VALUE_TYPES);
    let error = Cheats::try_from(&section).expect_err("unparseable text should fail");
    assert!(matches!(error, Error::NumberFormat(_)));
}

#[test]
fn cheats_from_properties_invalid_value_types() {
    let section = cheats_section(INVALID_VALUE_TYPES);
    let (cheats, errors) = Cheats::from_props_or_defaulted(&section);
    assert_eq!(cheats, Cheats::default());
    assert_eq!(errors.len(), 1);
    for error in errors {
        assert!(matches!(error, Error::NumberFormat(_)));
    }
}
