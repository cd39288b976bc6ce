use vstd::prelude::*;

use crate::data::{
    decode_field, decode_field_or_default, encode_field, field_errs, field_or_default,
    lemma_field_roundtrip, spec_decode_field, spec_quoted_scaled, IniField,
};
use crate::document::{sec_lookup, SecV, Section};
use crate::util::error::{errs_view, res_view, ErrV, Error};

verus! {

/// The `language` entry of the `options` section.
#[derive(Clone, Copy, Debug, PartialEq, Eq, Structural)]
pub enum Language {
    English,
    Spanish,
    French,
    Italian,
    German,
    Russian,
    Swedish,
    Japanese,
    Chinese,
    Portuguese,
}

impl Default for Language {
    fn default() -> (r: Self)
        ensures
            r == Language::English,
    {
        Language::English
    }
}

impl IniField for Language {
    open spec fn spec_key() -> Seq<char> {
        "language"@
    }

    open spec fn spec_shift() -> nat {
        0
    }

    open spec fn spec_from_ordinal(n: int) -> Option<Language> {
        if n == 0 {
            Some(Language::English)
        } else if n == 1 {
            Some(Language::Spanish)
        } else if n == 2 {
            Some(Language::French)
        } else if n == 3 {
            Some(Language::Italian)
        } else if n == 4 {
            Some(Language::German)
        } else if n == 5 {
            Some(Language::Russian)
        } else if n == 6 {
            Some(Language::Swedish)
        } else if n == 7 {
            Some(Language::Japanese)
        } else if n == 8 {
            Some(Language::Chinese)
        } else if n == 9 {
            Some(Language::Portuguese)
        } else {
            None
        }
    }

    open spec fn spec_ordinal(self) -> nat {
        match self {
            Language::English => 0,
            Language::Spanish => 1,
            Language::French => 2,
            Language::Italian => 3,
            Language::German => 4,
            Language::Russian => 5,
            Language::Swedish => 6,
            Language::Japanese => 7,
            Language::Chinese => 8,
            Language::Portuguese => 9,
        }
    }

    open spec fn spec_default() -> Language {
        Language::English
    }

    open spec fn spec_ranged() -> bool {
        false
    }

    open spec fn spec_valid(self) -> bool {
        true
    }

    proof fn lemma_roundtrip(self) {
    }

    proof fn lemma_decode_facts(n: int) {
    }

    fn key() -> (r: &'static str) {
        "language"
    }

    fn shift() -> (r: u32) {
        0
    }

    fn ranged() -> (r: bool) {
        false
    }

    fn from_ordinal(n: u64) -> (r: Option<Language>) {
        if n == 0 {
            Some(Language::English)
        } else if n == 1 {
            Some(Language::Spanish)
        } else if n == 2 {
            Some(Language::French)
        } else if n == 3 {
            Some(Language::Italian)
        } else if n == 4 {
            Some(Language::German)
        } else if n == 5 {
            Some(Language::Russian)
        } else if n == 6 {
            Some(Language::Swedish)
        } else if n == 7 {
            Some(Language::Japanese)
        } else if n == 8 {
            Some(Language::Chinese)
        } else if n == 9 {
            Some(Language::Portuguese)
        } else {
            None
        }
    }

    fn ordinal(self) -> (r: u64) {
        match self {
            Language::English => 0,
            Language::Spanish => 1,
            Language::French => 2,
            Language::Italian => 3,
            Language::German => 4,
            Language::Russian => 5,
            Language::Swedish => 6,
            Language::Japanese => 7,
            Language::Chinese => 8,
            Language::Portuguese => 9,
        }
    }

    fn field_default() -> (r: Language) {
        Language::English
    }
}

/// The `scale` entry of the `options` section; its ordinals are sparse.
#[derive(Clone, Copy, Debug, PartialEq, Eq, Structural)]
pub enum Scale {
    R768x432,
    R1152x648,
    R1536x864,
}

impl Default for Scale {
    fn default() -> (r: Self)
        ensures
            r == Scale::R1152x648,
    {
        Scale::R1152x648
    }
}

impl IniField for Scale {
    open spec fn spec_key() -> Seq<char> {
        "scale"@
    }

    open spec fn spec_shift() -> nat {
        0
    }

    open spec fn spec_from_ordinal(n: int) -> Option<Scale> {
        if n == 2 {
            Some(Scale::R768x432)
        } else if n == 3 {
            Some(Scale::R1152x648)
        } else if n == 4 {
            Some(Scale::R1536x864)
        } else {
            None
        }
    }

    open spec fn spec_ordinal(self) -> nat {
        match self {
            Scale::R768x432 => 2,
            Scale::R1152x648 => 3,
            Scale::R1536x864 => 4,
        }
    }

    open spec fn spec_default() -> Scale {
        Scale::R1152x648
    }

    open spec fn spec_ranged() -> bool {
        false
    }

    open spec fn spec_valid(self) -> bool {
        true
    }

    proof fn lemma_roundtrip(self) {
    }

    proof fn lemma_decode_facts(n: int) {
    }

    fn key() -> (r: &'static str) {
        "scale"
    }

    fn shift() -> (r: u32) {
        0
    }

    fn ranged() -> (r: bool) {
        false
    }

    fn from_ordinal(n: u64) -> (r: Option<Scale>) {
        if n == 2 {
            Some(Scale::R768x432)
        } else if n == 3 {
            Some(Scale::R1152x648)
        } else if n == 4 {
            Some(Scale::R1536x864)
        } else {
            None
        }
    }

    fn ordinal(self) -> (r: u64) {
        match self {
            Scale::R768x432 => 2,
            Scale::R1152x648 => 3,
            Scale::R1536x864 => 4,
        }
    }

    fn field_default() -> (r: Scale) {
        Scale::R1152x648
    }
}

/// The `fullscreen` entry of the `options` section.
#[derive(Clone, Copy, Debug, PartialEq, Eq, Structural)]
pub enum Fullscreen {
    Disabled,
    Enabled,
}

impl Default for Fullscreen {
    fn default() -> (r: Self)
        ensures
            r == Fullscreen::Enabled,
    {
        Fullscreen::Enabled
    }
}

impl IniField for Fullscreen {
    open spec fn spec_key() -> Seq<char> {
        "fullscreen"@
    }

    open spec fn spec_shift() -> nat {
        0
    }

    open spec fn spec_from_ordinal(n: int) -> Option<Fullscreen> {
        if n == 0 {
            Some(Fullscreen::Disabled)
        } else if n == 1 {
            Some(Fullscreen::Enabled)
        } else {
            None
        }
    }

    open spec fn spec_ordinal(self) -> nat {
        match self {
            Fullscreen::Disabled => 0,
            Fullscreen::Enabled => 1,
        }
    }

    open spec fn spec_default() -> Fullscreen {
        Fullscreen::Enabled
    }

    open spec fn spec_ranged() -> bool {
        false
    }

    open spec fn spec_valid(self) -> bool {
        true
    }

    proof fn lemma_roundtrip(self) {
    }

    proof fn lemma_decode_facts(n: int) {
    }

    fn key() -> (r: &'static str) {
        "fullscreen"
    }

    fn shift() -> (r: u32) {
        0
    }

    fn ranged() -> (r: bool) {
        false
    }

    fn from_ordinal(n: u64) -> (r: Option<Fullscreen>) {
        if n == 0 {
            Some(Fullscreen::Disabled)
        } else if n == 1 {
            Some(Fullscreen::Enabled)
        } else {
            None
        }
    }

    fn ordinal(self) -> (r: u64) {
        match self {
            Fullscreen::Disabled => 0,
            Fullscreen::Enabled => 1,
        }
    }

    fn field_default() -> (r: Fullscreen) {
        Fullscreen::Enabled
    }
}

/// The `left_handed` entry of the `options` section.
#[derive(Clone, Copy, Debug, PartialEq, Eq, Structural)]
pub enum LeftHanded {
    Disabled,
    Enabled,
}

impl Default for LeftHanded {
    fn default() -> (r: Self)
        ensures
            r == LeftHanded::Disabled,
    {
        LeftHanded::Disabled
    }
}

impl IniField for LeftHanded {
    open spec fn spec_key() -> Seq<char> {
        "left_handed"@
    }

    open spec fn spec_shift() -> nat {
        0
    }

    open spec fn spec_from_ordinal(n: int) -> Option<LeftHanded> {
        if n == 0 {
            Some(LeftHanded::Disabled)
        } else if n == 1 {
            Some(LeftHanded::Enabled)
        } else {
            None
        }
    }

    open spec fn spec_ordinal(self) -> nat {
        match self {
            LeftHanded::Disabled => 0,
            LeftHanded::Enabled => 1,
        }
    }

    open spec fn spec_default() -> LeftHanded {
        LeftHanded::Disabled
    }

    open spec fn spec_ranged() -> bool {
        false
    }

    open spec fn spec_valid(self) -> bool {
        true
    }

    proof fn lemma_roundtrip(self) {
    }

    proof fn lemma_decode_facts(n: int) {
    }

    fn key() -> (r: &'static str) {
        "left_handed"
    }

    fn shift() -> (r: u32) {
        0
    }

    fn ranged() -> (r: bool) {
        false
    }

    fn from_ordinal(n: u64) -> (r: Option<LeftHanded>) {
        if n == 0 {
            Some(LeftHanded::Disabled)
        } else if n == 1 {
            Some(LeftHanded::Enabled)
        } else {
            None
        }
    }

    fn ordinal(self) -> (r: u64) {
        match self {
            LeftHanded::Disabled => 0,
            LeftHanded::Enabled => 1,
        }
    }

    fn field_default() -> (r: LeftHanded) {
        LeftHanded::Disabled
    }
}

/// The `sound_volume` entry of the `options` section: eleven steps of ten, stored as a quoted fraction of one.
#[derive(Clone, Copy, Debug, PartialEq, Eq, Structural)]
pub enum SoundVolume {
    V0,
    V10,
    V20,
    V30,
    V40,
    V50,
    V60,
    V70,
    V80,
    V90,
    V100,
}

impl Default for SoundVolume {
    fn default() -> (r: Self)
        ensures
            r == SoundVolume::V100,
    {
        SoundVolume::V100
    }
}

impl IniField for SoundVolume {
    open spec fn spec_key() -> Seq<char> {
        "sound_volume"@
    }

    open spec fn spec_shift() -> nat {
        2
    }

    open spec fn spec_from_ordinal(n: int) -> Option<SoundVolume> {
        if n == 0 {
            Some(SoundVolume::V0)
        } else if n == 10 {
            Some(SoundVolume::V10)
        } else if n == 20 {
            Some(SoundVolume::V20)
        } else if n == 30 {
            Some(SoundVolume::V30)
        } else if n == 40 {
            Some(SoundVolume::V40)
        } else if n == 50 {
            Some(SoundVolume::V50)
        } else if n == 60 {
            Some(SoundVolume::V60)
        } else if n == 70 {
            Some(SoundVolume::V70)
        } else if n == 80 {
            Some(SoundVolume::V80)
        } else if n == 90 {
            Some(SoundVolume::V90)
        } else if n == 100 {
            Some(SoundVolume::V100)
        } else {
            None
        }
    }

    open spec fn spec_ordinal(self) -> nat {
        match self {
            SoundVolume::V0 => 0,
            SoundVolume::V10 => 10,
            SoundVolume::V20 => 20,
            SoundVolume::V30 => 30,
            SoundVolume::V40 => 40,
            SoundVolume::V50 => 50,
            SoundVolume::V60 => 60,
            SoundVolume::V70 => 70,
            SoundVolume::V80 => 80,
            SoundVolume::V90 => 90,
            SoundVolume::V100 => 100,
        }
    }

    open spec fn spec_default() -> SoundVolume {
        SoundVolume::V100
    }

    open spec fn spec_ranged() -> bool {
        false
    }

    open spec fn spec_valid(self) -> bool {
        true
    }

    proof fn lemma_roundtrip(self) {
    }

    proof fn lemma_decode_facts(n: int) {
    }

    fn key() -> (r: &'static str) {
        "sound_volume"
    }

    fn shift() -> (r: u32) {
        2
    }

    fn ranged() -> (r: bool) {
        false
    }

    fn from_ordinal(n: u64) -> (r: Option<SoundVolume>) {
        if n == 0 {
            Some(SoundVolume::V0)
        } else if n == 10 {
            Some(SoundVolume::V10)
        } else if n == 20 {
            Some(SoundVolume::V20)
        } else if n == 30 {
            Some(SoundVolume::V30)
        } else if n == 40 {
            Some(SoundVolume::V40)
        } else if n == 50 {
            Some(SoundVolume::V50)
        } else if n == 60 {
            Some(SoundVolume::V60)
        } else if n == 70 {
            Some(SoundVolume::V70)
        } else if n == 80 {
            Some(SoundVolume::V80)
        } else if n == 90 {
            Some(SoundVolume::V90)
        } else if n == 100 {
            Some(SoundVolume::V100)
        } else {
            None
        }
    }

    fn ordinal(self) -> (r: u64) {
        match self {
            SoundVolume::V0 => 0,
            SoundVolume::V10 => 10,
            SoundVolume::V20 => 20,
            SoundVolume::V30 => 30,
            SoundVolume::V40 => 40,
            SoundVolume::V50 => 50,
            SoundVolume::V60 => 60,
            SoundVolume::V70 => 70,
            SoundVolume::V80 => 80,
            SoundVolume::V90 => 90,
            SoundVolume::V100 => 100,
        }
    }

    fn field_default() -> (r: SoundVolume) {
        SoundVolume::V100
    }
}

/// The `sound_toggle` entry of the `options` section.
#[derive(Clone, Copy, Debug, PartialEq, Eq, Structural)]
pub enum SoundToggle {
    Disabled,
    Enabled,
}

impl Default for SoundToggle {
    fn default() -> (r: Self)
        ensures
            r == SoundToggle::Enabled,
    {
        SoundToggle::Enabled
    }
}

impl IniField for SoundToggle {
    open spec fn spec_key() -> Seq<char> {
        "sound_toggle"@
    }

    open spec fn spec_shift() -> nat {
        0
    }

    open spec fn spec_from_ordinal(n: int) -> Option<SoundToggle> {
        if n == 0 {
            Some(SoundToggle::Disabled)
        } else if n == 1 {
            Some(SoundToggle::Enabled)
        } else {
            None
        }
    }

    open spec fn spec_ordinal(self) -> nat {
        match self {
            SoundToggle::Disabled => 0,
            SoundToggle::Enabled => 1,
        }
    }

    open spec fn spec_default() -> SoundToggle {
        SoundToggle::Enabled
    }

    open spec fn spec_ranged() -> bool {
        false
    }

    open spec fn spec_valid(self) -> bool {
        true
    }

    proof fn lemma_roundtrip(self) {
    }

    proof fn lemma_decode_facts(n: int) {
    }

    fn key() -> (r: &'static str) {
        "sound_toggle"
    }

    fn shift() -> (r: u32) {
        0
    }

    fn ranged() -> (r: bool) {
        false
    }

    fn from_ordinal(n: u64) -> (r: Option<SoundToggle>) {
        if n == 0 {
            Some(SoundToggle::Disabled)
        } else if n == 1 {
            Some(SoundToggle::Enabled)
        } else {
            None
        }
    }

    fn ordinal(self) -> (r: u64) {
        match self {
            SoundToggle::Disabled => 0,
            SoundToggle::Enabled => 1,
        }
    }

    fn field_default() -> (r: SoundToggle) {
        SoundToggle::Enabled
    }
}

/// The `music_volume` entry of the `options` section: eleven steps of ten, stored as a quoted fraction of one.
#[derive(Clone, Copy, Debug, PartialEq, Eq, Structural)]
pub enum MusicVolume {
    V0,
    V10,
    V20,
    V30,
    V40,
    V50,
    V60,
    V70,
    V80,
    V90,
    V100,
}

impl Default for MusicVolume {
    fn default() -> (r: Self)
        ensures
            r == MusicVolume::V100,
    {
        MusicVolume::V100
    }
}

impl IniField for MusicVolume {
    open spec fn spec_key() -> Seq<char> {
        "music_volume"@
    }

    open spec fn spec_shift() -> nat {
        2
    }

    open spec fn spec_from_ordinal(n: int) -> Option<MusicVolume> {
        if n == 0 {
            Some(MusicVolume::V0)
        } else if n == 10 {
            Some(MusicVolume::V10)
        } else if n == 20 {
            Some(MusicVolume::V20)
        } else if n == 30 {
            Some(MusicVolume::V30)
        } else if n == 40 {
            Some(MusicVolume::V40)
        } else if n == 50 {
            Some(MusicVolume::V50)
        } else if n == 60 {
            Some(MusicVolume::V60)
        } else if n == 70 {
            Some(MusicVolume::V70)
        } else if n == 80 {
            Some(MusicVolume::V80)
        } else if n == 90 {
            Some(MusicVolume::V90)
        } else if n == 100 {
            Some(MusicVolume::V100)
        } else {
            None
        }
    }

    open spec fn spec_ordinal(self) -> nat {
        match self {
            MusicVolume::V0 => 0,
            MusicVolume::V10 => 10,
            MusicVolume::V20 => 20,
            MusicVolume::V30 => 30,
            MusicVolume::V40 => 40,
            MusicVolume::V50 => 50,
            MusicVolume::V60 => 60,
            MusicVolume::V70 => 70,
            MusicVolume::V80 => 80,
            MusicVolume::V90 => 90,
            MusicVolume::V100 => 100,
        }
    }

    open spec fn spec_default() -> MusicVolume {
        MusicVolume::V100
    }

    open spec fn spec_ranged() -> bool {
        false
    }

    open spec fn spec_valid(self) -> bool {
        true
    }

    proof fn lemma_roundtrip(self) {
    }

    proof fn lemma_decode_facts(n: int) {
    }

    fn key() -> (r: &'static str) {
        "music_volume"
    }

    fn shift() -> (r: u32) {
        2
    }

    fn ranged() -> (r: bool) {
        false
    }

    fn from_ordinal(n: u64) -> (r: Option<MusicVolume>) {
        if n == 0 {
            Some(MusicVolume::V0)
        } else if n == 10 {
            Some(MusicVolume::V10)
        } else if n == 20 {
            Some(MusicVolume::V20)
        } else if n == 30 {
            Some(MusicVolume::V30)
        } else if n == 40 {
            Some(MusicVolume::V40)
        } else if n == 50 {
            Some(MusicVolume::V50)
        } else if n == 60 {
            Some(MusicVolume::V60)
        } else if n == 70 {
            Some(MusicVolume::V70)
        } else if n == 80 {
            Some(MusicVolume::V80)
        } else if n == 90 {
            Some(MusicVolume::V90)
        } else if n == 100 {
            Some(MusicVolume::V100)
        } else {
            None
        }
    }

    fn ordinal(self) -> (r: u64) {
        match self {
            MusicVolume::V0 => 0,
            MusicVolume::V10 => 10,
            MusicVolume::V20 => 20,
            MusicVolume::V30 => 30,
            MusicVolume::V40 => 40,
            MusicVolume::V50 => 50,
            MusicVolume::V60 => 60,
            MusicVolume::V70 => 70,
            MusicVolume::V80 => 80,
            MusicVolume::V90 => 90,
            MusicVolume::V100 => 100,
        }
    }

    fn field_default() -> (r: MusicVolume) {
        MusicVolume::V100
    }
}

/// The `music_toggle` entry of the `options` section.
#[derive(Clone, Copy, Debug, PartialEq, Eq, Structural)]
pub enum MusicToggle {
    Disabled,
    Enabled,
}

impl Default for MusicToggle {
    fn default() -> (r: Self)
        ensures
            r == MusicToggle::Enabled,
    {
        MusicToggle::Enabled
    }
}

impl IniField for MusicToggle {
    open spec fn spec_key() -> Seq<char> {
        "music_toggle"@
    }

    open spec fn spec_shift() -> nat {
        0
    }

    open spec fn spec_from_ordinal(n: int) -> Option<MusicToggle> {
        if n == 0 {
            Some(MusicToggle::Disabled)
        } else if n == 1 {
            Some(MusicToggle::Enabled)
        } else {
            None
        }
    }

    open spec fn spec_ordinal(self) -> nat {
        match self {
            MusicToggle::Disabled => 0,
            MusicToggle::Enabled => 1,
        }
    }

    open spec fn spec_default() -> MusicToggle {
        MusicToggle::Enabled
    }

    open spec fn spec_ranged() -> bool {
        false
    }

    open spec fn spec_valid(self) -> bool {
        true
    }

    proof fn lemma_roundtrip(self) {
    }

    proof fn lemma_decode_facts(n: int) {
    }

    fn key() -> (r: &'static str) {
        "music_toggle"
    }

    fn shift() -> (r: u32) {
        0
    }

    fn ranged() -> (r: bool) {
        false
    }

    fn from_ordinal(n: u64) -> (r: Option<MusicToggle>) {
        if n == 0 {
            Some(MusicToggle::Disabled)
        } else if n == 1 {
            Some(MusicToggle::Enabled)
        } else {
            None
        }
    }

    fn ordinal(self) -> (r: u64) {
        match self {
            MusicToggle::Disabled => 0,
            MusicToggle::Enabled => 1,
        }
    }

    fn field_default() -> (r: MusicToggle) {
        MusicToggle::Enabled
    }
}

/// The `options` section of the save file: one value per entry, in the
/// order the engine writes them.
#[derive(Clone, Copy, Debug, PartialEq, Eq, Structural)]
pub struct Options {
    pub language: Language,
    pub scale: Scale,
    pub fullscreen: Fullscreen,
    pub left_handed: LeftHanded,
    pub sound_volume: SoundVolume,
    pub sound_toggle: SoundToggle,
    pub music_volume: MusicVolume,
    pub music_toggle: MusicToggle,
}

impl Default for Options {
    fn default() -> (r: Self)
        ensures
            r == spec_options_default(),
    {
        Options {
            language: Language::English,
            scale: Scale::R1152x648,
            fullscreen: Fullscreen::Enabled,
            left_handed: LeftHanded::Disabled,
            sound_volume: SoundVolume::V100,
            sound_toggle: SoundToggle::Enabled,
            music_volume: MusicVolume::V100,
            music_toggle: MusicToggle::Enabled,
        }
    }
}

/// The record every field of which holds its default.
pub open spec fn spec_options_default() -> Options {
    Options {
        language: Language::spec_default(),
        scale: Scale::spec_default(),
        fullscreen: Fullscreen::spec_default(),
        left_handed: LeftHanded::spec_default(),
        sound_volume: SoundVolume::spec_default(),
        sound_toggle: SoundToggle::spec_default(),
        music_volume: MusicVolume::spec_default(),
        music_toggle: MusicToggle::spec_default(),
    }
}

/// What strict decoding of the `options` section yields: every field in
/// order, stopping at the first fault.
pub open spec fn spec_options_try_from(sec: SecV) -> Result<Options, ErrV> {
    match spec_decode_field::<Language>(sec) {
        Err(e) => Err(e),
        Ok(language) => match spec_decode_field::<Scale>(sec) {
            Err(e) => Err(e),
            Ok(scale) => match spec_decode_field::<Fullscreen>(sec) {
                Err(e) => Err(e),
                Ok(fullscreen) => match spec_decode_field::<LeftHanded>(sec) {
                    Err(e) => Err(e),
                    Ok(left_handed) => match spec_decode_field::<SoundVolume>(sec) {
                        Err(e) => Err(e),
                        Ok(sound_volume) => match spec_decode_field::<SoundToggle>(sec) {
                            Err(e) => Err(e),
                            Ok(sound_toggle) => match spec_decode_field::<MusicVolume>(sec) {
                                Err(e) => Err(e),
                                Ok(music_volume) => match spec_decode_field::<MusicToggle>(sec) {
                                    Err(e) => Err(e),
                                    Ok(music_toggle) => Ok(
                                        Options {
                                            language,
                                            scale,
                                            fullscreen,
                                            left_handed,
                                            sound_volume,
                                            sound_toggle,
                                            music_volume,
                                            music_toggle,
                                        },
                                    ),
                                },
                            },
                        },
                    },
                },
            },
        },
    }
}

/// What lenient decoding of the `options` section yields: an always-valid
/// record, and one diagnostic per failed field, in field order.
pub open spec fn spec_options_from_props(sec: SecV) -> (Options, Seq<ErrV>) {
    (
        Options {
            language: field_or_default::<Language>(sec),
            scale: field_or_default::<Scale>(sec),
            fullscreen: field_or_default::<Fullscreen>(sec),
            left_handed: field_or_default::<LeftHanded>(sec),
            sound_volume: field_or_default::<SoundVolume>(sec),
            sound_toggle: field_or_default::<SoundToggle>(sec),
            music_volume: field_or_default::<MusicVolume>(sec),
            music_toggle: field_or_default::<MusicToggle>(sec),
        },
        field_errs::<Language>(sec) + field_errs::<Scale>(sec) + field_errs::<Fullscreen>(sec)
            + field_errs::<LeftHanded>(sec) + field_errs::<SoundVolume>(sec) + field_errs::<
            SoundToggle,
        >(sec) + field_errs::<MusicVolume>(sec) + field_errs::<MusicToggle>(sec),
    )
}

/// The entries the engine stores for an `options` record, in its order.
pub open spec fn spec_options_entries(o: Options) -> Seq<(Seq<char>, Seq<char>)> {
    seq![
        (Language::spec_key(), spec_quoted_scaled(o.language.spec_ordinal(), 0)),
        (Scale::spec_key(), spec_quoted_scaled(o.scale.spec_ordinal(), 0)),
        (Fullscreen::spec_key(), spec_quoted_scaled(o.fullscreen.spec_ordinal(), 0)),
        (LeftHanded::spec_key(), spec_quoted_scaled(o.left_handed.spec_ordinal(), 0)),
        (SoundVolume::spec_key(), spec_quoted_scaled(o.sound_volume.spec_ordinal(), 2)),
        (SoundToggle::spec_key(), spec_quoted_scaled(o.sound_toggle.spec_ordinal(), 0)),
        (MusicVolume::spec_key(), spec_quoted_scaled(o.music_volume.spec_ordinal(), 2)),
        (MusicToggle::spec_key(), spec_quoted_scaled(o.music_toggle.spec_ordinal(), 0)),
    ]
}

impl Options {
    /// The section name the record is stored under.
    pub fn ini_section_str() -> (r: &'static str)
        ensures
            r@ == "options"@,
    {
        "options"
    }

    /// Strict decode: every field in order, failing on the first fault.
    pub fn try_from(sec: &Section) -> (r: Result<Options, Error>)
        ensures
            res_view(r) == spec_options_try_from(sec@),
    {
        let language = match decode_field::<Language>(sec) {
            Ok(v) => v,
            Err(e) => {
                return Err(e);
            },
        };
        let scale = match decode_field::<Scale>(sec) {
            Ok(v) => v,
            Err(e) => {
                return Err(e);
            },
        };
        let fullscreen = match decode_field::<Fullscreen>(sec) {
            Ok(v) => v,
            Err(e) => {
                return Err(e);
            },
        };
        let left_handed = match decode_field::<LeftHanded>(sec) {
            Ok(v) => v,
            Err(e) => {
                return Err(e);
            },
        };
        let sound_volume = match decode_field::<SoundVolume>(sec) {
            Ok(v) => v,
            Err(e) => {
                return Err(e);
            },
        };
        let sound_toggle = match decode_field::<SoundToggle>(sec) {
            Ok(v) => v,
            Err(e) => {
                return Err(e);
            },
        };
        let music_volume = match decode_field::<MusicVolume>(sec) {
            Ok(v) => v,
            Err(e) => {
                return Err(e);
            },
        };
        let music_toggle = match decode_field::<MusicToggle>(sec) {
            Ok(v) => v,
            Err(e) => {
                return Err(e);
            },
        };
        Ok(
            Options {
                language,
                scale,
                fullscreen,
                left_handed,
                sound_volume,
                sound_toggle,
                music_volume,
                music_toggle,
            },
        )
    }

    /// Lenient decode: every failed field falls back to its default and
    /// leaves one diagnostic, in field order.
    pub fn from_props_or_defaulted(sec: &Section) -> (r: (Options, Vec<Error>))
        ensures
            r.0 == spec_options_from_props(sec@).0,
            errs_view(r.1@) == spec_options_from_props(sec@).1,
    {
        let mut errors: Vec<Error> = Vec::new();
        proof {
            assert(errs_view(errors@) =~= Seq::<ErrV>::empty());
        }
        let language = decode_field_or_default::<Language>(sec, &mut errors);
        let ghost p1 = field_errs::<Language>(sec@);
        proof {
            assert(errs_view(errors@) =~= p1);
        }
        let scale = decode_field_or_default::<Scale>(sec, &mut errors);
        let ghost p2 = p1 + field_errs::<Scale>(sec@);
        proof {
            assert(errs_view(errors@) =~= p2);
        }
        let fullscreen = decode_field_or_default::<Fullscreen>(sec, &mut errors);
        let ghost p3 = p2 + field_errs::<Fullscreen>(sec@);
        proof {
            assert(errs_view(errors@) =~= p3);
        }
        let left_handed = decode_field_or_default::<LeftHanded>(sec, &mut errors);
        let ghost p4 = p3 + field_errs::<LeftHanded>(sec@);
        proof {
            assert(errs_view(errors@) =~= p4);
        }
        let sound_volume = decode_field_or_default::<SoundVolume>(sec, &mut errors);
        let ghost p5 = p4 + field_errs::<SoundVolume>(sec@);
        proof {
            assert(errs_view(errors@) =~= p5);
        }
        let sound_toggle = decode_field_or_default::<SoundToggle>(sec, &mut errors);
        let ghost p6 = p5 + field_errs::<SoundToggle>(sec@);
        proof {
            assert(errs_view(errors@) =~= p6);
        }
        let music_volume = decode_field_or_default::<MusicVolume>(sec, &mut errors);
        let ghost p7 = p6 + field_errs::<MusicVolume>(sec@);
        proof {
            assert(errs_view(errors@) =~= p7);
        }
        let music_toggle = decode_field_or_default::<MusicToggle>(sec, &mut errors);
        let ghost p8 = p7 + field_errs::<MusicToggle>(sec@);
        proof {
            assert(errs_view(errors@) =~= p8);
            assert(p8 =~= spec_options_from_props(sec@).1);
        }
        (
            Options {
                language,
                scale,
                fullscreen,
                left_handed,
                sound_volume,
                sound_toggle,
                music_volume,
                music_toggle,
            },
            errors,
        )
    }

    /// The stored form of the record: its entries in engine order, under an
    /// empty name, to be placed into a document under a section name.
    pub fn into_properties(&self) -> (r: Section)
        ensures
            r@.name.len() == 0,
            r@.entries == spec_options_entries(*self),
    {
        let mut sec = Section::new("");
        encode_field::<Language>(&mut sec, self.language);
        encode_field::<Scale>(&mut sec, self.scale);
        encode_field::<Fullscreen>(&mut sec, self.fullscreen);
        encode_field::<LeftHanded>(&mut sec, self.left_handed);
        encode_field::<SoundVolume>(&mut sec, self.sound_volume);
        encode_field::<SoundToggle>(&mut sec, self.sound_toggle);
        encode_field::<MusicVolume>(&mut sec, self.music_volume);
        encode_field::<MusicToggle>(&mut sec, self.music_toggle);
        proof {
            reveal_strlit("");
            assert(sec@.entries =~= spec_options_entries(*self));
        }
        sec
    }
}

/// Strict decoding reads back exactly the record that encoding stored:
/// the round trip of the whole `options` section.
pub proof fn lemma_options_roundtrip(o: Options, sec: SecV)
    requires
        sec.entries == spec_options_entries(o),
    ensures
        spec_options_try_from(sec) == Ok::<Options, ErrV>(o),
{
    reveal_strlit("language");
    reveal_strlit("scale");
    reveal_strlit("fullscreen");
    reveal_strlit("left_handed");
    reveal_strlit("sound_volume");
    reveal_strlit("sound_toggle");
    reveal_strlit("music_volume");
    reveal_strlit("music_toggle");
    reveal_with_fuel(sec_lookup, 10);
    assert(Language::spec_key().len() == 8);
    assert(Scale::spec_key().len() == 5);
    assert(Fullscreen::spec_key().len() == 10);
    assert(LeftHanded::spec_key().len() == 11);
    assert(SoundVolume::spec_key().len() == 12);
    assert(SoundToggle::spec_key().len() == 12);
    assert(MusicVolume::spec_key().len() == 12);
    assert(MusicToggle::spec_key().len() == 12);
    assert(SoundVolume::spec_key() != SoundToggle::spec_key()) by {
        assert(SoundVolume::spec_key()[6] != SoundToggle::spec_key()[6]);
    }
    assert(SoundVolume::spec_key() != MusicVolume::spec_key()) by {
        assert(SoundVolume::spec_key()[0] != MusicVolume::spec_key()[0]);
    }
    assert(SoundVolume::spec_key() != MusicToggle::spec_key()) by {
        assert(SoundVolume::spec_key()[0] != MusicToggle::spec_key()[0]);
    }
    assert(SoundToggle::spec_key() != MusicVolume::spec_key()) by {
        assert(SoundToggle::spec_key()[0] != MusicVolume::spec_key()[0]);
    }
    assert(SoundToggle::spec_key() != MusicToggle::spec_key()) by {
        assert(SoundToggle::spec_key()[0] != MusicToggle::spec_key()[0]);
    }
    assert(MusicVolume::spec_key() != MusicToggle::spec_key()) by {
        assert(MusicVolume::spec_key()[6] != MusicToggle::spec_key()[6]);
    }
    lemma_field_roundtrip::<Language>(sec, o.language);
    lemma_field_roundtrip::<Scale>(sec, o.scale);
    lemma_field_roundtrip::<Fullscreen>(sec, o.fullscreen);
    lemma_field_roundtrip::<LeftHanded>(sec, o.left_handed);
    lemma_field_roundtrip::<SoundVolume>(sec, o.sound_volume);
    lemma_field_roundtrip::<SoundToggle>(sec, o.sound_toggle);
    lemma_field_roundtrip::<MusicVolume>(sec, o.music_volume);
    lemma_field_roundtrip::<MusicToggle>(sec, o.music_toggle);
}

} // verus!
