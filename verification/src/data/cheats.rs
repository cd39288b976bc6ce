use vstd::prelude::*;

use crate::data::{
    decode_field, decode_field_or_default, field_errs, field_or_default, into_plain_digits_string,
    lemma_plain_digits_roundtrip, spec_decode_field, spec_digits, IniField,
};
use crate::document::{sec_lookup, SecV, Section};
use crate::util::error::{errs_view, res_view, ErrV, Error};

verus! {

/// The `cheats_enabled` entry of the `Cheats` section, stored as a plain
/// unquoted digit.
#[derive(Clone, Copy, Debug, PartialEq, Eq, Structural)]
pub enum CheatsEnabled {
    Disabled,
    Enabled,
}

impl Default for CheatsEnabled {
    fn default() -> (r: Self)
        ensures
            r == CheatsEnabled::Disabled,
    {
        CheatsEnabled::Disabled
    }
}

impl IniField for CheatsEnabled {
    open spec fn spec_key() -> Seq<char> {
        "cheats_enabled"@
    }

    open spec fn spec_shift() -> nat {
        0
    }

    open spec fn spec_from_ordinal(n: int) -> Option<CheatsEnabled> {
        if n == 0 {
            Some(CheatsEnabled::Disabled)
        } else if n == 1 {
            Some(CheatsEnabled::Enabled)
        } else {
            None
        }
    }

    open spec fn spec_ordinal(self) -> nat {
        match self {
            CheatsEnabled::Disabled => 0,
            CheatsEnabled::Enabled => 1,
        }
    }

    open spec fn spec_default() -> CheatsEnabled {
        CheatsEnabled::Disabled
    }

    open spec fn spec_ranged() -> bool {
        false
    }

    open spec fn spec_valid(self) -> bool {
        true
    }

    proof fn lemma_roundtrip(self) {
    }

    proof fn lemma_decode_facts(n: int) {
    }

    fn key() -> (r: &'static str) {
        "cheats_enabled"
    }

    fn shift() -> (r: u32) {
        0
    }

    fn ranged() -> (r: bool) {
        false
    }

    fn from_ordinal(n: u64) -> (r: Option<CheatsEnabled>) {
        if n == 0 {
            Some(CheatsEnabled::Disabled)
        } else if n == 1 {
            Some(CheatsEnabled::Enabled)
        } else {
            None
        }
    }

    fn ordinal(self) -> (r: u64) {
        match self {
            CheatsEnabled::Disabled => 0,
            CheatsEnabled::Enabled => 1,
        }
    }

    fn field_default() -> (r: CheatsEnabled) {
        CheatsEnabled::Disabled
    }
}

/// The `Cheats` section of the settings file.
#[derive(Clone, Copy, Debug, PartialEq, Eq, Structural)]
pub struct Cheats {
    pub cheats_enabled: CheatsEnabled,
}

impl Default for Cheats {
    fn default() -> (r: Self)
        ensures
            r == (Cheats { cheats_enabled: CheatsEnabled::Disabled }),
    {
        Cheats { cheats_enabled: CheatsEnabled::Disabled }
    }
}

/// What strict decoding of the `Cheats` section yields.
pub open spec fn spec_cheats_try_from(sec: SecV) -> Result<Cheats, ErrV> {
    match spec_decode_field::<CheatsEnabled>(sec) {
        Err(e) => Err(e),
        Ok(cheats_enabled) => Ok(Cheats { cheats_enabled }),
    }
}

/// What lenient decoding of the `Cheats` section yields.
pub open spec fn spec_cheats_from_props(sec: SecV) -> (Cheats, Seq<ErrV>) {
    (
        Cheats { cheats_enabled: field_or_default::<CheatsEnabled>(sec) },
        field_errs::<CheatsEnabled>(sec),
    )
}

/// The single entry the settings file stores for a `Cheats` record: the
/// toggle as a bare digit, without quotes.
pub open spec fn spec_cheats_entries(c: Cheats) -> Seq<(Seq<char>, Seq<char>)> {
    seq![(CheatsEnabled::spec_key(), spec_digits(c.cheats_enabled.spec_ordinal()))]
}

impl Cheats {
    /// The section name the record is stored under.
    pub fn ini_section_str() -> (r: &'static str)
        ensures
            r@ == "Cheats"@,
    {
        "Cheats"
    }

    /// Strict decode of the record.
    pub fn try_from(sec: &Section) -> (r: Result<Cheats, Error>)
        ensures
            res_view(r) == spec_cheats_try_from(sec@),
    {
        match decode_field::<CheatsEnabled>(sec) {
            Ok(cheats_enabled) => Ok(Cheats { cheats_enabled }),
            Err(e) => Err(e),
        }
    }

    /// Lenient decode: a failed toggle falls back to disabled with one
    /// diagnostic.
    pub fn from_props_or_defaulted(sec: &Section) -> (r: (Cheats, Vec<Error>))
        ensures
            r.0 == spec_cheats_from_props(sec@).0,
            errs_view(r.1@) == spec_cheats_from_props(sec@).1,
    {
        let mut errors: Vec<Error> = Vec::new();
        proof {
            assert(errs_view(errors@) =~= Seq::<ErrV>::empty());
        }
        let cheats_enabled = decode_field_or_default::<CheatsEnabled>(sec, &mut errors);
        proof {
            assert(errs_view(errors@) =~= spec_cheats_from_props(sec@).1);
        }
        (Cheats { cheats_enabled }, errors)
    }

    /// The stored form of the record, under an empty name.
    pub fn into_properties(&self) -> (r: Section)
        ensures
            r@.name.len() == 0,
            r@.entries == spec_cheats_entries(*self),
    {
        let mut sec = Section::new("");
        let ord = IniField::ordinal(self.cheats_enabled);
        sec.insert(CheatsEnabled::key(), into_plain_digits_string(ord));
        proof {
            reveal_strlit("");
            assert(sec@.entries =~= spec_cheats_entries(*self));
        }
        sec
    }
}

/// Strict decoding reads back exactly the record that encoding stored:
/// the round trip of the `Cheats` section.
pub proof fn lemma_cheats_roundtrip(c: Cheats, sec: SecV)
    requires
        sec.entries == spec_cheats_entries(c),
    ensures
        spec_cheats_try_from(sec) == Ok::<Cheats, ErrV>(c),
{
    reveal_with_fuel(sec_lookup, 3);
    lemma_plain_digits_roundtrip(c.cheats_enabled.spec_ordinal());
    c.cheats_enabled.lemma_roundtrip();
}

} // verus!
