use vstd::prelude::*;

use crate::data::{
    decode_field, decode_field_opt, decode_field_opt_or_default, decode_field_or_default,
    encode_field, field_errs, field_or_default, lemma_field_roundtrip, spec_decode_field,
    spec_decode_field_opt, spec_quoted_scaled, IniField,
};
use crate::document::{sec_lookup, SecV, Section};
use crate::util::error::{errs_view, res_view, ErrV, Error};

verus! {

/// The `boss_no_damage_progress` entry of a file section: which subset of the three bosses was beaten without taking damage, as a three-bit combination.
#[derive(Clone, Copy, Debug, PartialEq, Eq, Structural)]
pub enum BossNoDamageProgress {
    Nothing,
    Forest,
    Desert,
    ForestDesert,
    Castle,
    ForestCastle,
    DesertCastle,
    ForestDesertCastle,
}

impl Default for BossNoDamageProgress {
    fn default() -> (r: Self)
        ensures
            r == BossNoDamageProgress::Nothing,
    {
        BossNoDamageProgress::Nothing
    }
}

impl IniField for BossNoDamageProgress {
    open spec fn spec_key() -> Seq<char> {
        "boss_no_damage_progress"@
    }

    open spec fn spec_shift() -> nat {
        0
    }

    open spec fn spec_from_ordinal(n: int) -> Option<BossNoDamageProgress> {
        if n == 0 {
            Some(BossNoDamageProgress::Nothing)
        } else if n == 1 {
            Some(BossNoDamageProgress::Forest)
        } else if n == 2 {
            Some(BossNoDamageProgress::Desert)
        } else if n == 3 {
            Some(BossNoDamageProgress::ForestDesert)
        } else if n == 4 {
            Some(BossNoDamageProgress::Castle)
        } else if n == 5 {
            Some(BossNoDamageProgress::ForestCastle)
        } else if n == 6 {
            Some(BossNoDamageProgress::DesertCastle)
        } else if n == 7 {
            Some(BossNoDamageProgress::ForestDesertCastle)
        } else {
            None
        }
    }

    open spec fn spec_ordinal(self) -> nat {
        match self {
            BossNoDamageProgress::Nothing => 0,
            BossNoDamageProgress::Forest => 1,
            BossNoDamageProgress::Desert => 2,
            BossNoDamageProgress::ForestDesert => 3,
            BossNoDamageProgress::Castle => 4,
            BossNoDamageProgress::ForestCastle => 5,
            BossNoDamageProgress::DesertCastle => 6,
            BossNoDamageProgress::ForestDesertCastle => 7,
        }
    }

    open spec fn spec_default() -> BossNoDamageProgress {
        BossNoDamageProgress::Nothing
    }

    open spec fn spec_ranged() -> bool {
        false
    }

    open spec fn spec_valid(self) -> bool {
        true
    }

    proof fn lemma_roundtrip(self) {
    }

    proof fn lemma_decode_facts(n: int) {
    }

    fn key() -> (r: &'static str) {
        "boss_no_damage_progress"
    }

    fn shift() -> (r: u32) {
        0
    }

    fn ranged() -> (r: bool) {
        false
    }

    fn from_ordinal(n: u64) -> (r: Option<BossNoDamageProgress>) {
        if n == 0 {
            Some(BossNoDamageProgress::Nothing)
        } else if n == 1 {
            Some(BossNoDamageProgress::Forest)
        } else if n == 2 {
            Some(BossNoDamageProgress::Desert)
        } else if n == 3 {
            Some(BossNoDamageProgress::ForestDesert)
        } else if n == 4 {
            Some(BossNoDamageProgress::Castle)
        } else if n == 5 {
            Some(BossNoDamageProgress::ForestCastle)
        } else if n == 6 {
            Some(BossNoDamageProgress::DesertCastle)
        } else if n == 7 {
            Some(BossNoDamageProgress::ForestDesertCastle)
        } else {
            None
        }
    }

    fn ordinal(self) -> (r: u64) {
        match self {
            BossNoDamageProgress::Nothing => 0,
            BossNoDamageProgress::Forest => 1,
            BossNoDamageProgress::Desert => 2,
            BossNoDamageProgress::ForestDesert => 3,
            BossNoDamageProgress::Castle => 4,
            BossNoDamageProgress::ForestCastle => 5,
            BossNoDamageProgress::DesertCastle => 6,
            BossNoDamageProgress::ForestDesertCastle => 7,
        }
    }

    fn field_default() -> (r: BossNoDamageProgress) {
        BossNoDamageProgress::Nothing
    }
}

/// The `castle` unlock flag of a file section; an intermediate stored form, folded into [`Level`] for actual use.
#[derive(Clone, Copy, Debug, PartialEq, Eq, Structural)]
pub enum Castle {
    Locked,
    Unlocked,
}

impl Default for Castle {
    fn default() -> (r: Self)
        ensures
            r == Castle::Locked,
    {
        Castle::Locked
    }
}

impl IniField for Castle {
    open spec fn spec_key() -> Seq<char> {
        "castle"@
    }

    open spec fn spec_shift() -> nat {
        0
    }

    open spec fn spec_from_ordinal(n: int) -> Option<Castle> {
        if n == 0 {
            Some(Castle::Locked)
        } else if n == 32 {
            Some(Castle::Unlocked)
        } else {
            None
        }
    }

    open spec fn spec_ordinal(self) -> nat {
        match self {
            Castle::Locked => 0,
            Castle::Unlocked => 32,
        }
    }

    open spec fn spec_default() -> Castle {
        Castle::Locked
    }

    open spec fn spec_ranged() -> bool {
        false
    }

    open spec fn spec_valid(self) -> bool {
        true
    }

    proof fn lemma_roundtrip(self) {
    }

    proof fn lemma_decode_facts(n: int) {
    }

    fn key() -> (r: &'static str) {
        "castle"
    }

    fn shift() -> (r: u32) {
        0
    }

    fn ranged() -> (r: bool) {
        false
    }

    fn from_ordinal(n: u64) -> (r: Option<Castle>) {
        if n == 0 {
            Some(Castle::Locked)
        } else if n == 32 {
            Some(Castle::Unlocked)
        } else {
            None
        }
    }

    fn ordinal(self) -> (r: u64) {
        match self {
            Castle::Locked => 0,
            Castle::Unlocked => 32,
        }
    }

    fn field_default() -> (r: Castle) {
        Castle::Locked
    }
}

/// The `moon` unlock flag of a file section; an intermediate stored form, folded into [`Level`] for actual use.
#[derive(Clone, Copy, Debug, PartialEq, Eq, Structural)]
pub enum Moon {
    Locked,
    Unlocked,
}

impl Default for Moon {
    fn default() -> (r: Self)
        ensures
            r == Moon::Locked,
    {
        Moon::Locked
    }
}

impl IniField for Moon {
    open spec fn spec_key() -> Seq<char> {
        "moon"@
    }

    open spec fn spec_shift() -> nat {
        0
    }

    open spec fn spec_from_ordinal(n: int) -> Option<Moon> {
        if n == 0 {
            Some(Moon::Locked)
        } else if n == 16 {
            Some(Moon::Unlocked)
        } else {
            None
        }
    }

    open spec fn spec_ordinal(self) -> nat {
        match self {
            Moon::Locked => 0,
            Moon::Unlocked => 16,
        }
    }

    open spec fn spec_default() -> Moon {
        Moon::Locked
    }

    open spec fn spec_ranged() -> bool {
        false
    }

    open spec fn spec_valid(self) -> bool {
        true
    }

    proof fn lemma_roundtrip(self) {
    }

    proof fn lemma_decode_facts(n: int) {
    }

    fn key() -> (r: &'static str) {
        "moon"
    }

    fn shift() -> (r: u32) {
        0
    }

    fn ranged() -> (r: bool) {
        false
    }

    fn from_ordinal(n: u64) -> (r: Option<Moon>) {
        if n == 0 {
            Some(Moon::Locked)
        } else if n == 16 {
            Some(Moon::Unlocked)
        } else {
            None
        }
    }

    fn ordinal(self) -> (r: u64) {
        match self {
            Moon::Locked => 0,
            Moon::Unlocked => 16,
        }
    }

    fn field_default() -> (r: Moon) {
        Moon::Locked
    }
}

/// The `snow` unlock flag of a file section; an intermediate stored form, folded into [`Level`] for actual use.
#[derive(Clone, Copy, Debug, PartialEq, Eq, Structural)]
pub enum Snow {
    Locked,
    Unlocked,
}

impl Default for Snow {
    fn default() -> (r: Self)
        ensures
            r == Snow::Locked,
    {
        Snow::Locked
    }
}

impl IniField for Snow {
    open spec fn spec_key() -> Seq<char> {
        "snow"@
    }

    open spec fn spec_shift() -> nat {
        0
    }

    open spec fn spec_from_ordinal(n: int) -> Option<Snow> {
        if n == 0 {
            Some(Snow::Locked)
        } else if n == 8 {
            Some(Snow::Unlocked)
        } else {
            None
        }
    }

    open spec fn spec_ordinal(self) -> nat {
        match self {
            Snow::Locked => 0,
            Snow::Unlocked => 8,
        }
    }

    open spec fn spec_default() -> Snow {
        Snow::Locked
    }

    open spec fn spec_ranged() -> bool {
        false
    }

    open spec fn spec_valid(self) -> bool {
        true
    }

    proof fn lemma_roundtrip(self) {
    }

    proof fn lemma_decode_facts(n: int) {
    }

    fn key() -> (r: &'static str) {
        "snow"
    }

    fn shift() -> (r: u32) {
        0
    }

    fn ranged() -> (r: bool) {
        false
    }

    fn from_ordinal(n: u64) -> (r: Option<Snow>) {
        if n == 0 {
            Some(Snow::Locked)
        } else if n == 8 {
            Some(Snow::Unlocked)
        } else {
            None
        }
    }

    fn ordinal(self) -> (r: u64) {
        match self {
            Snow::Locked => 0,
            Snow::Unlocked => 8,
        }
    }

    fn field_default() -> (r: Snow) {
        Snow::Locked
    }
}

/// The `desert` unlock flag of a file section; an intermediate stored form, folded into [`Level`] for actual use.
#[derive(Clone, Copy, Debug, PartialEq, Eq, Structural)]
pub enum Desert {
    Locked,
    Unlocked,
}

impl Default for Desert {
    fn default() -> (r: Self)
        ensures
            r == Desert::Locked,
    {
        Desert::Locked
    }
}

impl IniField for Desert {
    open spec fn spec_key() -> Seq<char> {
        "desert"@
    }

    open spec fn spec_shift() -> nat {
        0
    }

    open spec fn spec_from_ordinal(n: int) -> Option<Desert> {
        if n == 0 {
            Some(Desert::Locked)
        } else if n == 4 {
            Some(Desert::Unlocked)
        } else {
            None
        }
    }

    open spec fn spec_ordinal(self) -> nat {
        match self {
            Desert::Locked => 0,
            Desert::Unlocked => 4,
        }
    }

    open spec fn spec_default() -> Desert {
        Desert::Locked
    }

    open spec fn spec_ranged() -> bool {
        false
    }

    open spec fn spec_valid(self) -> bool {
        true
    }

    proof fn lemma_roundtrip(self) {
    }

    proof fn lemma_decode_facts(n: int) {
    }

    fn key() -> (r: &'static str) {
        "desert"
    }

    fn shift() -> (r: u32) {
        0
    }

    fn ranged() -> (r: bool) {
        false
    }

    fn from_ordinal(n: u64) -> (r: Option<Desert>) {
        if n == 0 {
            Some(Desert::Locked)
        } else if n == 4 {
            Some(Desert::Unlocked)
        } else {
            None
        }
    }

    fn ordinal(self) -> (r: u64) {
        match self {
            Desert::Locked => 0,
            Desert::Unlocked => 4,
        }
    }

    fn field_default() -> (r: Desert) {
        Desert::Locked
    }
}

/// The `forest` unlock flag of a file section; an intermediate stored form, folded into [`Level`] for actual use.
#[derive(Clone, Copy, Debug, PartialEq, Eq, Structural)]
pub enum Forest {
    Locked,
    Unlocked,
}

impl Default for Forest {
    fn default() -> (r: Self)
        ensures
            r == Forest::Locked,
    {
        Forest::Locked
    }
}

impl IniField for Forest {
    open spec fn spec_key() -> Seq<char> {
        "forest"@
    }

    open spec fn spec_shift() -> nat {
        0
    }

    open spec fn spec_from_ordinal(n: int) -> Option<Forest> {
        if n == 0 {
            Some(Forest::Locked)
        } else if n == 2 {
            Some(Forest::Unlocked)
        } else {
            None
        }
    }

    open spec fn spec_ordinal(self) -> nat {
        match self {
            Forest::Locked => 0,
            Forest::Unlocked => 2,
        }
    }

    open spec fn spec_default() -> Forest {
        Forest::Locked
    }

    open spec fn spec_ranged() -> bool {
        false
    }

    open spec fn spec_valid(self) -> bool {
        true
    }

    proof fn lemma_roundtrip(self) {
    }

    proof fn lemma_decode_facts(n: int) {
    }

    fn key() -> (r: &'static str) {
        "forest"
    }

    fn shift() -> (r: u32) {
        0
    }

    fn ranged() -> (r: bool) {
        false
    }

    fn from_ordinal(n: u64) -> (r: Option<Forest>) {
        if n == 0 {
            Some(Forest::Locked)
        } else if n == 2 {
            Some(Forest::Unlocked)
        } else {
            None
        }
    }

    fn ordinal(self) -> (r: u64) {
        match self {
            Forest::Locked => 0,
            Forest::Unlocked => 2,
        }
    }

    fn field_default() -> (r: Forest) {
        Forest::Locked
    }
}

/// The `ending` entry of a file section: whether the ending was watched.
#[derive(Clone, Copy, Debug, PartialEq, Eq, Structural)]
pub enum Ending {
    Unwatched,
    Watched,
}

impl Default for Ending {
    fn default() -> (r: Self)
        ensures
            r == Ending::Unwatched,
    {
        Ending::Unwatched
    }
}

impl IniField for Ending {
    open spec fn spec_key() -> Seq<char> {
        "ending"@
    }

    open spec fn spec_shift() -> nat {
        0
    }

    open spec fn spec_from_ordinal(n: int) -> Option<Ending> {
        if n == 0 {
            Some(Ending::Unwatched)
        } else if n == 1 {
            Some(Ending::Watched)
        } else {
            None
        }
    }

    open spec fn spec_ordinal(self) -> nat {
        match self {
            Ending::Unwatched => 0,
            Ending::Watched => 1,
        }
    }

    open spec fn spec_default() -> Ending {
        Ending::Unwatched
    }

    open spec fn spec_ranged() -> bool {
        false
    }

    open spec fn spec_valid(self) -> bool {
        true
    }

    proof fn lemma_roundtrip(self) {
    }

    proof fn lemma_decode_facts(n: int) {
    }

    fn key() -> (r: &'static str) {
        "ending"
    }

    fn shift() -> (r: u32) {
        0
    }

    fn ranged() -> (r: bool) {
        false
    }

    fn from_ordinal(n: u64) -> (r: Option<Ending>) {
        if n == 0 {
            Some(Ending::Unwatched)
        } else if n == 1 {
            Some(Ending::Watched)
        } else {
            None
        }
    }

    fn ordinal(self) -> (r: u64) {
        match self {
            Ending::Unwatched => 0,
            Ending::Watched => 1,
        }
    }

    fn field_default() -> (r: Ending) {
        Ending::Unwatched
    }
}

/// The `intro` entry of a file section: whether the intro was watched.
#[derive(Clone, Copy, Debug, PartialEq, Eq, Structural)]
pub enum Intro {
    Unwatched,
    Watched,
}

impl Default for Intro {
    fn default() -> (r: Self)
        ensures
            r == Intro::Unwatched,
    {
        Intro::Unwatched
    }
}

impl IniField for Intro {
    open spec fn spec_key() -> Seq<char> {
        "intro"@
    }

    open spec fn spec_shift() -> nat {
        0
    }

    open spec fn spec_from_ordinal(n: int) -> Option<Intro> {
        if n == 0 {
            Some(Intro::Unwatched)
        } else if n == 1 {
            Some(Intro::Watched)
        } else {
            None
        }
    }

    open spec fn spec_ordinal(self) -> nat {
        match self {
            Intro::Unwatched => 0,
            Intro::Watched => 1,
        }
    }

    open spec fn spec_default() -> Intro {
        Intro::Unwatched
    }

    open spec fn spec_ranged() -> bool {
        false
    }

    open spec fn spec_valid(self) -> bool {
        true
    }

    proof fn lemma_roundtrip(self) {
    }

    proof fn lemma_decode_facts(n: int) {
    }

    fn key() -> (r: &'static str) {
        "intro"
    }

    fn shift() -> (r: u32) {
        0
    }

    fn ranged() -> (r: bool) {
        false
    }

    fn from_ordinal(n: u64) -> (r: Option<Intro>) {
        if n == 0 {
            Some(Intro::Unwatched)
        } else if n == 1 {
            Some(Intro::Watched)
        } else {
            None
        }
    }

    fn ordinal(self) -> (r: u64) {
        match self {
            Intro::Unwatched => 0,
            Intro::Watched => 1,
        }
    }

    fn field_default() -> (r: Intro) {
        Intro::Unwatched
    }
}

/// The `enemies_defeated` counter of a file section.
#[derive(Clone, Copy, Debug, PartialEq, Eq, Structural)]
pub struct EnemiesDefeated(u32);

impl EnemiesDefeated {
    pub const MIN_PRIMITIV: u32 = 0;
    pub const MAX_PRIMITIV: u32 = 1677215;
    pub const DEFAULT_PRIMITIV: u32 = 0;

    /// The wrapped value.
    pub fn value(&self) -> (r: u32)
        ensures
            r as nat == self.spec_ordinal(),
    {
        self.0
    }

    /// The only way in from a raw number: anything outside the range
    /// is rejected, never clamped.
    pub fn try_from(value: u32) -> (r: Result<EnemiesDefeated, Error>)
        ensures
            0 <= value <= 1677215 ==> (r matches Ok(l) && l.spec_valid() && l.spec_ordinal()
                == value && EnemiesDefeated::spec_from_ordinal(value as int) == Some(l)),
            !(0 <= value <= 1677215) ==> (r matches Err(e) && e@ == ErrV::Range("enemies_defeated"@)),
    {
        if 0 <= value && value <= 1677215 {
            Ok(EnemiesDefeated(value))
        } else {
            Err(Error::Range("enemies_defeated".to_owned()))
        }
    }
}

impl Default for EnemiesDefeated {
    fn default() -> (r: Self)
        ensures
            r == EnemiesDefeated::spec_default(),
            r.spec_ordinal() == 0,
    {
        EnemiesDefeated(0)
    }
}

impl IniField for EnemiesDefeated {
    open spec fn spec_key() -> Seq<char> {
        "enemies_defeated"@
    }

    open spec fn spec_shift() -> nat {
        0
    }

    closed spec fn spec_from_ordinal(n: int) -> Option<EnemiesDefeated> {
        if 0 <= n <= 1677215 {
            Some(EnemiesDefeated(n as u32))
        } else {
            None
        }
    }

    closed spec fn spec_ordinal(self) -> nat {
        self.0 as nat
    }

    closed spec fn spec_default() -> EnemiesDefeated {
        EnemiesDefeated(0)
    }

    open spec fn spec_ranged() -> bool {
        true
    }

    closed spec fn spec_valid(self) -> bool {
        0 <= self.0 <= 1677215
    }

    proof fn lemma_roundtrip(self) {
    }

    proof fn lemma_decode_facts(n: int) {
    }

    fn key() -> (r: &'static str) {
        "enemies_defeated"
    }

    fn shift() -> (r: u32) {
        0
    }

    fn ranged() -> (r: bool) {
        true
    }

    fn from_ordinal(n: u64) -> (r: Option<EnemiesDefeated>) {
        if 0 <= n && n <= 1677215 {
            Some(EnemiesDefeated(n as u32))
        } else {
            None
        }
    }

    fn ordinal(self) -> (r: u64) {
        self.0 as u64
    }

    fn field_default() -> (r: EnemiesDefeated) {
        EnemiesDefeated(0)
    }
}

/// The `lives` counter of a file section.
#[derive(Clone, Copy, Debug, PartialEq, Eq, Structural)]
pub struct Lives(u32);

impl Lives {
    pub const MIN_PRIMITIV: u32 = 1;
    pub const MAX_PRIMITIV: u32 = 99999;
    pub const DEFAULT_PRIMITIV: u32 = 5;

    /// The wrapped value.
    pub fn value(&self) -> (r: u32)
        ensures
            r as nat == self.spec_ordinal(),
    {
        self.0
    }

    /// The only way in from a raw number: anything outside the range
    /// is rejected, never clamped.
    pub fn try_from(value: u32) -> (r: Result<Lives, Error>)
        ensures
            1 <= value <= 99999 ==> (r matches Ok(l) && l.spec_valid() && l.spec_ordinal()
                == value && Lives::spec_from_ordinal(value as int) == Some(l)),
            !(1 <= value <= 99999) ==> (r matches Err(e) && e@ == ErrV::Range("lives"@)),
    {
        if 1 <= value && value <= 99999 {
            Ok(Lives(value))
        } else {
            Err(Error::Range("lives".to_owned()))
        }
    }
}

impl Default for Lives {
    fn default() -> (r: Self)
        ensures
            r == Lives::spec_default(),
            r.spec_ordinal() == 5,
    {
        Lives(5)
    }
}

impl IniField for Lives {
    open spec fn spec_key() -> Seq<char> {
        "lives"@
    }

    open spec fn spec_shift() -> nat {
        0
    }

    closed spec fn spec_from_ordinal(n: int) -> Option<Lives> {
        if 1 <= n <= 99999 {
            Some(Lives(n as u32))
        } else {
            None
        }
    }

    closed spec fn spec_ordinal(self) -> nat {
        self.0 as nat
    }

    closed spec fn spec_default() -> Lives {
        Lives(5)
    }

    open spec fn spec_ranged() -> bool {
        true
    }

    closed spec fn spec_valid(self) -> bool {
        1 <= self.0 <= 99999
    }

    proof fn lemma_roundtrip(self) {
    }

    proof fn lemma_decode_facts(n: int) {
    }

    fn key() -> (r: &'static str) {
        "lives"
    }

    fn shift() -> (r: u32) {
        0
    }

    fn ranged() -> (r: bool) {
        true
    }

    fn from_ordinal(n: u64) -> (r: Option<Lives>) {
        if 1 <= n && n <= 99999 {
            Some(Lives(n as u32))
        } else {
            None
        }
    }

    fn ordinal(self) -> (r: u64) {
        self.0 as u64
    }

    fn field_default() -> (r: Lives) {
        Lives(5)
    }
}

/// The `gems` counter of a file section.
#[derive(Clone, Copy, Debug, PartialEq, Eq, Structural)]
pub struct Gems(u8);

impl Gems {
    pub const MIN_PRIMITIV: u8 = 0;
    pub const MAX_PRIMITIV: u8 = 99;
    pub const DEFAULT_PRIMITIV: u8 = 0;

    /// The wrapped value.
    pub fn value(&self) -> (r: u8)
        ensures
            r as nat == self.spec_ordinal(),
    {
        self.0
    }

    /// The only way in from a raw number: anything outside the range
    /// is rejected, never clamped.
    pub fn try_from(value: u8) -> (r: Result<Gems, Error>)
        ensures
            0 <= value <= 99 ==> (r matches Ok(l) && l.spec_valid() && l.spec_ordinal()
                == value && Gems::spec_from_ordinal(value as int) == Some(l)),
            !(0 <= value <= 99) ==> (r matches Err(e) && e@ == ErrV::Range("gems"@)),
    {
        if 0 <= value && value <= 99 {
            Ok(Gems(value))
        } else {
            Err(Error::Range("gems".to_owned()))
        }
    }
}

impl Default for Gems {
    fn default() -> (r: Self)
        ensures
            r == Gems::spec_default(),
            r.spec_ordinal() == 0,
    {
        Gems(0)
    }
}

impl IniField for Gems {
    open spec fn spec_key() -> Seq<char> {
        "gems"@
    }

    open spec fn spec_shift() -> nat {
        0
    }

    closed spec fn spec_from_ordinal(n: int) -> Option<Gems> {
        if 0 <= n <= 99 {
            Some(Gems(n as u8))
        } else {
            None
        }
    }

    closed spec fn spec_ordinal(self) -> nat {
        self.0 as nat
    }

    closed spec fn spec_default() -> Gems {
        Gems(0)
    }

    open spec fn spec_ranged() -> bool {
        true
    }

    closed spec fn spec_valid(self) -> bool {
        0 <= self.0 <= 99
    }

    proof fn lemma_roundtrip(self) {
    }

    proof fn lemma_decode_facts(n: int) {
    }

    fn key() -> (r: &'static str) {
        "gems"
    }

    fn shift() -> (r: u32) {
        0
    }

    fn ranged() -> (r: bool) {
        true
    }

    fn from_ordinal(n: u64) -> (r: Option<Gems>) {
        if 0 <= n && n <= 99 {
            Some(Gems(n as u8))
        } else {
            None
        }
    }

    fn ordinal(self) -> (r: u64) {
        self.0 as u64
    }

    fn field_default() -> (r: Gems) {
        Gems(0)
    }
}

impl BossNoDamageProgress {
    /// The stored ordinal of the progress combination.
    pub fn value(&self) -> (r: u8)
        ensures
            r as nat == self.spec_ordinal(),
    {
        match self {
            BossNoDamageProgress::Nothing => 0,
            BossNoDamageProgress::Forest => 1,
            BossNoDamageProgress::Desert => 2,
            BossNoDamageProgress::ForestDesert => 3,
            BossNoDamageProgress::Castle => 4,
            BossNoDamageProgress::ForestCastle => 5,
            BossNoDamageProgress::DesertCastle => 6,
            BossNoDamageProgress::ForestDesertCastle => 7,
        }
    }
}

/// The furthest level a save slot has reached, ordered from the last
/// (`Castle`) down to the first (`Beach`). It is not stored directly: the
/// engine keeps five unlock flags instead, folded through
/// [`Level::from_parts`] and [`Level::into_parts`].
#[derive(Clone, Copy, Debug, PartialEq, Eq, Structural)]
pub enum Level {
    Castle,
    Moon,
    Snow,
    Desert,
    Forest,
    Beach,
}

impl Default for Level {
    fn default() -> (r: Self)
        ensures
            r == Level::Beach,
    {
        Level::Beach
    }
}

/// The five stored flags a level decomposes into: every flag at or below
/// the level is set, the rest are cleared (the monotonic threshold rule).
pub open spec fn spec_level_parts(level: Level) -> (Castle, Moon, Snow, Desert, Forest) {
    match level {
        Level::Castle => (
            Castle::Unlocked,
            Moon::Unlocked,
            Snow::Unlocked,
            Desert::Unlocked,
            Forest::Unlocked,
        ),
        Level::Moon => (
            Castle::Locked,
            Moon::Unlocked,
            Snow::Unlocked,
            Desert::Unlocked,
            Forest::Unlocked,
        ),
        Level::Snow => (
            Castle::Locked,
            Moon::Locked,
            Snow::Unlocked,
            Desert::Unlocked,
            Forest::Unlocked,
        ),
        Level::Desert => (
            Castle::Locked,
            Moon::Locked,
            Snow::Locked,
            Desert::Unlocked,
            Forest::Unlocked,
        ),
        Level::Forest => (
            Castle::Locked,
            Moon::Locked,
            Snow::Locked,
            Desert::Locked,
            Forest::Unlocked,
        ),
        Level::Beach => (
            Castle::Locked,
            Moon::Locked,
            Snow::Locked,
            Desert::Locked,
            Forest::Locked,
        ),
    }
}

/// The level five stored flags fold into: the highest-priority flag that
/// is set wins, and a lower flag set without its higher neighbours is
/// ignored; no flag at all reads as the first level.
pub open spec fn spec_level_from_parts(parts: (Castle, Moon, Snow, Desert, Forest)) -> Level {
    if parts.0 == Castle::Unlocked {
        Level::Castle
    } else if parts.1 == Moon::Unlocked {
        Level::Moon
    } else if parts.2 == Snow::Unlocked {
        Level::Snow
    } else if parts.3 == Desert::Unlocked {
        Level::Desert
    } else if parts.4 == Forest::Unlocked {
        Level::Forest
    } else {
        Level::Beach
    }
}

impl Level {
    /// Decomposes the level into the five stored flags.
    pub fn into_parts(self) -> (r: (Castle, Moon, Snow, Desert, Forest))
        ensures
            r == spec_level_parts(self),
    {
        match self {
            Level::Castle => (
                Castle::Unlocked,
                Moon::Unlocked,
                Snow::Unlocked,
                Desert::Unlocked,
                Forest::Unlocked,
            ),
            Level::Moon => (
                Castle::Locked,
                Moon::Unlocked,
                Snow::Unlocked,
                Desert::Unlocked,
                Forest::Unlocked,
            ),
            Level::Snow => (
                Castle::Locked,
                Moon::Locked,
                Snow::Unlocked,
                Desert::Unlocked,
                Forest::Unlocked,
            ),
            Level::Desert => (
                Castle::Locked,
                Moon::Locked,
                Snow::Locked,
                Desert::Unlocked,
                Forest::Unlocked,
            ),
            Level::Forest => (
                Castle::Locked,
                Moon::Locked,
                Snow::Locked,
                Desert::Locked,
                Forest::Unlocked,
            ),
            Level::Beach => (
                Castle::Locked,
                Moon::Locked,
                Snow::Locked,
                Desert::Locked,
                Forest::Locked,
            ),
        }
    }

    /// Folds five stored flags back into a level.
    pub fn from_parts(parts: (Castle, Moon, Snow, Desert, Forest)) -> (r: Level)
        ensures
            r == spec_level_from_parts(parts),
    {
        if matches!(parts.0, Castle::Unlocked) {
            Level::Castle
        } else if matches!(parts.1, Moon::Unlocked) {
            Level::Moon
        } else if matches!(parts.2, Snow::Unlocked) {
            Level::Snow
        } else if matches!(parts.3, Desert::Unlocked) {
            Level::Desert
        } else if matches!(parts.4, Forest::Unlocked) {
            Level::Forest
        } else {
            Level::Beach
        }
    }
}

/// Folding a level into its five flags and back returns the level: the
/// threshold rule makes the flag encoding lossless for every level.
pub proof fn lemma_level_roundtrip(level: Level)
    ensures
        spec_level_from_parts(spec_level_parts(level)) == level,
{
}

/// One save slot of the save file.
#[derive(Clone, Copy, Debug, PartialEq, Eq, Structural)]
pub struct File {
    pub boss_no_damage_progress: BossNoDamageProgress,
    pub enemies_defeated: EnemiesDefeated,
    pub level: Level,
    pub ending: Ending,
    pub intro: Intro,
    pub lives: Lives,
    pub gems: Gems,
}

impl File {
    /// Whether every range-checked counter of the slot is within bounds.
    pub open spec fn wf(self) -> bool {
        self.enemies_defeated.spec_valid() && self.lives.spec_valid() && self.gems.spec_valid()
    }
}

impl Default for File {
    fn default() -> (r: Self)
        ensures
            r == spec_file_default(),
            r.wf(),
    {
        File {
            boss_no_damage_progress: BossNoDamageProgress::Nothing,
            enemies_defeated: EnemiesDefeated(0),
            level: Level::Beach,
            ending: Ending::Unwatched,
            intro: Intro::Unwatched,
            lives: Lives(5),
            gems: Gems(0),
        }
    }
}

/// The slot every field of which holds its default.
pub open spec fn spec_file_default() -> File {
    File {
        boss_no_damage_progress: BossNoDamageProgress::spec_default(),
        enemies_defeated: EnemiesDefeated::spec_default(),
        level: Level::Beach,
        ending: Ending::spec_default(),
        intro: Intro::spec_default(),
        lives: Lives::spec_default(),
        gems: Gems::spec_default(),
    }
}

/// What strict decoding of one file section yields: the five flags, then
/// the remaining fields, in a fixed order, stopping at the first fault.
/// The boss key alone may be absent and reads as its default.
pub open spec fn spec_file_try_from(sec: SecV) -> Result<File, ErrV> {
    match spec_decode_field::<Castle>(sec) {
        Err(e) => Err(e),
        Ok(castle) => match spec_decode_field::<Moon>(sec) {
            Err(e) => Err(e),
            Ok(moon) => match spec_decode_field::<Snow>(sec) {
                Err(e) => Err(e),
                Ok(snow) => match spec_decode_field::<Desert>(sec) {
                    Err(e) => Err(e),
                    Ok(desert) => match spec_decode_field::<Forest>(sec) {
                        Err(e) => Err(e),
                        Ok(forest) => match spec_decode_field_opt::<BossNoDamageProgress>(sec) {
                            Err(e) => Err(e),
                            Ok(boss_no_damage_progress) => match spec_decode_field::<
                                EnemiesDefeated,
                            >(sec) {
                                Err(e) => Err(e),
                                Ok(enemies_defeated) => match spec_decode_field::<Ending>(sec) {
                                    Err(e) => Err(e),
                                    Ok(ending) => match spec_decode_field::<Intro>(sec) {
                                        Err(e) => Err(e),
                                        Ok(intro) => match spec_decode_field::<Lives>(sec) {
                                            Err(e) => Err(e),
                                            Ok(lives) => match spec_decode_field::<Gems>(sec) {
                                                Err(e) => Err(e),
                                                Ok(gems) => Ok(
                                                    File {
                                                        boss_no_damage_progress,
                                                        enemies_defeated,
                                                        level: spec_level_from_parts(
                                                            (castle, moon, snow, desert, forest),
                                                        ),
                                                        ending,
                                                        intro,
                                                        lives,
                                                        gems,
                                                    },
                                                ),
                                            },
                                        },
                                    },
                                },
                            },
                        },
                    },
                },
            },
        },
    }
}

/// The diagnostics lenient decoding records for the optional boss entry.
pub open spec fn boss_field_errs(sec: SecV) -> Seq<ErrV> {
    match spec_decode_field_opt::<BossNoDamageProgress>(sec) {
        Ok(_) => Seq::empty(),
        Err(e) => seq![e],
    }
}

/// The boss value lenient decoding keeps.
pub open spec fn boss_field_or_default(sec: SecV) -> BossNoDamageProgress {
    match spec_decode_field_opt::<BossNoDamageProgress>(sec) {
        Ok(v) => v,
        Err(_) => BossNoDamageProgress::spec_default(),
    }
}

/// What lenient decoding of one file section yields: an always-valid slot
/// and one diagnostic per failed field, in field order.
pub open spec fn spec_file_from_props(sec: SecV) -> (File, Seq<ErrV>) {
    (
        File {
            boss_no_damage_progress: boss_field_or_default(sec),
            enemies_defeated: field_or_default::<EnemiesDefeated>(sec),
            level: spec_level_from_parts(
                (
                    field_or_default::<Castle>(sec),
                    field_or_default::<Moon>(sec),
                    field_or_default::<Snow>(sec),
                    field_or_default::<Desert>(sec),
                    field_or_default::<Forest>(sec),
                ),
            ),
            ending: field_or_default::<Ending>(sec),
            intro: field_or_default::<Intro>(sec),
            lives: field_or_default::<Lives>(sec),
            gems: field_or_default::<Gems>(sec),
        },
        field_errs::<Castle>(sec) + field_errs::<Moon>(sec) + field_errs::<Snow>(sec)
            + field_errs::<Desert>(sec) + field_errs::<Forest>(sec) + boss_field_errs(sec)
            + field_errs::<EnemiesDefeated>(sec) + field_errs::<Ending>(sec) + field_errs::<
            Intro,
        >(sec) + field_errs::<Lives>(sec) + field_errs::<Gems>(sec),
    )
}

/// The entries the engine stores for one file section, in its order: the
/// level decomposed into its five flags, every number quoted.
pub open spec fn spec_file_entries(f: File) -> Seq<(Seq<char>, Seq<char>)> {
    seq![
        (
            BossNoDamageProgress::spec_key(),
            spec_quoted_scaled(f.boss_no_damage_progress.spec_ordinal(), 0),
        ),
        (EnemiesDefeated::spec_key(), spec_quoted_scaled(f.enemies_defeated.spec_ordinal(), 0)),
        (Castle::spec_key(), spec_quoted_scaled(spec_level_parts(f.level).0.spec_ordinal(), 0)),
        (Moon::spec_key(), spec_quoted_scaled(spec_level_parts(f.level).1.spec_ordinal(), 0)),
        (Snow::spec_key(), spec_quoted_scaled(spec_level_parts(f.level).2.spec_ordinal(), 0)),
        (Desert::spec_key(), spec_quoted_scaled(spec_level_parts(f.level).3.spec_ordinal(), 0)),
        (Forest::spec_key(), spec_quoted_scaled(spec_level_parts(f.level).4.spec_ordinal(), 0)),
        (Ending::spec_key(), spec_quoted_scaled(f.ending.spec_ordinal(), 0)),
        (Intro::spec_key(), spec_quoted_scaled(f.intro.spec_ordinal(), 0)),
        (Lives::spec_key(), spec_quoted_scaled(f.lives.spec_ordinal(), 0)),
        (Gems::spec_key(), spec_quoted_scaled(f.gems.spec_ordinal(), 0)),
    ]
}

impl File {
    /// Strict decode of one file section.
    pub fn try_from(sec: &Section) -> (r: Result<File, Error>)
        ensures
            res_view(r) == spec_file_try_from(sec@),
            r matches Ok(f) ==> f.wf(),
    {
        let castle = match decode_field::<Castle>(sec) {
            Ok(v) => v,
            Err(e) => {
                return Err(e);
            },
        };
        let moon = match decode_field::<Moon>(sec) {
            Ok(v) => v,
            Err(e) => {
                return Err(e);
            },
        };
        let snow = match decode_field::<Snow>(sec) {
            Ok(v) => v,
            Err(e) => {
                return Err(e);
            },
        };
        let desert = match decode_field::<Desert>(sec) {
            Ok(v) => v,
            Err(e) => {
                return Err(e);
            },
        };
        let forest = match decode_field::<Forest>(sec) {
            Ok(v) => v,
            Err(e) => {
                return Err(e);
            },
        };
        let boss_no_damage_progress = match decode_field_opt::<BossNoDamageProgress>(sec) {
            Ok(v) => v,
            Err(e) => {
                return Err(e);
            },
        };
        let enemies_defeated = match decode_field::<EnemiesDefeated>(sec) {
            Ok(v) => v,
            Err(e) => {
                return Err(e);
            },
        };
        let ending = match decode_field::<Ending>(sec) {
            Ok(v) => v,
            Err(e) => {
                return Err(e);
            },
        };
        let intro = match decode_field::<Intro>(sec) {
            Ok(v) => v,
            Err(e) => {
                return Err(e);
            },
        };
        let lives = match decode_field::<Lives>(sec) {
            Ok(v) => v,
            Err(e) => {
                return Err(e);
            },
        };
        let gems = match decode_field::<Gems>(sec) {
            Ok(v) => v,
            Err(e) => {
                return Err(e);
            },
        };
        Ok(
            File {
                boss_no_damage_progress,
                enemies_defeated,
                level: Level::from_parts((castle, moon, snow, desert, forest)),
                ending,
                intro,
                lives,
                gems,
            },
        )
    }

    /// Lenient decode: every failed field falls back to its default and
    /// leaves one diagnostic; a missing boss key alone stays silent.
    #[verifier::rlimit(100)]
    #[verifier::spinoff_prover]
    pub fn from_props_or_defaulted(sec: &Section) -> (r: (File, Vec<Error>))
        ensures
            r.0 == spec_file_from_props(sec@).0,
            errs_view(r.1@) == spec_file_from_props(sec@).1,
            r.0.wf(),
    {
        let mut errors: Vec<Error> = Vec::new();
        proof {
            assert(errs_view(errors@) =~= Seq::<ErrV>::empty());
        }
        let castle = decode_field_or_default::<Castle>(sec, &mut errors);
        let ghost p1 = field_errs::<Castle>(sec@);
        proof {
            assert(errs_view(errors@) =~= p1);
        }
        let moon = decode_field_or_default::<Moon>(sec, &mut errors);
        let ghost p2 = p1 + field_errs::<Moon>(sec@);
        proof {
            assert(errs_view(errors@) =~= p2);
        }
        let snow = decode_field_or_default::<Snow>(sec, &mut errors);
        let ghost p3 = p2 + field_errs::<Snow>(sec@);
        proof {
            assert(errs_view(errors@) =~= p3);
        }
        let desert = decode_field_or_default::<Desert>(sec, &mut errors);
        let ghost p4 = p3 + field_errs::<Desert>(sec@);
        proof {
            assert(errs_view(errors@) =~= p4);
        }
        let forest = decode_field_or_default::<Forest>(sec, &mut errors);
        let ghost p5 = p4 + field_errs::<Forest>(sec@);
        proof {
            assert(errs_view(errors@) =~= p5);
        }
        let boss_no_damage_progress = decode_field_opt_or_default::<BossNoDamageProgress>(
            sec,
            &mut errors,
        );
        let ghost p6 = p5 + boss_field_errs(sec@);
        proof {
            assert(errs_view(errors@) =~= p6);
        }
        let enemies_defeated = decode_field_or_default::<EnemiesDefeated>(sec, &mut errors);
        let ghost p7 = p6 + field_errs::<EnemiesDefeated>(sec@);
        proof {
            assert(errs_view(errors@) =~= p7);
        }
        let ending = decode_field_or_default::<Ending>(sec, &mut errors);
        let ghost p8 = p7 + field_errs::<Ending>(sec@);
        proof {
            assert(errs_view(errors@) =~= p8);
        }
        let intro = decode_field_or_default::<Intro>(sec, &mut errors);
        let ghost p9 = p8 + field_errs::<Intro>(sec@);
        proof {
            assert(errs_view(errors@) =~= p9);
        }
        let lives = decode_field_or_default::<Lives>(sec, &mut errors);
        let ghost p10 = p9 + field_errs::<Lives>(sec@);
        proof {
            assert(errs_view(errors@) =~= p10);
        }
        let gems = decode_field_or_default::<Gems>(sec, &mut errors);
        let ghost p11 = p10 + field_errs::<Gems>(sec@);
        proof {
            assert(errs_view(errors@) =~= p11);
            assert(p11 =~= spec_file_from_props(sec@).1);
        }
        (
            File {
                boss_no_damage_progress,
                enemies_defeated,
                level: Level::from_parts((castle, moon, snow, desert, forest)),
                ending,
                intro,
                lives,
                gems,
            },
            errors,
        )
    }

    /// The stored form of one slot: its entries in engine order, under an
    /// empty name, to be placed into a document under `file1`..`file3`.
    pub fn into_properties(&self) -> (r: Section)
        requires
            self.wf(),
        ensures
            r@.name.len() == 0,
            r@.entries == spec_file_entries(*self),
    {
        let mut sec = Section::new("");
        encode_field::<BossNoDamageProgress>(&mut sec, self.boss_no_damage_progress);
        encode_field::<EnemiesDefeated>(&mut sec, self.enemies_defeated);
        let parts = self.level.into_parts();
        encode_field::<Castle>(&mut sec, parts.0);
        encode_field::<Moon>(&mut sec, parts.1);
        encode_field::<Snow>(&mut sec, parts.2);
        encode_field::<Desert>(&mut sec, parts.3);
        encode_field::<Forest>(&mut sec, parts.4);
        encode_field::<Ending>(&mut sec, self.ending);
        encode_field::<Intro>(&mut sec, self.intro);
        encode_field::<Lives>(&mut sec, self.lives);
        encode_field::<Gems>(&mut sec, self.gems);
        proof {
            reveal_strlit("");
            assert(sec@.entries =~= spec_file_entries(*self));
        }
        sec
    }
}

/// Strict decoding reads back exactly the slot that encoding stored: the
/// round trip of one whole file section, level flags included.
#[verifier::rlimit(100)]
#[verifier::spinoff_prover]
pub proof fn lemma_file_roundtrip(f: File, sec: SecV)
    requires
        f.wf(),
        sec.entries == spec_file_entries(f),
    ensures
        spec_file_try_from(sec) == Ok::<File, ErrV>(f),
{
    reveal_strlit("boss_no_damage_progress");
    reveal_strlit("enemies_defeated");
    reveal_strlit("castle");
    reveal_strlit("moon");
    reveal_strlit("snow");
    reveal_strlit("desert");
    reveal_strlit("forest");
    reveal_strlit("ending");
    reveal_strlit("intro");
    reveal_strlit("lives");
    reveal_strlit("gems");
    reveal_with_fuel(sec_lookup, 13);
    assert(BossNoDamageProgress::spec_key().len() == 23);
    assert(EnemiesDefeated::spec_key().len() == 16);
    assert(Castle::spec_key().len() == 6);
    assert(Moon::spec_key().len() == 4);
    assert(Snow::spec_key().len() == 4);
    assert(Desert::spec_key().len() == 6);
    assert(Forest::spec_key().len() == 6);
    assert(Ending::spec_key().len() == 6);
    assert(Intro::spec_key().len() == 5);
    assert(Lives::spec_key().len() == 5);
    assert(Gems::spec_key().len() == 4);
    assert(Moon::spec_key() != Snow::spec_key()) by {
        assert(Moon::spec_key()[0] != Snow::spec_key()[0]);
    }
    assert(Moon::spec_key() != Gems::spec_key()) by {
        assert(Moon::spec_key()[0] != Gems::spec_key()[0]);
    }
    assert(Snow::spec_key() != Gems::spec_key()) by {
        assert(Snow::spec_key()[0] != Gems::spec_key()[0]);
    }
    assert(Intro::spec_key() != Lives::spec_key()) by {
        assert(Intro::spec_key()[0] != Lives::spec_key()[0]);
    }
    assert(Castle::spec_key() != Desert::spec_key()) by {
        assert(Castle::spec_key()[0] != Desert::spec_key()[0]);
    }
    assert(Castle::spec_key() != Forest::spec_key()) by {
        assert(Castle::spec_key()[0] != Forest::spec_key()[0]);
    }
    assert(Castle::spec_key() != Ending::spec_key()) by {
        assert(Castle::spec_key()[0] != Ending::spec_key()[0]);
    }
    assert(Desert::spec_key() != Forest::spec_key()) by {
        assert(Desert::spec_key()[0] != Forest::spec_key()[0]);
    }
    assert(Desert::spec_key() != Ending::spec_key()) by {
        assert(Desert::spec_key()[0] != Ending::spec_key()[0]);
    }
    assert(Forest::spec_key() != Ending::spec_key()) by {
        assert(Forest::spec_key()[0] != Ending::spec_key()[0]);
    }
    let parts = spec_level_parts(f.level);
    lemma_field_roundtrip::<Castle>(sec, parts.0);
    lemma_field_roundtrip::<Moon>(sec, parts.1);
    lemma_field_roundtrip::<Snow>(sec, parts.2);
    lemma_field_roundtrip::<Desert>(sec, parts.3);
    lemma_field_roundtrip::<Forest>(sec, parts.4);
    lemma_field_roundtrip::<BossNoDamageProgress>(sec, f.boss_no_damage_progress);
    lemma_field_roundtrip::<EnemiesDefeated>(sec, f.enemies_defeated);
    lemma_field_roundtrip::<Ending>(sec, f.ending);
    lemma_field_roundtrip::<Intro>(sec, f.intro);
    lemma_field_roundtrip::<Lives>(sec, f.lives);
    lemma_field_roundtrip::<Gems>(sec, f.gems);
    lemma_level_roundtrip(f.level);
}

/// Which of the three save slots a file section belongs to.
#[derive(Clone, Copy, Debug, PartialEq, Eq, Structural)]
pub enum FileIndex {
    File1,
    File2,
    File3,
}

/// The section name of one save slot.
pub open spec fn spec_file_index_name(idx: FileIndex) -> Seq<char> {
    match idx {
        FileIndex::File1 => "file1"@,
        FileIndex::File2 => "file2"@,
        FileIndex::File3 => "file3"@,
    }
}

impl FileIndex {
    /// The section name of the slot.
    pub fn ini_section_str(&self) -> (r: &'static str)
        ensures
            r@ == spec_file_index_name(*self),
    {
        match self {
            FileIndex::File1 => "file1",
            FileIndex::File2 => "file2",
            FileIndex::File3 => "file3",
        }
    }

    /// The slot's position among the three slots of a save.
    pub fn index(&self) -> (r: usize)
        ensures
            r == match *self {
                FileIndex::File1 => 0int,
                FileIndex::File2 => 1int,
                FileIndex::File3 => 2int,
            },
    {
        match self {
            FileIndex::File1 => 0,
            FileIndex::File2 => 1,
            FileIndex::File3 => 2,
        }
    }
}

} // verus!
