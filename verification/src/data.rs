use vstd::prelude::*;

pub mod cheats;
pub mod file;
pub mod options;

use crate::data::cheats::{
    lemma_cheats_roundtrip, spec_cheats_entries, spec_cheats_from_props, spec_cheats_try_from,
    Cheats,
};
use crate::data::file::{
    lemma_file_roundtrip, spec_file_default, spec_file_entries, spec_file_from_props,
    spec_file_try_from, File,
};
use crate::data::options::{
    lemma_options_roundtrip, spec_options_default, spec_options_entries, spec_options_from_props,
    spec_options_try_from, Options,
};
use crate::document::{doc_lookup_sec, sec_lookup, Document, SecV, Section};
use crate::util::error::{errs_view, res_view, ErrV, Error};

verus! {

/// Upper bound on every number a field can carry; anything above it is out
/// of range for every field of the save format.
pub const FIELD_CAP: u64 = 100_000_000;

/// Marker for a parsed number that exceeds [`FIELD_CAP`].
pub const FIELD_OVER: u64 = 100_000_001;

// ---------------------------------------------------------------------------
// decimal digits, as specification
// ---------------------------------------------------------------------------

pub open spec fn is_digit_char(c: char) -> bool {
    '0' <= c && c <= '9'
}

pub open spec fn digit_val(c: char) -> nat {
    (c as int - '0' as int) as nat
}

pub open spec fn digit_char(d: nat) -> char {
    if d == 0 {
        '0'
    } else if d == 1 {
        '1'
    } else if d == 2 {
        '2'
    } else if d == 3 {
        '3'
    } else if d == 4 {
        '4'
    } else if d == 5 {
        '5'
    } else if d == 6 {
        '6'
    } else if d == 7 {
        '7'
    } else if d == 8 {
        '8'
    } else {
        '9'
    }
}

pub open spec fn all_digits(s: Seq<char>) -> bool {
    forall|i: int| 0 <= i < s.len() ==> is_digit_char(#[trigger] s[i])
}

/// The number denoted by a sequence of decimal digit characters; the empty
/// sequence denotes zero.
pub open spec fn digits_to_nat(s: Seq<char>) -> nat
    decreases s.len(),
{
    if s.len() == 0 {
        0
    } else {
        digits_to_nat(s.drop_last()) * 10 + digit_val(s.last())
    }
}

pub open spec fn pow10(n: nat) -> nat
    decreases n,
{
    if n == 0 {
        1
    } else {
        10 * pow10((n - 1) as nat)
    }
}

/// The shortest decimal rendering of `n` (a single `0` for zero).
pub open spec fn spec_digits(n: nat) -> Seq<char>
    decreases n,
{
    if n < 10 {
        seq![digit_char(n)]
    } else {
        spec_digits(n / 10).push(digit_char(n % 10))
    }
}

/// The decimal rendering of `n % pow10(width)`, zero-padded to exactly
/// `width` digits.
pub open spec fn padded_digits(n: nat, width: nat) -> Seq<char>
    decreases width,
{
    if width == 0 {
        Seq::empty()
    } else {
        padded_digits(n / 10, (width - 1) as nat).push(digit_char(n % 10))
    }
}

proof fn lemma_pow10_pos(n: nat)
    ensures
        pow10(n) >= 1,
    decreases n,
{
    if n > 0 {
        lemma_pow10_pos((n - 1) as nat);
    }
}

proof fn lemma_digit_char_val(d: nat)
    requires
        d < 10,
    ensures
        is_digit_char(digit_char(d)),
        digit_val(digit_char(d)) == d,
{
}

proof fn lemma_digits_push(s: Seq<char>, c: char)
    ensures
        digits_to_nat(s.push(c)) == digits_to_nat(s) * 10 + digit_val(c),
{
    assert(s.push(c).drop_last() =~= s);
    assert(s.push(c).last() == c);
}

/// `spec_digits` renders only digit characters.
proof fn lemma_spec_digits_are_digits(n: nat)
    ensures
        all_digits(spec_digits(n)),
        spec_digits(n).len() >= 1,
    decreases n,
{
    if n < 10 {
        lemma_digit_char_val(n);
    } else {
        lemma_spec_digits_are_digits(n / 10);
        lemma_digit_char_val(n % 10);
        assert forall|i: int| 0 <= i < spec_digits(n).len() implies is_digit_char(
            #[trigger] spec_digits(n)[i],
        ) by {
            if i < spec_digits(n / 10).len() {
                assert(spec_digits(n)[i] == spec_digits(n / 10)[i]);
            }
        }
    }
}

proof fn lemma_padded_digits_are_digits(n: nat, width: nat)
    ensures
        all_digits(padded_digits(n, width)),
        padded_digits(n, width).len() == width,
    decreases width,
{
    if width > 0 {
        lemma_padded_digits_are_digits(n / 10, (width - 1) as nat);
        lemma_digit_char_val(n % 10);
        assert forall|i: int| 0 <= i < padded_digits(n, width).len() implies is_digit_char(
            #[trigger] padded_digits(n, width)[i],
        ) by {
            if i < padded_digits(n / 10, (width - 1) as nat).len() {
                assert(padded_digits(n, width)[i] == padded_digits(n / 10, (width - 1) as nat)[i]);
            }
        }
    }
}

/// Reading the rendering of `n` back gives `n`.
proof fn lemma_digits_roundtrip(n: nat)
    ensures
        digits_to_nat(spec_digits(n)) == n,
    decreases n,
{
    if n < 10 {
        lemma_digit_char_val(n);
        let s = seq![digit_char(n)];
        assert(spec_digits(n) == s);
        assert(s.drop_last() =~= Seq::<char>::empty());
        assert(digits_to_nat(Seq::<char>::empty()) == 0);
        assert(s.last() == digit_char(n));
        assert(digits_to_nat(s) == digits_to_nat(s.drop_last()) * 10 + digit_val(s.last()));
    } else {
        lemma_digits_roundtrip(n / 10);
        lemma_digit_char_val(n % 10);
        lemma_digits_push(spec_digits(n / 10), digit_char(n % 10));
        assert(n == (n / 10) * 10 + n % 10) by (nonlinear_arith);
    }
}

/// Reading a zero-padded rendering of a bounded number back gives it whole.
proof fn lemma_padded_digits_value(n: nat, width: nat)
    requires
        n < pow10(width),
    ensures
        digits_to_nat(padded_digits(n, width)) == n,
    decreases width,
{
    if width == 0 {
        assert(pow10(0) == 1);
    } else {
        let w1 = (width - 1) as nat;
        assert(pow10(width) == 10 * pow10(w1));
        assert(n / 10 < pow10(w1)) by (nonlinear_arith)
            requires
                n < 10 * pow10(w1),
        ;
        lemma_padded_digits_value(n / 10, w1);
        lemma_digit_char_val(n % 10);
        lemma_digits_push(padded_digits(n / 10, w1), digit_char(n % 10));
        assert(n == (n / 10) * 10 + n % 10) by (nonlinear_arith);
    }
}

// ---------------------------------------------------------------------------
// the textual shape of a stored number
// ---------------------------------------------------------------------------

pub open spec fn trim_leading_quotes(s: Seq<char>) -> Seq<char>
    decreases s.len(),
{
    if s.len() > 0 && s[0] == '"' {
        trim_leading_quotes(s.drop_first())
    } else {
        s
    }
}

pub open spec fn trim_trailing_quotes(s: Seq<char>) -> Seq<char>
    decreases s.len(),
{
    if s.len() > 0 && s.last() == '"' {
        trim_trailing_quotes(s.drop_last())
    } else {
        s
    }
}

/// A stored value with every surrounding quote character removed, the way
/// the engine's own reader treats quoted numbers.
pub open spec fn trim_quotes(s: Seq<char>) -> Seq<char> {
    trim_trailing_quotes(trim_leading_quotes(s))
}

/// The sign prefix of a number: whether it is negative, and the text after
/// the sign character.
pub open spec fn strip_sign(s: Seq<char>) -> (bool, Seq<char>) {
    if s.len() > 0 && s[0] == '-' {
        (true, s.drop_first())
    } else if s.len() > 0 && s[0] == '+' {
        (false, s.drop_first())
    } else {
        (false, s)
    }
}

/// The index of the first `.` in `s`, if any.
pub open spec fn first_dot(s: Seq<char>) -> Option<int>
    decreases s.len(),
{
    if s.len() == 0 {
        None
    } else if s[0] == '.' {
        Some(0)
    } else {
        match first_dot(s.drop_first()) {
            Some(i) => Some(i + 1),
            None => None,
        }
    }
}

/// The integer-part digits of an unsigned decimal body.
pub open spec fn int_part(b: Seq<char>) -> Seq<char> {
    match first_dot(b) {
        Some(i) => b.take(i),
        None => b,
    }
}

/// The fractional-part digits of an unsigned decimal body.
pub open spec fn frac_part(b: Seq<char>) -> Seq<char> {
    match first_dot(b) {
        Some(i) => b.skip(i + 1),
        None => Seq::empty(),
    }
}

/// What the fractional digits contribute once the number is scaled by
/// `pow10(shift)`: the first `shift` digits, padded with zeroes when the
/// fraction is shorter, plus one for round-half-up on the next digit.
pub open spec fn frac_scaled(fp: Seq<char>, shift: nat) -> nat {
    if fp.len() <= shift {
        digits_to_nat(fp) * pow10((shift - fp.len()) as nat)
    } else {
        digits_to_nat(fp.take(shift as int)) + if digit_val(fp[shift as int]) >= 5 {
            1nat
        } else {
            0nat
        }
    }
}

/// The number a stored text denotes once scaled by `pow10(shift)` and
/// rounded half-up, or `None` when the text is not a decimal number.
///
/// Accepted shapes, after quote removal: an optional sign, then digits with
/// at most one dot among them, at least one digit in all.
pub open spec fn spec_scaled(text: Seq<char>, shift: nat) -> Option<int> {
    let t = trim_quotes(text);
    let signed = strip_sign(t);
    let b = signed.1;
    let ip = int_part(b);
    let fp = frac_part(b);
    if all_digits(ip) && all_digits(fp) && ip.len() + fp.len() >= 1 {
        let mag = digits_to_nat(ip) * pow10(shift) + frac_scaled(fp, shift);
        Some(
            if signed.0 {
                -(mag as int)
            } else {
                mag as int
            },
        )
    } else {
        None
    }
}

/// How one field's stored text reads as a number, scaled for its shift.
#[derive(Clone, Copy, Debug, PartialEq, Eq, Structural)]
pub enum RawField {
    /// No entry under the field's key.
    Missing,
    /// The text is not a decimal number.
    Malformed,
    /// The scaled number is negative or exceeds [`FIELD_CAP`].
    OutOfRange,
    /// The exact scaled, rounded value.
    Value(u64),
}

/// The reading of a value text as a bounded field number.
pub open spec fn spec_parse_field(text: Seq<char>, shift: nat) -> RawField {
    match spec_scaled(text, shift) {
        None => RawField::Malformed,
        Some(n) => if 0 <= n <= FIELD_CAP {
            RawField::Value(n as u64)
        } else {
            RawField::OutOfRange
        },
    }
}

/// The reading of the field stored under `key` in a section.
pub open spec fn spec_read_field(sec: SecV, key: Seq<char>, shift: nat) -> RawField {
    match sec_lookup(sec.entries, key) {
        None => RawField::Missing,
        Some(t) => spec_parse_field(t, shift),
    }
}

// ---------------------------------------------------------------------------
// rendering a field value
// ---------------------------------------------------------------------------

/// The exact text the engine stores for ordinal `v` of a field scaled by
/// `pow10(shift)`: the quotient rendered with six decimal places, wrapped
/// in quote characters.
pub open spec fn spec_quoted_scaled(v: nat, shift: nat) -> Seq<char> {
    seq!['"'] + spec_digits(v / pow10(shift)) + seq!['.'] + padded_digits(
        (v % pow10(shift)) * pow10((6 - shift) as nat),
        6,
    ) + seq!['"']
}

fn pow10_exec(k: u32) -> (r: u64)
    requires
        k <= 8,
    ensures
        r == pow10(k as nat),
{
    proof {
        reveal_with_fuel(pow10, 10);
    }
    match k {
        0 => 1,
        1 => 10,
        2 => 100,
        3 => 1_000,
        4 => 10_000,
        5 => 100_000,
        6 => 1_000_000,
        7 => 10_000_000,
        _ => 100_000_000,
    }
}

fn push_digit(s: &mut String, d: u64)
    requires
        d < 10,
    ensures
        final(s)@ == old(s)@.push(digit_char(d as nat)),
{
    let t: &str = match d {
        0 => "0",
        1 => "1",
        2 => "2",
        3 => "3",
        4 => "4",
        5 => "5",
        6 => "6",
        7 => "7",
        8 => "8",
        _ => "9",
    };
    proof {
        reveal_strlit("0");
        reveal_strlit("1");
        reveal_strlit("2");
        reveal_strlit("3");
        reveal_strlit("4");
        reveal_strlit("5");
        reveal_strlit("6");
        reveal_strlit("7");
        reveal_strlit("8");
        reveal_strlit("9");
    }
    s.append(t);
    proof {
        assert(final(s)@ =~= old(s)@.push(digit_char(d as nat)));
    }
}

fn push_int_digits(s: &mut String, n: u64)
    ensures
        final(s)@ == old(s)@ + spec_digits(n as nat),
    decreases n,
{
    if n < 10 {
        push_digit(s, n);
        proof {
            assert(final(s)@ =~= old(s)@ + spec_digits(n as nat));
        }
    } else {
        push_int_digits(s, n / 10);
        push_digit(s, n % 10);
        proof {
            assert(final(s)@ =~= old(s)@ + spec_digits(n as nat));
        }
    }
}

fn push_padded_digits(s: &mut String, n: u64, width: u32)
    ensures
        final(s)@ == old(s)@ + padded_digits(n as nat, width as nat),
    decreases width,
{
    if width == 0 {
        proof {
            assert(final(s)@ =~= old(s)@ + padded_digits(n as nat, 0));
        }
    } else {
        push_padded_digits(s, n / 10, width - 1);
        push_digit(s, n % 10);
        proof {
            assert(final(s)@ =~= old(s)@ + padded_digits(n as nat, width as nat));
        }
    }
}

// ---------------------------------------------------------------------------
// reading a field value
// ---------------------------------------------------------------------------

/// A number clamped to the marker value once it exceeds [`FIELD_CAP`].
pub open spec fn clamp_cap(n: nat) -> u64 {
    if n > FIELD_CAP {
        FIELD_OVER
    } else {
        n as u64
    }
}

proof fn lemma_digits_to_nat_bound(s: Seq<char>)
    requires
        all_digits(s),
    ensures
        digits_to_nat(s) < pow10(s.len()),
    decreases s.len(),
{
    if s.len() == 0 {
    } else {
        assert(all_digits(s.drop_last())) by {
            assert(forall|i: int|
                0 <= i < s.len() - 1 ==> s.drop_last()[i] == #[trigger] s[i]);
        }
        lemma_digits_to_nat_bound(s.drop_last());
        assert(is_digit_char(s.last()));
        assert(digit_val(s.last()) <= 9);
    }
}

/// Whether every character of `text` between `lo` and `hi` is a digit.
fn all_digits_range(text: &str, lo: usize, hi: usize) -> (r: bool)
    requires
        lo <= hi <= text@.len(),
    ensures
        r == all_digits(text@.subrange(lo as int, hi as int)),
{
    let ghost sub = text@.subrange(lo as int, hi as int);
    let mut i: usize = lo;
    while i < hi
        invariant
            lo <= i <= hi <= text@.len(),
            sub == text@.subrange(lo as int, hi as int),
            forall|j: int| lo <= j < i ==> is_digit_char(#[trigger] text@[j]),
        decreases hi - i,
    {
        let c = text.get_char(i);
        if !(c >= '0' && c <= '9') {
            proof {
                assert(sub[i - lo as int] == text@[i as int]);
                assert(!is_digit_char(sub[i - lo as int]));
            }
            return false;
        }
        i += 1;
    }
    proof {
        assert forall|j: int| 0 <= j < sub.len() implies is_digit_char(#[trigger] sub[j]) by {
            assert(sub[j] == text@[lo as int + j]);
        }
    }
    true
}

/// The number the digits of `text` between `lo` and `hi` denote, clamped
/// at the field bound.
fn digits_value(text: &str, lo: usize, hi: usize) -> (r: u64)
    requires
        lo <= hi <= text@.len(),
        all_digits(text@.subrange(lo as int, hi as int)),
    ensures
        r == clamp_cap(digits_to_nat(text@.subrange(lo as int, hi as int))),
{
    let mut acc: u64 = 0;
    let mut i: usize = lo;
    proof {
        assert(text@.subrange(lo as int, lo as int) =~= Seq::<char>::empty());
    }
    while i < hi
        invariant
            lo <= i <= hi <= text@.len(),
            all_digits(text@.subrange(lo as int, hi as int)),
            acc == clamp_cap(digits_to_nat(text@.subrange(lo as int, i as int))),
        decreases hi - i,
    {
        let ghost pre = text@.subrange(lo as int, i as int);
        let c = text.get_char(i);
        proof {
            assert(text@.subrange(lo as int, hi as int)[i - lo as int] == text@[i as int]);
            assert(is_digit_char(c));
            assert(text@.subrange(lo as int, i as int + 1) =~= pre.push(c));
            lemma_digits_push(pre, c);
        }
        let d: u64 = (c as u32 - 48) as u64;
        proof {
            assert(d == digit_val(c));
        }
        if acc <= FIELD_CAP {
            acc = acc * 10 + d;
            if acc > FIELD_CAP {
                acc = FIELD_OVER;
            }
        }
        i += 1;
    }
    acc
}

/// The index of the first `.` at or after `lo` and before `hi`, or `hi`.
fn scan_dot(text: &str, lo: usize, hi: usize) -> (r: usize)
    requires
        lo <= hi <= text@.len(),
    ensures
        lo <= r <= hi,
        r < hi ==> text@[r as int] == '.',
        forall|j: int| lo <= j < r ==> text@[j] != '.',
{
    let mut i: usize = lo;
    while i < hi
        invariant
            lo <= i <= hi <= text@.len(),
            forall|j: int| lo <= j < i ==> text@[j] != '.',
        decreases hi - i,
    {
        if text.get_char(i) == '.' {
            return i;
        }
        i += 1;
    }
    hi
}

/// Where the first dot of `s` is, given a scan that stopped at `i`.
proof fn lemma_first_dot_at(s: Seq<char>, i: int)
    requires
        0 <= i <= s.len(),
        forall|k: int| 0 <= k < i ==> s[k] != '.',
        i < s.len() ==> s[i] == '.',
    ensures
        first_dot(s) == if i < s.len() {
            Some(i)
        } else {
            None::<int>
        },
    decreases s.len(),
{
    if s.len() == 0 {
    } else if i == 0 {
    } else {
        assert(s[0] != '.');
        let d = s.drop_first();
        assert(forall|k: int| 0 <= k < i - 1 ==> #[trigger] d[k] == s[k + 1]);
        assert(i - 1 < d.len() ==> d[i - 1] == s[i]);
        lemma_first_dot_at(d, i - 1);
    }
}

/// Reads one stored value as a decimal number scaled by `pow10(shift)` and
/// rounded half away from zero, exactly as [`spec_parse_field`] states.
#[verifier::rlimit(100)]
#[verifier::spinoff_prover]
pub fn parse_field(text: &str, shift: u32) -> (r: RawField)
    requires
        shift <= 2,
    ensures
        r == spec_parse_field(text@, shift as nat),
        !(r is Missing),
{
    let len = text.unicode_len();
    // strip surrounding quote characters
    let mut lo: usize = 0;
    proof {
        assert(text@.skip(0) =~= text@);
    }
    while lo < len && text.get_char(lo) == '"'
        invariant
            lo <= len == text@.len(),
            trim_leading_quotes(text@) == trim_leading_quotes(text@.skip(lo as int)),
        decreases len - lo,
    {
        proof {
            assert(text@.skip(lo as int)[0] == text@[lo as int]);
            assert(text@.skip(lo as int).drop_first() =~= text@.skip(lo as int + 1));
        }
        lo += 1;
    }
    proof {
        if lo < len {
            assert(text@.skip(lo as int)[0] == text@[lo as int]);
        } else {
            assert(text@.skip(lo as int) =~= Seq::<char>::empty());
        }
        assert(trim_leading_quotes(text@) == text@.skip(lo as int));
    }
    let mut hi: usize = len;
    proof {
        assert(text@.subrange(lo as int, hi as int) =~= text@.skip(lo as int));
    }
    while hi > lo && text.get_char(hi - 1) == '"'
        invariant
            lo <= hi <= len == text@.len(),
            trim_quotes(text@) == trim_trailing_quotes(text@.subrange(lo as int, hi as int)),
        decreases hi,
    {
        proof {
            let sub = text@.subrange(lo as int, hi as int);
            assert(sub.last() == text@[hi - 1]);
            assert(sub.drop_last() =~= text@.subrange(lo as int, hi as int - 1));
        }
        hi -= 1;
    }
    let ghost t = text@.subrange(lo as int, hi as int);
    proof {
        if hi > lo {
            assert(t.last() == text@[hi - 1]);
        }
        assert(trim_quotes(text@) == t);
    }
    // sign
    let mut neg = false;
    let mut bs: usize = lo;
    if lo < hi {
        let c = text.get_char(lo);
        if c == '-' {
            neg = true;
            bs = lo + 1;
        } else if c == '+' {
            bs = lo + 1;
        }
        proof {
            assert(t[0] == text@[lo as int]);
        }
    }
    let ghost b = text@.subrange(bs as int, hi as int);
    proof {
        if bs > lo {
            assert(t.drop_first() =~= b);
        } else {
            assert(t =~= b);
        }
        assert(strip_sign(t) == (neg, b));
    }
    // split at the first dot
    let dot = scan_dot(text, bs, hi);
    proof {
        assert(forall|k: int|
            0 <= k < dot - bs ==> #[trigger] b[k] == text@[bs as int + k] && b[k] != '.');
        if dot < hi {
            assert(b[dot - bs as int] == text@[dot as int]);
        }
        lemma_first_dot_at(b, dot - bs as int);
    }
    let ghost ip = int_part(b);
    let ghost fp = frac_part(b);
    proof {
        if dot < hi {
            assert(ip =~= text@.subrange(bs as int, dot as int));
            assert(fp =~= text@.subrange(dot as int + 1, hi as int));
        } else {
            assert(ip =~= text@.subrange(bs as int, dot as int));
            assert(fp =~= Seq::<char>::empty());
        }
    }
    // validate digits
    let ip_ok = all_digits_range(text, bs, dot);
    let fp_ok = if dot < hi {
        all_digits_range(text, dot + 1, hi)
    } else {
        true
    };
    let flen: usize = if dot < hi {
        hi - dot - 1
    } else {
        0
    };
    if !ip_ok || !fp_ok || (dot - bs) + flen == 0 {
        proof {
            if dot == hi {
                assert(all_digits(fp));
                assert(!ip_ok || ip.len() + fp.len() < 1);
            }
            assert(spec_scaled(text@, shift as nat) is None);
        }
        return RawField::Malformed;
    }
    // numeric value of both parts, clamped at the field bound
    let vi = digits_value(text, bs, dot);
    let p = pow10_exec(shift);
    proof {
        lemma_pow10_pos(shift as nat);
    }
    let ghost mag = digits_to_nat(ip) * pow10(shift as nat) + frac_scaled(fp, shift as nat);
    let m: u64;
    if flen <= shift as usize {
        let vf = if dot < hi {
            digits_value(text, dot + 1, hi)
        } else {
            proof {
                assert(digits_to_nat(fp) == 0);
            }
            0
        };
        let pad = pow10_exec(shift - flen as u32);
        proof {
            lemma_pow10_pos((shift - flen) as nat);
        }
        if vi == FIELD_OVER || vf == FIELD_OVER {
            m = FIELD_OVER;
            proof {
                if vi == FIELD_OVER {
                    assert(digits_to_nat(ip) > FIELD_CAP);
                    assert(mag >= digits_to_nat(ip) * pow10(shift as nat)) by (nonlinear_arith)
                        requires
                            mag == digits_to_nat(ip) * pow10(shift as nat) + frac_scaled(
                                fp,
                                shift as nat,
                            ),
                    ;
                    assert(digits_to_nat(ip) * pow10(shift as nat) >= digits_to_nat(ip))
                        by (nonlinear_arith)
                        requires
                            pow10(shift as nat) >= 1,
                    ;
                } else {
                    assert(digits_to_nat(fp) > FIELD_CAP);
                    assert(frac_scaled(fp, shift as nat) == digits_to_nat(fp) * pow10(
                        (shift - fp.len()) as nat,
                    ));
                    assert(digits_to_nat(fp) * pow10((shift - fp.len()) as nat) >= digits_to_nat(
                        fp,
                    )) by (nonlinear_arith)
                        requires
                            pow10((shift - fp.len()) as nat) >= 1,
                    ;
                }
                assert(mag > FIELD_CAP);
            }
        } else {
            proof {
                assert(pow10(2) == 100 && pow10(1) == 10 && pow10(0) == 1) by {
                    reveal_with_fuel(pow10, 3);
                }
                assert(vi * p <= FIELD_CAP * 100 && vf * pad <= FIELD_CAP * 100)
                    by (nonlinear_arith)
                    requires
                        vi <= FIELD_CAP,
                        vf <= FIELD_CAP,
                        1 <= p <= 100,
                        1 <= pad <= 100,
                ;
            }
            let raw = vi * p + vf * pad;
            proof {
                assert(raw == mag) by (nonlinear_arith)
                    requires
                        raw == vi * p + vf * pad,
                        mag == digits_to_nat(ip) * pow10(shift as nat) + digits_to_nat(fp) * pow10(
                            (shift - fp.len()) as nat,
                        ),
                        vi == digits_to_nat(ip),
                        vf == digits_to_nat(fp),
                        p == pow10(shift as nat),
                        pad == pow10((shift - fp.len()) as nat),
                ;
            }
            m = if raw > FIELD_CAP {
                FIELD_OVER
            } else {
                raw
            };
        }
        proof {
            assert(pow10(2) == 100 && pow10(1) == 10 && pow10(0) == 1) by {
                reveal_with_fuel(pow10, 3);
            }
            assert(m == clamp_cap(mag));
        }
    } else {
        // more fractional digits than the scale keeps: round half-up
        let vf = digits_value(text, dot + 1, dot + 1 + shift as usize);
        proof {
            assert(fp.take(shift as int) =~= text@.subrange(
                dot as int + 1,
                dot as int + 1 + shift as int,
            ));
            assert(all_digits(fp.take(shift as int)));
            lemma_digits_to_nat_bound(fp.take(shift as int));
            assert(pow10(2) == 100 && pow10(1) == 10 && pow10(0) == 1) by {
                reveal_with_fuel(pow10, 3);
            }
            assert(pow10(shift as nat) <= 100);
            assert(digits_to_nat(fp.take(shift as int)) < 100);
        }
        let rc = text.get_char(dot + 1 + shift as usize);
        proof {
            assert(fp[shift as int] == text@[dot as int + 1 + shift as int]);
            assert(is_digit_char(rc));
        }
        let rb: u64 = if rc >= '5' {
            1
        } else {
            0
        };
        proof {
            assert((rb == 1) == (digit_val(fp[shift as int]) >= 5));
        }
        if vi == FIELD_OVER {
            m = FIELD_OVER;
            proof {
                assert(digits_to_nat(ip) > FIELD_CAP);
                assert(digits_to_nat(ip) * pow10(shift as nat) >= digits_to_nat(ip))
                    by (nonlinear_arith)
                    requires
                        pow10(shift as nat) >= 1,
                ;
                assert(mag > FIELD_CAP);
            }
        } else {
            proof {
                assert(vi * p <= FIELD_CAP * 100) by (nonlinear_arith)
                    requires
                        vi <= FIELD_CAP,
                        1 <= p <= 100,
                ;
            }
            let raw = vi * p + vf + rb;
            proof {
                assert(raw == mag) by (nonlinear_arith)
                    requires
                        raw == vi * p + vf + rb,
                        mag == digits_to_nat(ip) * pow10(shift as nat) + digits_to_nat(
                            fp.take(shift as int),
                        ) + rb,
                        vi == digits_to_nat(ip),
                        vf == digits_to_nat(fp.take(shift as int)),
                        p == pow10(shift as nat),
                ;
            }
            m = if raw > FIELD_CAP {
                FIELD_OVER
            } else {
                raw
            };
        }
        proof {
            assert(m == clamp_cap(mag));
        }
    }
    proof {
        assert(spec_scaled(text@, shift as nat) == Some(
            if neg {
                -(mag as int)
            } else {
                mag as int
            },
        ));
    }
    if neg {
        if m == 0 {
            RawField::Value(0)
        } else {
            RawField::OutOfRange
        }
    } else {
        if m > FIELD_CAP {
            RawField::OutOfRange
        } else {
            RawField::Value(m)
        }
    }
}

/// Reads the field stored under `key` in `sec`, scaled for `shift`.
pub fn read_field(sec: &Section, key: &str, shift: u32) -> (r: RawField)
    requires
        shift <= 2,
    ensures
        r == spec_read_field(sec@, key@, shift as nat),
{
    match sec.get(key) {
        None => RawField::Missing,
        Some(v) => parse_field(v.as_str(), shift),
    }
}

/// Renders ordinal `value` of a field scaled by `pow10(shift)` as the
/// engine's quoted six-decimal literal (`30` at shift `2` becomes
/// `"0.300000"`, quotes included).
pub fn into_quoted_scaled_float_string(value: u64, shift: u32) -> (r: String)
    requires
        shift <= 2,
        value <= FIELD_CAP,
    ensures
        r@ == spec_quoted_scaled(value as nat, shift as nat),
{
    let p = pow10_exec(shift);
    proof {
        lemma_pow10_pos(shift as nat);
    }
    let mut s = String::new();
    s.append("\"");
    push_int_digits(&mut s, value / p);
    s.append(".");
    let q = pow10_exec(6 - shift);
    proof {
        lemma_pow10_pos((6 - shift) as nat);
        reveal_with_fuel(pow10, 10);
        assert((value % p) < p);
        assert(pow10(0) == 1 && pow10(1) == 10 && pow10(2) == 100);
        assert(pow10(4) == 10000 && pow10(5) == 100000 && pow10(6) == 1000000);
        if shift == 0 {
            assert(p * q == pow10(6));
        } else if shift == 1 {
            assert(p * q == pow10(6));
        } else {
            assert(p * q == pow10(6));
        }
        assert((value % p) * q < p * q) by (nonlinear_arith)
            requires
                (value % p) < p,
                q >= 1,
        ;
    }
    let frac = (value % p) * q;
    push_padded_digits(&mut s, frac, 6);
    s.append("\"");
    proof {
        reveal_strlit("\"");
        reveal_strlit(".");
        assert(s@ =~= spec_quoted_scaled(value as nat, shift as nat));
    }
    s
}

// ---------------------------------------------------------------------------
// the round trip of one field value
// ---------------------------------------------------------------------------

proof fn lemma_padded_take(n: nat, width: nat, k: nat)
    requires
        k <= width,
    ensures
        padded_digits(n, width).take(k as int) == padded_digits(
            n / pow10((width - k) as nat),
            k,
        ),
    decreases width,
{
    lemma_padded_digits_are_digits(n, width);
    if k == width {
        assert(padded_digits(n, width).take(width as int) =~= padded_digits(n, width));
        assert(pow10(0) == 1);
        assert(n / 1 == n);
    } else {
        let base = padded_digits(n / 10, (width - 1) as nat);
        lemma_padded_digits_are_digits(n / 10, (width - 1) as nat);
        assert(padded_digits(n, width).take(k as int) =~= base.take(k as int));
        lemma_padded_take(n / 10, (width - 1) as nat, k);
        lemma_pow10_pos((width - 1 - k) as nat);
        vstd::arithmetic::div_mod::lemma_div_denominator(
            n as int,
            10,
            pow10((width - 1 - k) as nat) as int,
        );
        assert(10 * pow10((width - 1 - k) as nat) == pow10((width - k) as nat));
    }
}

/// The digit of a zero-padded rendering at position `k`.
proof fn lemma_padded_index(n: nat, width: nat, k: nat)
    requires
        k < width,
    ensures
        padded_digits(n, width)[k as int] == digit_char(
            (n / pow10((width - k - 1) as nat)) % 10,
        ),
    decreases width,
{
    lemma_padded_digits_are_digits(n, width);
    let base = padded_digits(n / 10, (width - 1) as nat);
    lemma_padded_digits_are_digits(n / 10, (width - 1) as nat);
    assert(padded_digits(n, width) == base.push(digit_char(n % 10)));
    if k == width - 1 {
        assert(padded_digits(n, width)[k as int] == digit_char(n % 10));
        assert(pow10(0) == 1);
        assert(n / 1 == n);
    } else {
        assert(padded_digits(n, width)[k as int] == base[k as int]);
        lemma_padded_index(n / 10, (width - 1) as nat, k);
        lemma_pow10_pos((width - k - 2) as nat);
        vstd::arithmetic::div_mod::lemma_div_denominator(
            n as int,
            10,
            pow10((width - k - 2) as nat) as int,
        );
        assert(10 * pow10((width - k - 2) as nat) == pow10((width - k - 1) as nat));
    }
}

/// Reading back the exact quoted rendering of a field value gives the value.
pub proof fn lemma_quoted_scaled_roundtrip(v: nat, shift: nat)
    requires
        shift <= 2,
        v <= FIELD_CAP,
    ensures
        spec_scaled(spec_quoted_scaled(v, shift), shift) == Some(v as int),
        spec_parse_field(spec_quoted_scaled(v, shift), shift) == RawField::Value(v as u64),
{
    reveal_with_fuel(pow10, 8);
    let p = pow10(shift);
    lemma_pow10_pos(shift);
    let iv = v / p;
    let fv = (v % p) * pow10((6 - shift) as nat);
    let dd = spec_digits(iv);
    let ff = padded_digits(fv, 6);
    lemma_spec_digits_are_digits(iv);
    lemma_padded_digits_are_digits(fv, 6);
    let s = spec_quoted_scaled(v, shift);
    let inner = dd + seq!['.'] + ff;
    reveal_with_fuel(trim_leading_quotes, 3);
    reveal_with_fuel(trim_trailing_quotes, 3);
    // the quotes fall away
    assert(s[0] == '"');
    assert(s.drop_first() =~= inner + seq!['"']);
    assert((inner + seq!['"'])[0] == dd[0]);
    assert(is_digit_char(dd[0]) && dd[0] != '"');
    assert(trim_leading_quotes(s) == inner + seq!['"']);
    assert((inner + seq!['"']).last() == '"');
    assert((inner + seq!['"']).drop_last() =~= inner);
    assert(inner.last() == ff[5]);
    assert(is_digit_char(inner.last()) && inner.last() != '"');
    assert(trim_quotes(s) == inner);
    // no sign
    assert(inner[0] == dd[0]);
    assert(inner[0] != '-' && inner[0] != '+');
    assert(strip_sign(inner) == (false, inner));
    // the dot sits right after the integer digits
    assert forall|k: int| 0 <= k < dd.len() implies inner[k] != '.' by {
        assert(inner[k] == dd[k]);
        assert(is_digit_char(dd[k]));
    }
    assert(inner[dd.len() as int] == '.');
    lemma_first_dot_at(inner, dd.len() as int);
    let ip = int_part(inner);
    let fp = frac_part(inner);
    assert(ip =~= dd);
    assert(fp =~= ff);
    assert(all_digits(ip) && all_digits(fp) && ip.len() + fp.len() >= 1);
    // the integer part reads back
    lemma_digits_roundtrip(iv);
    // the kept fractional digits read back
    assert(fp.len() == 6 > shift);
    lemma_padded_take(fv, 6, shift);
    let q = pow10((6 - shift) as nat);
    let w = pow10((6 - shift - 1) as nat);
    lemma_pow10_pos((6 - shift) as nat);
    lemma_pow10_pos((6 - shift - 1) as nat);
    assert(q == 10 * w);
    vstd::arithmetic::div_mod::lemma_div_multiples_vanish((v % p) as int, q as int);
    assert((v % p) * q == q * (v % p)) by (nonlinear_arith);
    assert(fv / q == v % p);
    assert(v % p < p);
    lemma_padded_digits_value(v % p, shift);
    assert(digits_to_nat(fp.take(shift as int)) == v % p);
    // the first dropped digit is a zero, so nothing rounds up
    lemma_padded_index(fv, 6, shift);
    let m = fv / w;
    let r = v % p;
    assert(fv == r * q);
    assert(fv == (r * 10) * w) by (nonlinear_arith)
        requires
            fv == r * q,
            q == 10 * w,
    ;
    vstd::arithmetic::div_mod::lemma_div_multiples_vanish((r * 10) as int, w as int);
    assert(w * (r * 10) == (r * 10) * w) by (nonlinear_arith);
    assert(m == r * 10);
    vstd::arithmetic::div_mod::lemma_mod_multiples_basic(r as int, 10);
    assert(m % 10 == 0);
    assert(fp[shift as int] == digit_char(0));
    assert(digit_val(digit_char(0)) == 0);
    assert(frac_scaled(fp, shift) == v % p);
    // the magnitude is the encoded value itself
    vstd::arithmetic::div_mod::lemma_fundamental_div_mod(v as int, p as int);
    assert(digits_to_nat(ip) * pow10(shift) + frac_scaled(fp, shift) == v) by (nonlinear_arith)
        requires
            digits_to_nat(ip) == v / p,
            frac_scaled(fp, shift) == v % p,
            p == pow10(shift),
            v == p * (v / p) + v % p,
    ;
}

// ---------------------------------------------------------------------------
// one codec for every field
// ---------------------------------------------------------------------------

/// One field of a stored record: a value with a key of its own, a scale, a
/// set of accepted numbers, and a default. Enumerations and range-checked
/// primitives implement this once and share the whole codec.
pub trait IniField: Sized + Copy {
    /// The key the field is stored under.
    spec fn spec_key() -> Seq<char>;

    /// The field's scale exponent: its ordinal is stored divided by
    /// `pow10(spec_shift())`.
    spec fn spec_shift() -> nat;

    /// The value a stored number denotes, or `None` when the number is not
    /// an accepted ordinal of this field.
    spec fn spec_from_ordinal(n: int) -> Option<Self>;

    /// The number under which a value is stored.
    spec fn spec_ordinal(self) -> nat;

    /// The value substituted when lenient decoding cannot use the stored one.
    spec fn spec_default() -> Self;

    /// Whether an out-of-set number is a range fault (for primitives) or an
    /// invalid ordinal (for enumerations).
    spec fn spec_ranged() -> bool;

    /// Whether a value is one this field can hold at all.
    spec fn spec_valid(self) -> bool;

    /// Every valid value comes back from its own ordinal.
    proof fn lemma_roundtrip(self)
        requires
            self.spec_valid(),
        ensures
            Self::spec_from_ordinal(self.spec_ordinal() as int) == Some(self),
            self.spec_ordinal() <= FIELD_CAP,
            Self::spec_shift() <= 2,
    ;

    /// Every accepted ordinal yields a valid value with that ordinal, and
    /// the default is valid.
    proof fn lemma_decode_facts(n: int)
        ensures
            match Self::spec_from_ordinal(n) {
                Some(t) => t.spec_valid() && t.spec_ordinal() == n && 0 <= n <= FIELD_CAP,
                None => true,
            },
            Self::spec_default().spec_valid(),
            Self::spec_shift() <= 2,
    ;

    fn key() -> (r: &'static str)
        ensures
            r@ == Self::spec_key(),
    ;

    fn shift() -> (r: u32)
        ensures
            r as nat == Self::spec_shift(),
            r <= 2,
    ;

    fn ranged() -> (r: bool)
        ensures
            r == Self::spec_ranged(),
    ;

    fn from_ordinal(n: u64) -> (r: Option<Self>)
        ensures
            r == Self::spec_from_ordinal(n as int),
    ;

    fn ordinal(self) -> (r: u64)
        requires
            self.spec_valid(),
        ensures
            r as nat == self.spec_ordinal(),
    ;

    fn field_default() -> (r: Self)
        ensures
            r == Self::spec_default(),
    ;
}

/// The value lenient decoding keeps for one field: the decoded one, or the
/// field's default after a fault.
pub open spec fn field_or_default<T: IniField>(sec: SecV) -> T {
    match spec_decode_field::<T>(sec) {
        Ok(v) => v,
        Err(_) => T::spec_default(),
    }
}

/// The diagnostics lenient decoding records for one field.
pub open spec fn field_errs<T: IniField>(sec: SecV) -> Seq<ErrV> {
    match spec_decode_field::<T>(sec) {
        Ok(_) => Seq::empty(),
        Err(e) => seq![e],
    }
}

/// The error reported when a stored number is not among a field's accepted
/// ordinals.
pub open spec fn spec_out_of_set_err<T: IniField>() -> ErrV {
    if T::spec_ranged() {
        ErrV::Range(T::spec_key())
    } else {
        ErrV::InvalidOrdinal(T::spec_key())
    }
}

/// What strict decoding of one required field yields on a section.
pub open spec fn spec_decode_field<T: IniField>(sec: SecV) -> Result<T, ErrV> {
    match spec_read_field(sec, T::spec_key(), T::spec_shift()) {
        RawField::Missing => Err(ErrV::KeyMissing(T::spec_key())),
        RawField::Malformed => Err(ErrV::NumberFormat(T::spec_key())),
        RawField::OutOfRange => Err(spec_out_of_set_err::<T>()),
        RawField::Value(v) => match T::spec_from_ordinal(v as int) {
            Some(t) => Ok(t),
            None => Err(spec_out_of_set_err::<T>()),
        },
    }
}

/// What strict decoding of one optional field yields: an absent key falls
/// back to the default, every other fault is reported.
pub open spec fn spec_decode_field_opt<T: IniField>(sec: SecV) -> Result<T, ErrV> {
    match spec_read_field(sec, T::spec_key(), T::spec_shift()) {
        RawField::Missing => Ok(T::spec_default()),
        RawField::Malformed => Err(ErrV::NumberFormat(T::spec_key())),
        RawField::OutOfRange => Err(spec_out_of_set_err::<T>()),
        RawField::Value(v) => match T::spec_from_ordinal(v as int) {
            Some(t) => Ok(t),
            None => Err(spec_out_of_set_err::<T>()),
        },
    }
}

fn out_of_set_err<T: IniField>(key: &str) -> (r: Error)
    requires
        key@ == T::spec_key(),
    ensures
        r@ == spec_out_of_set_err::<T>(),
{
    if T::ranged() {
        Error::Range(key.to_owned())
    } else {
        Error::InvalidOrdinal(key.to_owned())
    }
}

/// Decodes one required field of a section, strictly.
pub fn decode_field<T: IniField>(sec: &Section) -> (r: Result<T, Error>)
    ensures
        res_view(r) == spec_decode_field::<T>(sec@),
        r matches Ok(t) ==> t.spec_valid(),
{
    let key = T::key();
    match read_field(sec, key, T::shift()) {
        RawField::Missing => Err(Error::KeyMissing(key.to_owned())),
        RawField::Malformed => Err(Error::NumberFormat(key.to_owned())),
        RawField::OutOfRange => Err(out_of_set_err::<T>(key)),
        RawField::Value(v) => match T::from_ordinal(v) {
            Some(t) => {
                proof {
                    T::lemma_decode_facts(v as int);
                }
                Ok(t)
            },
            None => Err(out_of_set_err::<T>(key)),
        },
    }
}

/// Decodes one optional field of a section, strictly; an absent key reads
/// as the default.
pub fn decode_field_opt<T: IniField>(sec: &Section) -> (r: Result<T, Error>)
    ensures
        res_view(r) == spec_decode_field_opt::<T>(sec@),
        r matches Ok(t) ==> t.spec_valid(),
{
    let key = T::key();
    match read_field(sec, key, T::shift()) {
        RawField::Missing => {
            proof {
                T::lemma_decode_facts(0);
            }
            Ok(T::field_default())
        },
        RawField::Malformed => Err(Error::NumberFormat(key.to_owned())),
        RawField::OutOfRange => Err(out_of_set_err::<T>(key)),
        RawField::Value(v) => match T::from_ordinal(v) {
            Some(t) => {
                proof {
                    T::lemma_decode_facts(v as int);
                }
                Ok(t)
            },
            None => Err(out_of_set_err::<T>(key)),
        },
    }
}

/// Decodes one required field leniently: a fault substitutes the default
/// and records one diagnostic.
pub fn decode_field_or_default<T: IniField>(sec: &Section, errors: &mut Vec<Error>) -> (r: T)
    ensures
        r.spec_valid(),
        match spec_decode_field::<T>(sec@) {
            Ok(v) => r == v && final(errors)@ == old(errors)@,
            Err(e) => r == T::spec_default() && errs_view(final(errors)@) == errs_view(
                old(errors)@,
            ).push(e),
        },
{
    match decode_field::<T>(sec) {
        Ok(v) => v,
        Err(e) => {
            let ghost ev = e@;
            errors.push(e);
            proof {
                T::lemma_decode_facts(0);
                assert(errs_view(final(errors)@) =~= errs_view(old(errors)@).push(ev));
            }
            T::field_default()
        },
    }
}

/// Decodes one optional field leniently: an absent key silently reads as
/// the default, any other fault substitutes it and records one diagnostic.
pub fn decode_field_opt_or_default<T: IniField>(sec: &Section, errors: &mut Vec<Error>) -> (r: T)
    ensures
        r.spec_valid(),
        match spec_decode_field_opt::<T>(sec@) {
            Ok(v) => r == v && final(errors)@ == old(errors)@,
            Err(e) => r == T::spec_default() && errs_view(final(errors)@) == errs_view(
                old(errors)@,
            ).push(e),
        },
{
    match decode_field_opt::<T>(sec) {
        Ok(v) => v,
        Err(e) => {
            let ghost ev = e@;
            errors.push(e);
            proof {
                T::lemma_decode_facts(0);
                assert(errs_view(final(errors)@) =~= errs_view(old(errors)@).push(ev));
            }
            T::field_default()
        },
    }
}

/// Appends one field's entry, rendered exactly as the engine stores it.
pub fn encode_field<T: IniField>(sec: &mut Section, value: T)
    requires
        value.spec_valid(),
    ensures
        final(sec)@.name == old(sec)@.name,
        final(sec)@.entries == old(sec)@.entries.push(
            (T::spec_key(), spec_quoted_scaled(value.spec_ordinal(), T::spec_shift())),
        ),
{
    proof {
        value.lemma_roundtrip();
    }
    let ord = value.ordinal();
    let text = into_quoted_scaled_float_string(ord, T::shift());
    sec.insert(T::key(), text);
}

/// Renders a field ordinal as plain digits, the unquoted form the settings
/// file stores.
pub fn into_plain_digits_string(value: u64) -> (r: String)
    ensures
        r@ == spec_digits(value as nat),
{
    let mut s = String::new();
    push_int_digits(&mut s, value);
    proof {
        assert(s@ =~= spec_digits(value as nat));
    }
    s
}

/// Reading back the plain-digit rendering of a field value gives the value.
pub proof fn lemma_plain_digits_roundtrip(v: nat)
    requires
        v <= FIELD_CAP,
    ensures
        spec_scaled(spec_digits(v), 0) == Some(v as int),
        spec_parse_field(spec_digits(v), 0) == RawField::Value(v as u64),
{
    let s = spec_digits(v);
    lemma_spec_digits_are_digits(v);
    reveal_with_fuel(trim_leading_quotes, 2);
    reveal_with_fuel(trim_trailing_quotes, 2);
    assert(is_digit_char(s[0]) && s[0] != '"');
    assert(trim_leading_quotes(s) == s);
    assert(is_digit_char(s.last()) && s.last() != '"');
    assert(trim_quotes(s) == s);
    assert(s[0] != '-' && s[0] != '+');
    assert(strip_sign(s) == (false, s));
    assert(forall|k: int| 0 <= k < s.len() ==> #[trigger] s[k] != '.');
    lemma_first_dot_at(s, s.len() as int);
    assert(int_part(s) == s);
    assert(frac_part(s) == Seq::<char>::empty());
    lemma_digits_roundtrip(v);
    assert(pow10(0) == 1);
    assert(digits_to_nat(Seq::<char>::empty()) == 0);
    assert(frac_scaled(Seq::<char>::empty(), 0) == 0);
    assert(digits_to_nat(s) * 1 == v);
}

/// A field decodes exactly its declared ordinals: a stored number that
/// some value of the field owns decodes to that value, valid and with
/// that very ordinal, and any other stored number is rejected as out of
/// set, even one lying between two declared ordinals.
pub proof fn lemma_field_ordinal_exactness<T: IniField>(sec: SecV)
    ensures
        match spec_read_field(sec, T::spec_key(), T::spec_shift()) {
            RawField::Value(v) => match T::spec_from_ordinal(v as int) {
                Some(t) => spec_decode_field::<T>(sec) == Ok::<T, ErrV>(t) && t.spec_valid()
                    && t.spec_ordinal() == v,
                None => spec_decode_field::<T>(sec) == Err::<T, ErrV>(spec_out_of_set_err::<T>()),
            },
            _ => true,
        },
{
    match spec_read_field(sec, T::spec_key(), T::spec_shift()) {
        RawField::Value(v) => {
            T::lemma_decode_facts(v as int);
        },
        _ => {},
    }
}

/// Decoding reads back exactly the value that encoding stored under a
/// field's key.
pub proof fn lemma_field_roundtrip<T: IniField>(sec: SecV, value: T)
    requires
        value.spec_valid(),
        sec_lookup(sec.entries, T::spec_key()) == Some(
            spec_quoted_scaled(value.spec_ordinal(), T::spec_shift()),
        ),
    ensures
        spec_decode_field::<T>(sec) == Ok::<T, ErrV>(value),
        spec_decode_field_opt::<T>(sec) == Ok::<T, ErrV>(value),
{
    value.lemma_roundtrip();
    lemma_quoted_scaled_roundtrip(value.spec_ordinal(), T::spec_shift());
}

// ---------------------------------------------------------------------------
// whole documents
// ---------------------------------------------------------------------------

/// Ghost form of a whole save: the options record and the three slots as a
/// sequence.
pub struct SaveV {
    pub options: Options,
    pub files: Seq<File>,
}

/// The contents of the save file: one options record and exactly three
/// save slots.
#[derive(Clone, Copy, Debug, PartialEq, Eq)]
pub struct WhipseeySaveData {
    pub options: Options,
    pub files: [File; 3],
}

impl View for WhipseeySaveData {
    type V = SaveV;

    open spec fn view(&self) -> SaveV {
        SaveV { options: self.options, files: self.files@ }
    }
}

impl WhipseeySaveData {
    /// Whether every counter of every slot is within bounds.
    pub open spec fn wf(self) -> bool {
        self.files@[0].wf() && self.files@[1].wf() && self.files@[2].wf()
    }
}

impl Default for WhipseeySaveData {
    fn default() -> (r: Self)
        ensures
            r@.options == spec_options_default(),
            r@.files =~= seq![spec_file_default(), spec_file_default(), spec_file_default()],
            r.wf(),
    {
        let f = File::default();
        WhipseeySaveData { options: Options::default(), files: [f, f, f] }
    }
}

/// The contents of the settings file: the cheats record alone.
#[derive(Clone, Copy, Debug, PartialEq, Eq, Structural)]
pub struct BfsSettings {
    pub cheats: Cheats,
}

impl Default for BfsSettings {
    fn default() -> (r: Self)
        ensures
            r == (BfsSettings {
                cheats: Cheats { cheats_enabled: cheats::CheatsEnabled::Disabled },
            }),
    {
        BfsSettings { cheats: Cheats { cheats_enabled: cheats::CheatsEnabled::Disabled } }
    }
}

/// What strict decoding of a whole save document yields: the `options`
/// section and the three slot sections, each required, in that order.
pub open spec fn spec_save_try_from(doc: Seq<SecV>) -> Result<SaveV, ErrV> {
    match doc_lookup_sec(doc, "options"@) {
        None => Err(ErrV::SectionMissing("options"@)),
        Some(osec) => match spec_options_try_from(osec) {
            Err(e) => Err(e),
            Ok(options) => match doc_lookup_sec(doc, "file1"@) {
                None => Err(ErrV::SectionMissing("file1"@)),
                Some(s1) => match spec_file_try_from(s1) {
                    Err(e) => Err(e),
                    Ok(f1) => match doc_lookup_sec(doc, "file2"@) {
                        None => Err(ErrV::SectionMissing("file2"@)),
                        Some(s2) => match spec_file_try_from(s2) {
                            Err(e) => Err(e),
                            Ok(f2) => match doc_lookup_sec(doc, "file3"@) {
                                None => Err(ErrV::SectionMissing("file3"@)),
                                Some(s3) => match spec_file_try_from(s3) {
                                    Err(e) => Err(e),
                                    Ok(f3) => Ok(
                                        SaveV { options, files: seq![f1, f2, f3] },
                                    ),
                                },
                            },
                        },
                    },
                },
            },
        },
    }
}

/// What lenient decoding of one save section yields when the section
/// itself is present, together with its diagnostics.
pub open spec fn spec_save_options_part(doc: Seq<SecV>) -> (Options, Seq<ErrV>) {
    match doc_lookup_sec(doc, "options"@) {
        Some(osec) => spec_options_from_props(osec),
        None => (spec_options_default(), seq![ErrV::SectionMissing("options"@)]),
    }
}

/// What lenient decoding of one slot section yields, together with its
/// diagnostics; an absent section reads as a fully default slot with one
/// diagnostic.
pub open spec fn spec_save_file_part(doc: Seq<SecV>, name: Seq<char>) -> (File, Seq<ErrV>) {
    match doc_lookup_sec(doc, name) {
        Some(sec) => spec_file_from_props(sec),
        None => (spec_file_default(), seq![ErrV::SectionMissing(name)]),
    }
}

/// What lenient decoding of a whole save document yields: an always-valid
/// save and the diagnostics of all four sections, in document order.
pub open spec fn spec_save_from_ini(doc: Seq<SecV>) -> (SaveV, Seq<ErrV>) {
    (
        SaveV {
            options: spec_save_options_part(doc).0,
            files: seq![
                spec_save_file_part(doc, "file1"@).0,
                spec_save_file_part(doc, "file2"@).0,
                spec_save_file_part(doc, "file3"@).0,
            ],
        },
        spec_save_options_part(doc).1 + spec_save_file_part(doc, "file1"@).1 + spec_save_file_part(
            doc,
            "file2"@,
        ).1 + spec_save_file_part(doc, "file3"@).1,
    )
}

/// The sections the engine stores for a whole save, in written order:
/// `options` first, then the three slots.
pub open spec fn spec_save_sections(s: SaveV) -> Seq<SecV> {
    seq![
        SecV { name: "options"@, entries: spec_options_entries(s.options) },
        SecV { name: "file1"@, entries: spec_file_entries(s.files[0]) },
        SecV { name: "file2"@, entries: spec_file_entries(s.files[1]) },
        SecV { name: "file3"@, entries: spec_file_entries(s.files[2]) },
    ]
}

impl WhipseeySaveData {
    /// Strict decode of a whole save document.
    pub fn try_from(doc: &Document) -> (r: Result<WhipseeySaveData, Error>)
        ensures
            match r {
                Ok(s) => spec_save_try_from(doc@) == Ok::<SaveV, ErrV>(s@) && s.wf(),
                Err(e) => spec_save_try_from(doc@) == Err::<SaveV, ErrV>(e@),
            },
    {
        let options = match doc.section("options") {
            None => {
                return Err(Error::SectionMissing("options".to_owned()));
            },
            Some(osec) => match Options::try_from(osec) {
                Ok(o) => o,
                Err(e) => {
                    return Err(e);
                },
            },
        };
        let f1 = match doc.section("file1") {
            None => {
                return Err(Error::SectionMissing("file1".to_owned()));
            },
            Some(sec) => match File::try_from(sec) {
                Ok(f) => f,
                Err(e) => {
                    return Err(e);
                },
            },
        };
        let f2 = match doc.section("file2") {
            None => {
                return Err(Error::SectionMissing("file2".to_owned()));
            },
            Some(sec) => match File::try_from(sec) {
                Ok(f) => f,
                Err(e) => {
                    return Err(e);
                },
            },
        };
        let f3 = match doc.section("file3") {
            None => {
                return Err(Error::SectionMissing("file3".to_owned()));
            },
            Some(sec) => match File::try_from(sec) {
                Ok(f) => f,
                Err(e) => {
                    return Err(e);
                },
            },
        };
        let save = WhipseeySaveData { options, files: [f1, f2, f3] };
        proof {
            assert(save@.files =~= seq![f1, f2, f3]);
        }
        Ok(save)
    }

    /// Lenient decode of a whole save document: a failed or absent section
    /// falls back to defaults, and every fault becomes one diagnostic.
    #[verifier::rlimit(100)]
    #[verifier::spinoff_prover]
    pub fn from_ini(doc: &Document) -> (r: (WhipseeySaveData, Vec<Error>))
        ensures
            r.0@ == spec_save_from_ini(doc@).0,
            errs_view(r.1@) == spec_save_from_ini(doc@).1,
            r.0.wf(),
    {
        let mut errors: Vec<Error> = Vec::new();
        let options = match doc.section("options") {
            Some(osec) => {
                let (o, mut errs) = Options::from_props_or_defaulted(osec);
                errors.append(&mut errs);
                o
            },
            None => {
                errors.push(Error::SectionMissing("options".to_owned()));
                Options::default()
            },
        };
        let ghost p1 = spec_save_options_part(doc@).1;
        proof {
            assert(errs_view(errors@) =~= p1);
        }
        let f1 = match doc.section("file1") {
            Some(sec) => {
                let (f, mut errs) = File::from_props_or_defaulted(sec);
                errors.append(&mut errs);
                f
            },
            None => {
                errors.push(Error::SectionMissing("file1".to_owned()));
                File::default()
            },
        };
        let ghost p2 = p1 + spec_save_file_part(doc@, "file1"@).1;
        proof {
            assert(errs_view(errors@) =~= p2);
        }
        let f2 = match doc.section("file2") {
            Some(sec) => {
                let (f, mut errs) = File::from_props_or_defaulted(sec);
                errors.append(&mut errs);
                f
            },
            None => {
                errors.push(Error::SectionMissing("file2".to_owned()));
                File::default()
            },
        };
        let ghost p3 = p2 + spec_save_file_part(doc@, "file2"@).1;
        proof {
            assert(errs_view(errors@) =~= p3);
        }
        let f3 = match doc.section("file3") {
            Some(sec) => {
                let (f, mut errs) = File::from_props_or_defaulted(sec);
                errors.append(&mut errs);
                f
            },
            None => {
                errors.push(Error::SectionMissing("file3".to_owned()));
                File::default()
            },
        };
        let ghost p4 = p3 + spec_save_file_part(doc@, "file3"@).1;
        proof {
            assert(errs_view(errors@) =~= p4);
            assert(p4 =~= spec_save_from_ini(doc@).1);
        }
        let save = WhipseeySaveData { options, files: [f1, f2, f3] };
        proof {
            assert(save@.files =~= spec_save_from_ini(doc@).0.files);
        }
        (save, errors)
    }

    /// The stored form of a whole save: its four sections in the order the
    /// engine writes them.
    pub fn into_ini(&self) -> (r: Document)
        requires
            self.wf(),
        ensures
            r@ == spec_save_sections(self@),
    {
        let mut doc = Document::new();
        let mut osec = self.options.into_properties();
        osec.set_name("options");
        doc.push_section(osec);
        let mut s1 = self.files[0].into_properties();
        s1.set_name("file1");
        doc.push_section(s1);
        let mut s2 = self.files[1].into_properties();
        s2.set_name("file2");
        doc.push_section(s2);
        let mut s3 = self.files[2].into_properties();
        s3.set_name("file3");
        doc.push_section(s3);
        proof {
            assert(doc@ =~= spec_save_sections(self@));
        }
        doc
    }
}

/// What strict decoding of a whole settings document yields.
pub open spec fn spec_bfs_try_from(doc: Seq<SecV>) -> Result<BfsSettings, ErrV> {
    match doc_lookup_sec(doc, "Cheats"@) {
        None => Err(ErrV::SectionMissing("Cheats"@)),
        Some(sec) => match spec_cheats_try_from(sec) {
            Err(e) => Err(e),
            Ok(cheats) => Ok(BfsSettings { cheats }),
        },
    }
}

/// What lenient decoding of a whole settings document yields.
pub open spec fn spec_bfs_from_ini(doc: Seq<SecV>) -> (BfsSettings, Seq<ErrV>) {
    match doc_lookup_sec(doc, "Cheats"@) {
        Some(sec) => (
            BfsSettings { cheats: spec_cheats_from_props(sec).0 },
            spec_cheats_from_props(sec).1,
        ),
        None => (
            BfsSettings { cheats: Cheats { cheats_enabled: cheats::CheatsEnabled::Disabled } },
            seq![ErrV::SectionMissing("Cheats"@)],
        ),
    }
}

/// The single section the engine stores for the settings file.
pub open spec fn spec_bfs_sections(s: BfsSettings) -> Seq<SecV> {
    seq![SecV { name: "Cheats"@, entries: spec_cheats_entries(s.cheats) }]
}

impl BfsSettings {
    /// Strict decode of a whole settings document.
    pub fn try_from(doc: &Document) -> (r: Result<BfsSettings, Error>)
        ensures
            res_view(r) == spec_bfs_try_from(doc@),
    {
        match doc.section("Cheats") {
            None => Err(Error::SectionMissing("Cheats".to_owned())),
            Some(sec) => match Cheats::try_from(sec) {
                Ok(cheats) => Ok(BfsSettings { cheats }),
                Err(e) => Err(e),
            },
        }
    }

    /// Lenient decode of a whole settings document.
    pub fn from_ini(doc: &Document) -> (r: (BfsSettings, Vec<Error>))
        ensures
            r.0 == spec_bfs_from_ini(doc@).0,
            errs_view(r.1@) == spec_bfs_from_ini(doc@).1,
    {
        match doc.section("Cheats") {
            Some(sec) => {
                let (cheats, errors) = Cheats::from_props_or_defaulted(sec);
                (BfsSettings { cheats }, errors)
            },
            None => {
                let mut errors: Vec<Error> = Vec::new();
                errors.push(Error::SectionMissing("Cheats".to_owned()));
                proof {
                    assert(errs_view(errors@) =~= spec_bfs_from_ini(doc@).1);
                }
                (BfsSettings::default(), errors)
            },
        }
    }

    /// The stored form of the settings: one section.
    pub fn into_ini(&self) -> (r: Document)
        ensures
            r@ == spec_bfs_sections(*self),
    {
        let mut doc = Document::new();
        let mut sec = self.cheats.into_properties();
        sec.set_name("Cheats");
        doc.push_section(sec);
        proof {
            assert(doc@ =~= spec_bfs_sections(*self));
        }
        doc
    }
}

/// Strict decoding reads back exactly the save that encoding stored: the
/// round trip of the whole save document, for every in-bounds save.
#[verifier::rlimit(100)]
#[verifier::spinoff_prover]
pub proof fn lemma_save_roundtrip(s: SaveV, doc: Seq<SecV>)
    requires
        s.files.len() == 3,
        s.files[0].wf() && s.files[1].wf() && s.files[2].wf(),
        doc == spec_save_sections(s),
    ensures
        spec_save_try_from(doc) == Ok::<SaveV, ErrV>(s),
{
    reveal_strlit("options");
    reveal_strlit("file1");
    reveal_strlit("file2");
    reveal_strlit("file3");
    reveal_with_fuel(doc_lookup_sec, 6);
    assert("options"@.len() == 7);
    assert("file1"@.len() == 5);
    assert("file2"@.len() == 5);
    assert("file3"@.len() == 5);
    assert("file1"@ != "file2"@) by {
        assert("file1"@[4] != "file2"@[4]);
    }
    assert("file1"@ != "file3"@) by {
        assert("file1"@[4] != "file3"@[4]);
    }
    assert("file2"@ != "file3"@) by {
        assert("file2"@[4] != "file3"@[4]);
    }
    lemma_options_roundtrip(s.options, doc[0]);
    lemma_file_roundtrip(s.files[0], doc[1]);
    lemma_file_roundtrip(s.files[1], doc[2]);
    lemma_file_roundtrip(s.files[2], doc[3]);
    assert(seq![s.files[0], s.files[1], s.files[2]] =~= s.files);
}

/// Strict decoding reads back exactly the settings that encoding stored.
pub proof fn lemma_bfs_roundtrip(s: BfsSettings, doc: Seq<SecV>)
    requires
        doc == spec_bfs_sections(s),
    ensures
        spec_bfs_try_from(doc) == Ok::<BfsSettings, ErrV>(s),
{
    reveal_with_fuel(doc_lookup_sec, 3);
    lemma_cheats_roundtrip(s.cheats, doc[0]);
}

} // verus!
