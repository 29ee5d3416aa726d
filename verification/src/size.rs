//! Sizes as people write them: a decimal number with an optional binary
//! unit, such as `512M` or `64kb`.

use vstd::prelude::*;
use crate::text::{
    all_digits, chars_of, decimal_value, digit_run, is_digit, is_letter, is_white_space,
    lemma_digit_run_holds_digits, parse_digits, text_of, to_upper, trim_bounds, trim_end,
    trim_start, trimmed, upper,
};

verus! {

/// Why a text is no size.
#[derive(Clone, Copy, Debug, PartialEq, Eq, Structural)]
pub enum SizeError {
    /// The text does not start with a number that fits 64 bits.
    InvalidNumber,
    /// What follows the number is none of the units.
    UnsupportedSuffix,
    /// The number of bytes does not fit 64 bits.
    TooLarge,
}

pub const KIB: u64 = 1024;

pub const MIB: u64 = 1024 * 1024;

pub const GIB: u64 = 1024 * 1024 * 1024;

/// The number of bytes that the unit `suffix` stands for. The units are
/// `K`, `M` and `G`, each with or without a `B` behind it, in either case of
/// letters; no unit stands for one byte.
pub open spec fn unit_multiplier(suffix: Seq<char>) -> Option<nat> {
    let u = upper(suffix);
    if u == Seq::<char>::empty() {
        Some(1)
    } else if u == seq!['K'] || u == seq!['K', 'B'] {
        Some(KIB as nat)
    } else if u == seq!['M'] || u == seq!['M', 'B'] {
        Some(MIB as nat)
    } else if u == seq!['G'] || u == seq!['G', 'B'] {
        Some(GIB as nat)
    } else {
        None
    }
}

/// The size that `s` denotes. White space around the text is passed over.
/// What is left must be one or more digits and then a unit, with nothing
/// between or behind them: the size is the number times the unit.
pub open spec fn size_of(s: Seq<char>) -> Result<nat, SizeError> {
    let t = trimmed(s);
    let n = digit_run(t) as int;
    let number = decimal_value(t.take(n));
    if n == 0 || number > u64::MAX {
        Err(SizeError::InvalidNumber)
    } else {
        match unit_multiplier(t.skip(n)) {
            None => Err(SizeError::UnsupportedSuffix),
            Some(m) => if number * m > u64::MAX {
                Err(SizeError::TooLarge)
            } else {
                Ok(number * m)
            },
        }
    }
}

/// Whether `s` has the shape of a size: digits and a unit, and nothing but
/// white space around them.
pub open spec fn well_formed(s: Seq<char>) -> bool {
    exists|digits: Seq<char>, unit: Seq<char>|
        #![trigger digits + unit]
        trimmed(s) == digits + unit && digits.len() > 0 && all_digits(digits)
            && unit_multiplier(unit) is Some
}

/// The multiplier of the unit that `t` holds from `start` on.
fn unit_of(t: &Vec<char>, start: usize) -> (r: Option<u64>)
    requires
        start <= t@.len(),
    ensures
        r is Some <==> unit_multiplier(t@.skip(start as int)) is Some,
        r matches Some(m) ==> unit_multiplier(t@.skip(start as int)) == Some(m as nat),
{
    let ghost u = upper(t@.skip(start as int));
    let n = t.len() - start;
    if n == 0 {
        assert(u =~= Seq::<char>::empty());
        return Some(1);
    }
    if n > 2 {
        assert(u.len() == n);
        return None;
    }
    let first = t[start];
    assert(u[0] == to_upper(first));
    let m: u64 = if is_letter(first, 'K') {
        KIB
    } else if is_letter(first, 'M') {
        MIB
    } else if is_letter(first, 'G') {
        GIB
    } else {
        assert(u != seq!['K'] && u != seq!['K', 'B'] && u != seq!['M'] && u != seq!['M', 'B'] && u
            != seq!['G'] && u != seq!['G', 'B']) by {
            assert(seq!['K'][0] == 'K' && seq!['K', 'B'][0] == 'K');
            assert(seq!['M'][0] == 'M' && seq!['M', 'B'][0] == 'M');
            assert(seq!['G'][0] == 'G' && seq!['G', 'B'][0] == 'G');
        }
        return None;
    };
    let ghost letter = to_upper(first);
    if n == 1 {
        assert(u =~= seq![letter]);
        assert(u.len() != seq!['K', 'B'].len());
        Some(m)
    } else {
        let second = t[start + 1];
        assert(u[1] == to_upper(second));
        if is_letter(second, 'B') {
            assert(u =~= seq![letter, 'B']);
            Some(m)
        } else {
            assert(u != seq!['K', 'B'] && u != seq!['M', 'B'] && u != seq!['G', 'B']) by {
                assert(seq!['K', 'B'][1] == 'B');
                assert(seq!['M', 'B'][1] == 'B');
                assert(seq!['G', 'B'][1] == 'B');
            }
            assert(u.len() != seq!['K'].len());
            None
        }
    }
}

/// Reads a size, or says why `s` is none.
pub fn try_parse_size(s: &str) -> (r: Result<u64, SizeError>)
    ensures
        r is Ok <==> size_of(s@) is Ok,
        r matches Ok(n) ==> size_of(s@) == Ok::<nat, SizeError>(n as nat),
        r matches Err(e) ==> size_of(s@) == Err::<nat, SizeError>(e),
{
    let v = chars_of(s);
    let (a, b) = trim_bounds(&v);
    let t = chars_of(text_of(&v, a, b).as_str());
    let (end, number) = parse_digits(&t, 0, u64::MAX);
    proof {
        assert(t@ == trimmed(s@));
        assert(t@.skip(0) == t@);
        assert(t@.subrange(0, end as int) == t@.take(end as int));
    }
    if end == 0 {
        return Err(SizeError::InvalidNumber);
    }
    match number {
        None => Err(SizeError::InvalidNumber),
        Some(n) => match unit_of(&t, end) {
            None => Err(SizeError::UnsupportedSuffix),
            Some(m) => match n.checked_mul(m) {
                None => Err(SizeError::TooLarge),
                Some(bytes) => Ok(bytes),
            },
        },
    }
}

/// Reads a size from a text that denotes one.
pub fn parse_size(s: &str) -> (n: u64)
    requires
        size_of(s@) is Ok,
    ensures
        size_of(s@) == Ok::<nat, SizeError>(n as nat),
{
    match try_parse_size(s) {
        Ok(n) => n,
        Err(_) => 0,
    }
}

/// A unit has at most two characters, all of them ASCII letters.
pub proof fn lemma_unit_is_letters(unit: Seq<char>)
    requires
        unit_multiplier(unit) is Some,
    ensures
        unit.len() <= 2,
        forall|i: int|
            0 <= i < unit.len() ==> 'A' <= to_upper(#[trigger] unit[i]) <= 'Z' && !is_digit(
                unit[i],
            ) && !is_white_space(unit[i]),
{
    let u = upper(unit);
    assert(seq!['K'].len() == 1 && seq!['M'].len() == 1 && seq!['G'].len() == 1);
    assert(seq!['K', 'B'].len() == 2 && seq!['M', 'B'].len() == 2 && seq!['G', 'B'].len() == 2);
    assert(seq!['K'][0] == 'K' && seq!['M'][0] == 'M' && seq!['G'][0] == 'G');
    assert(seq!['K', 'B'][0] == 'K' && seq!['M', 'B'][0] == 'M' && seq!['G', 'B'][0] == 'G');
    assert(seq!['K', 'B'][1] == 'B' && seq!['M', 'B'][1] == 'B' && seq!['G', 'B'][1] == 'B');
    assert forall|i: int| 0 <= i < unit.len() implies 'A' <= to_upper(#[trigger] unit[i]) <= 'Z'
        && !is_digit(unit[i]) && !is_white_space(unit[i]) by {
        assert(u[i] == to_upper(unit[i]));
    }
}

/// Digits followed by a text that starts with no digit form a run of
/// exactly those digits.
pub proof fn lemma_digit_run_of_prefix(digits: Seq<char>, rest: Seq<char>)
    requires
        all_digits(digits),
        rest.len() == 0 || !is_digit(rest[0]),
    ensures
        digit_run(digits + rest) == digits.len(),
    decreases digits.len(),
{
    if digits.len() > 0 {
        assert((digits + rest).drop_first() == digits.drop_first() + rest);
        assert((digits + rest).first() == digits[0]);
        assert forall|i: int| 0 <= i < digits.drop_first().len() implies is_digit(
            #[trigger] digits.drop_first()[i],
        ) by {
            assert(digits.drop_first()[i] == digits[i + 1]);
        }
        lemma_digit_run_of_prefix(digits.drop_first(), rest);
    } else {
        assert(digits + rest == rest);
    }
}

/// Digits and a unit denote the number times the unit. Every text made
/// of one or more digits followed by `K`, `M` or `G`, with or without `B`, in
/// either case, or by nothing, is a size, as long as the number and the
/// product fit 64 bits.
pub proof fn lemma_size_of_number_and_unit(digits: Seq<char>, unit: Seq<char>)
    requires
        digits.len() > 0,
        all_digits(digits),
        unit_multiplier(unit) is Some,
    ensures
        size_of(digits + unit) == (if decimal_value(digits) > u64::MAX {
            Err::<nat, SizeError>(SizeError::InvalidNumber)
        } else if decimal_value(digits) * unit_multiplier(unit)->0 > u64::MAX {
            Err::<nat, SizeError>(SizeError::TooLarge)
        } else {
            Ok::<nat, SizeError>(decimal_value(digits) * unit_multiplier(unit)->0)
        }),
{
    let s = digits + unit;
    lemma_unit_is_letters(unit);
    assert(s.first() == digits[0]);
    assert(trim_start(s) == s);
    if unit.len() == 0 {
        assert(s.last() == digits[digits.len() - 1]);
    } else {
        assert(s.last() == unit[unit.len() - 1]);
    }
    assert(trim_end(s) == s);
    lemma_digit_run_of_prefix(digits, unit);
    assert(s.take(digits.len() as int) == digits);
    assert(s.skip(digits.len() as int) == unit);
}

/// A text that has not the shape of a size is rejected.
pub proof fn lemma_malformed_is_rejected(s: Seq<char>)
    requires
        !well_formed(s),
    ensures
        size_of(s) is Err,
{
    if size_of(s) is Ok {
        let t = trimmed(s);
        let n = digit_run(t) as int;
        lemma_digit_run_holds_digits(t);
        assert(t == t.take(n) + t.skip(n));
        assert(well_formed(s));
    }
}

} // verus!
