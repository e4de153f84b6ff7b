//! Numbers with a unit suffix, as the retention limits are given: `1.5d`,
//! `2.5GB`.
//!
//! The ASCII letters of the text form the unit, case-insensitively; the other
//! characters form the number: an optional sign, decimal digits with at most
//! one point, and surrounding ASCII whitespace. The value is computed exactly
//! and rounded to the nearest whole unit of the result, halves up. A number
//! that, scaled by its unit, does not fit in 128 bits is too large.

use vstd::prelude::*;

verus! {

/// Why a number with a unit could not be read.
#[derive(Debug, Clone, Copy, PartialEq, Eq, Structural)]
pub enum UnitError {
    /// The number is not a decimal number.
    InvalidNumber,
    /// The number is below zero.
    Negative,
    /// The unit is not one of the accepted units.
    InvalidUnit,
    /// The value does not fit.
    TooLarge,
}

/// Where a reading of a decimal number stands.
#[derive(Debug, Clone, Copy, PartialEq, Eq, Structural)]
pub enum Phase {
    /// Only whitespace so far.
    Lead,
    /// A sign, and no digit yet.
    Sign,
    /// Digits before a point.
    Int,
    /// A point, and no digit yet.
    Dot,
    /// A point, with digits before or after it.
    Frac,
    /// Whitespace after a number.
    Trail,
    /// Not a number.
    Bad,
}

pub open spec fn is_letter(c: char) -> bool {
    ('a' <= c && c <= 'z') || ('A' <= c && c <= 'Z')
}

pub open spec fn is_digit(c: char) -> bool {
    '0' <= c && c <= '9'
}

pub open spec fn is_space(c: char) -> bool {
    c == ' ' || c == '\t' || c == '\n' || c == '\r' || c == '\x0B' || c == '\x0C'
}

/// `c` is the letter `upper`, in either case.
pub open spec fn letter_is(c: char, upper: char) -> bool {
    c == upper || c as u32 == upper as u32 + 32
}

/// The unit of `s`: its letters.
pub open spec fn unit_of(s: Seq<char>) -> Seq<char>
    decreases s.len(),
{
    if s.len() == 0 {
        s
    } else if is_letter(s.last()) {
        unit_of(s.drop_last()).push(s.last())
    } else {
        unit_of(s.drop_last())
    }
}

/// The number of `s`: all that is not a letter.
pub open spec fn number_of(s: Seq<char>) -> Seq<char>
    decreases s.len(),
{
    if s.len() == 0 {
        s
    } else if is_letter(s.last()) {
        number_of(s.drop_last())
    } else {
        number_of(s.drop_last()).push(s.last())
    }
}

/// The phase after reading `c` in phase `p`.
pub open spec fn next_phase(p: Phase, c: char) -> Phase {
    if is_digit(c) {
        match p {
            Phase::Lead | Phase::Sign | Phase::Int => Phase::Int,
            Phase::Dot | Phase::Frac => Phase::Frac,
            _ => Phase::Bad,
        }
    } else if c == '.' {
        match p {
            Phase::Lead | Phase::Sign => Phase::Dot,
            Phase::Int => Phase::Frac,
            _ => Phase::Bad,
        }
    } else if c == '+' || c == '-' {
        match p {
            Phase::Lead => Phase::Sign,
            _ => Phase::Bad,
        }
    } else if is_space(c) {
        match p {
            Phase::Lead => Phase::Lead,
            Phase::Int | Phase::Frac | Phase::Trail => Phase::Trail,
            _ => Phase::Bad,
        }
    } else {
        Phase::Bad
    }
}

/// A decimal number as read: its phase, its sign, and its value
/// `mantissa / 10^scale`.
pub struct Decimal {
    pub phase: Phase,
    pub negative: bool,
    pub mantissa: nat,
    pub scale: nat,
}

/// The reading of `t`.
pub open spec fn read_decimal(t: Seq<char>) -> Decimal
    decreases t.len(),
{
    if t.len() == 0 {
        Decimal { phase: Phase::Lead, negative: false, mantissa: 0, scale: 0 }
    } else {
        let r = read_decimal(t.drop_last());
        let c = t.last();
        Decimal {
            phase: next_phase(r.phase, c),
            negative: r.negative || (r.phase == Phase::Lead && c == '-'),
            mantissa: if is_digit(c) {
                r.mantissa * 10 + (c as int - '0' as int) as nat
            } else {
                r.mantissa
            },
            scale: if is_digit(c) && (r.phase == Phase::Dot || r.phase == Phase::Frac) {
                r.scale + 1
            } else {
                r.scale
            },
        }
    }
}

/// A complete decimal number was read.
pub open spec fn accepted(p: Phase) -> bool {
    p == Phase::Int || p == Phase::Frac || p == Phase::Trail
}

pub open spec fn pow10(k: nat) -> nat
    decreases k,
{
    if k == 0 {
        1
    } else {
        10 * pow10((k - 1) as nat)
    }
}

/// `mantissa / 10^scale` units of `unit`, rounded to the nearest whole, halves up.
pub open spec fn scaled(mantissa: nat, scale: nat, unit: nat) -> nat {
    (mantissa * unit + pow10(scale) / 2) / pow10(scale)
}

/// The computation of [`scaled`] stays within 128 bits.
pub open spec fn fits_u128(mantissa: nat, scale: nat, unit: nat) -> bool {
    pow10(scale) <= u128::MAX && mantissa * unit + pow10(scale) / 2 <= u128::MAX
}

/// The bytes of a size unit, in either case: `M`/`MB`, `G`/`GB`, `T`/`TB`,
/// binary.
pub open spec fn size_unit(u: Seq<char>) -> Option<nat> {
    if u.len() == 1 || (u.len() == 2 && letter_is(u[1], 'B')) {
        if letter_is(u[0], 'M') {
            Some(0x10_0000)
        } else if letter_is(u[0], 'G') {
            Some(0x4000_0000)
        } else if letter_is(u[0], 'T') {
            Some(0x100_0000_0000)
        } else {
            None
        }
    } else {
        None
    }
}

/// The nanoseconds of a duration unit, in either case: `H` hours, `D` days,
/// `W` weeks.
pub open spec fn duration_unit(u: Seq<char>) -> Option<nat> {
    if u.len() != 1 {
        None
    } else if letter_is(u[0], 'H') {
        Some(3_600_000_000_000)
    } else if letter_is(u[0], 'D') {
        Some(86_400_000_000_000)
    } else if letter_is(u[0], 'W') {
        Some(604_800_000_000_000)
    } else {
        None
    }
}

/// The result of reading `s` with the units of `unit`, up to `limit`.
pub open spec fn read_with_unit(s: Seq<char>, unit: Option<nat>, limit: nat) -> Result<
    nat,
    UnitError,
> {
    let d = read_decimal(number_of(s));
    if !accepted(d.phase) {
        Err(UnitError::InvalidNumber)
    } else if d.mantissa > u128::MAX {
        Err(UnitError::TooLarge)
    } else if d.negative && d.mantissa > 0 {
        Err(UnitError::Negative)
    } else {
        match unit {
            None => Err(UnitError::InvalidUnit),
            Some(u) => if fits_u128(d.mantissa, d.scale, u) && scaled(d.mantissa, d.scale, u)
                <= limit {
                Ok(scaled(d.mantissa, d.scale, u))
            } else {
                Err(UnitError::TooLarge)
            },
        }
    }
}

/// The number and the unit of a text, as read.
pub struct SuffixedNumber {
    /// The sign: `true` for a number below zero.
    pub negative: bool,
    /// The digits of the number, as one integer.
    pub mantissa: u128,
    /// How many of the digits follow the point.
    pub scale: usize,
    /// The letters of the unit.
    pub unit: Vec<char>,
}

/// Reads one more character `c` after the number text `t`; the mantissa is
/// tracked until it no longer fits in 128 bits.
fn step_decimal(
    phase: Phase,
    negative: bool,
    mantissa: u128,
    scale: usize,
    overflow: bool,
    c: char,
    t: Ghost<Seq<char>>,
) -> (r: (Phase, bool, u128, usize, bool))
    requires
        read_decimal(t@).phase == phase,
        read_decimal(t@).negative == negative,
        read_decimal(t@).scale == scale,
        scale <= t@.len(),
        t@.len() < usize::MAX,
        !overflow ==> read_decimal(t@).mantissa == mantissa,
        overflow ==> read_decimal(t@).mantissa > u128::MAX,
    ensures
        read_decimal(t@.push(c)).phase == r.0,
        read_decimal(t@.push(c)).negative == r.1,
        read_decimal(t@.push(c)).scale == r.3,
        r.3 <= t@.len() + 1,
        !r.4 ==> read_decimal(t@.push(c)).mantissa == r.2,
        r.4 ==> read_decimal(t@.push(c)).mantissa > u128::MAX,
{
    proof {
        assert(t@.push(c).drop_last() =~= t@);
    }
    let digit = '0' <= c && c <= '9';
    let next = if digit {
        match phase {
            Phase::Lead | Phase::Sign | Phase::Int => Phase::Int,
            Phase::Dot | Phase::Frac => Phase::Frac,
            _ => Phase::Bad,
        }
    } else if c == '.' {
        match phase {
            Phase::Lead | Phase::Sign => Phase::Dot,
            Phase::Int => Phase::Frac,
            _ => Phase::Bad,
        }
    } else if c == '+' || c == '-' {
        match phase {
            Phase::Lead => Phase::Sign,
            _ => Phase::Bad,
        }
    } else if c == ' ' || c == '\t' || c == '\n' || c == '\r' || c == '\x0B' || c == '\x0C' {
        match phase {
            Phase::Lead => Phase::Lead,
            Phase::Int | Phase::Frac | Phase::Trail => Phase::Trail,
            _ => Phase::Bad,
        }
    } else {
        Phase::Bad
    };
    let negative2 = negative || (phase == Phase::Lead && c == '-');
    let scale2 = if digit && (phase == Phase::Dot || phase == Phase::Frac) {
        scale + 1
    } else {
        scale
    };
    let mut mantissa2 = mantissa;
    let mut overflow2 = overflow;
    if digit && !overflow {
        let d = ((c as u32) - ('0' as u32)) as u128;
        match mantissa.checked_mul(10) {
            Some(m) => match m.checked_add(d) {
                Some(m2) => {
                    mantissa2 = m2;
                },
                None => {
                    overflow2 = true;
                },
            },
            None => {
                overflow2 = true;
            },
        }
    }
    (next, negative2, mantissa2, scale2, overflow2)
}

/// Reads the number and the unit of `s`.
///
/// Fails with [`UnitError::InvalidNumber`] where the characters that are not
/// letters are no decimal number, and with [`UnitError::TooLarge`] where its
/// digits do not fit in 128 bits.
pub fn parse_suffixed_num(s: &str) -> (r: Result<SuffixedNumber, UnitError>)
    ensures
        !accepted(read_decimal(number_of(s@)).phase) ==> r == Err::<SuffixedNumber, UnitError>(
            UnitError::InvalidNumber,
        ),
        accepted(read_decimal(number_of(s@)).phase) && read_decimal(number_of(s@)).mantissa
            > u128::MAX ==> r == Err::<SuffixedNumber, UnitError>(UnitError::TooLarge),
        accepted(read_decimal(number_of(s@)).phase) && read_decimal(number_of(s@)).mantissa
            <= u128::MAX ==> r is Ok && r->Ok_0.negative == read_decimal(number_of(s@)).negative
            && r->Ok_0.mantissa == read_decimal(number_of(s@)).mantissa && r->Ok_0.scale
            == read_decimal(number_of(s@)).scale && r->Ok_0.unit@ == unit_of(s@),
{
    let n = s.unicode_len();
    let mut unit: Vec<char> = Vec::new();
    let mut phase = Phase::Lead;
    let mut negative = false;
    let mut mantissa: u128 = 0;
    let mut scale: usize = 0;
    let mut overflow = false;
    let mut i: usize = 0;
    while i < n
        invariant
            n == s@.len(),
            i <= n,
            unit@ == unit_of(s@.take(i as int)),
            read_decimal(number_of(s@.take(i as int))).phase == phase,
            read_decimal(number_of(s@.take(i as int))).negative == negative,
            read_decimal(number_of(s@.take(i as int))).scale == scale,
            scale <= number_of(s@.take(i as int)).len(),
            number_of(s@.take(i as int)).len() <= i,
            !overflow ==> read_decimal(number_of(s@.take(i as int))).mantissa == mantissa,
            overflow ==> read_decimal(number_of(s@.take(i as int))).mantissa > u128::MAX,
        decreases n - i,
    {
        let c = s.get_char(i);
        proof {
            assert(s@.take(i + 1).drop_last() =~= s@.take(i as int));
            assert(s@.take(i + 1).last() == c);
        }
        if ('a' <= c && c <= 'z') || ('A' <= c && c <= 'Z') {
            unit.push(c);
        } else {
            let ghost t = number_of(s@.take(i as int));
            let r = step_decimal(phase, negative, mantissa, scale, overflow, c, Ghost(t));
            phase = r.0;
            negative = r.1;
            mantissa = r.2;
            scale = r.3;
            overflow = r.4;
        }
        i = i + 1;
    }
    proof {
        assert(s@.take(n as int) =~= s@);
    }
    if phase != Phase::Int && phase != Phase::Frac && phase != Phase::Trail {
        return Err(UnitError::InvalidNumber);
    }
    if overflow {
        return Err(UnitError::TooLarge);
    }
    Ok(SuffixedNumber { negative, mantissa, scale, unit })
}

proof fn lemma_pow10_grows(j: nat, k: nat)
    requires
        j <= k,
    ensures
        pow10(j) <= pow10(k),
        pow10(k) >= 1,
    decreases k,
{
    if k > 0 {
        if j < k {
            lemma_pow10_grows(j, (k - 1) as nat);
        }
        lemma_pow10_grows(0, (k - 1) as nat);
    }
}

/// `mantissa / 10^scale` units of `unit`, rounded, where that computation fits
/// in 128 bits.
fn scale_to_unit(mantissa: u128, scale: usize, unit: u128) -> (r: Option<u128>)
    ensures
        fits_u128(mantissa as nat, scale as nat, unit as nat) ==> r == Some(
            scaled(mantissa as nat, scale as nat, unit as nat) as u128,
        ),
        fits_u128(mantissa as nat, scale as nat, unit as nat) ==> scaled(
            mantissa as nat,
            scale as nat,
            unit as nat,
        ) <= u128::MAX,
        !fits_u128(mantissa as nat, scale as nat, unit as nat) ==> r is None,
{
    let mut p: u128 = 1;
    let mut i: usize = 0;
    while i < scale
        invariant
            i <= scale,
            p == pow10(i as nat),
        decreases scale - i,
    {
        match p.checked_mul(10) {
            Some(q) => {
                p = q;
            },
            None => {
                proof {
                    lemma_pow10_grows((i + 1) as nat, scale as nat);
                }
                return None;
            },
        }
        i = i + 1;
    }
    proof {
        lemma_pow10_grows(0, scale as nat);
    }
    let total = match mantissa.checked_mul(unit) {
        Some(t) => t,
        None => {
            return None;
        },
    };
    match total.checked_add(p / 2) {
        Some(t) => {
            let v = t / p;
            assert(v <= t) by (nonlinear_arith)
                requires
                    p >= 1,
                    v == t / p,
            ;
            Some(v)
        },
        None => None,
    }
}

fn is_letter_exec(c: char, upper: char, lower: char) -> (r: bool)
    requires
        lower as u32 == upper as u32 + 32,
    ensures
        r == letter_is(c, upper),
{
    c == upper || c == lower
}

/// The bytes of the size unit `u`.
fn size_unit_bytes(u: &Vec<char>) -> (r: Option<u128>)
    ensures
        match size_unit(u@) {
            Some(b) => r == Some(b as u128),
            None => r is None,
        },
{
    let n = u.len();
    if !(n == 1 || (n == 2 && is_letter_exec(u[1], 'B', 'b'))) {
        return None;
    }
    let c = u[0];
    if is_letter_exec(c, 'M', 'm') {
        Some(0x10_0000)
    } else if is_letter_exec(c, 'G', 'g') {
        Some(0x4000_0000)
    } else if is_letter_exec(c, 'T', 't') {
        Some(0x100_0000_0000)
    } else {
        None
    }
}

/// The nanoseconds of the duration unit `u`.
fn duration_unit_nanos(u: &Vec<char>) -> (r: Option<u128>)
    ensures
        match duration_unit(u@) {
            Some(b) => r == Some(b as u128),
            None => r is None,
        },
{
    if u.len() != 1 {
        return None;
    }
    let c = u[0];
    if is_letter_exec(c, 'H', 'h') {
        Some(3_600_000_000_000)
    } else if is_letter_exec(c, 'D', 'd') {
        Some(86_400_000_000_000)
    } else if is_letter_exec(c, 'W', 'w') {
        Some(604_800_000_000_000)
    } else {
        None
    }
}

/// Reads a size in bytes, such as `2.5G`: `M`/`MB`, `G`/`GB`, `T`/`TB` are
/// binary units, 1G being 1024^3 bytes.
pub fn parse_size(s: &str) -> (r: Result<u64, UnitError>)
    ensures
        match read_with_unit(s@, size_unit(unit_of(s@)), u64::MAX as nat) {
            Ok(v) => r == Ok::<u64, UnitError>(v as u64),
            Err(e) => r == Err::<u64, UnitError>(e),
        },
{
    let n = match parse_suffixed_num(s) {
        Ok(n) => n,
        Err(e) => {
            return Err(e);
        },
    };
    if n.negative && n.mantissa > 0 {
        return Err(UnitError::Negative);
    }
    let unit = match size_unit_bytes(&n.unit) {
        Some(u) => u,
        None => {
            return Err(UnitError::InvalidUnit);
        },
    };
    match scale_to_unit(n.mantissa, n.scale, unit) {
        Some(v) => if v <= u64::MAX as u128 {
            Ok(v as u64)
        } else {
            Err(UnitError::TooLarge)
        },
        None => Err(UnitError::TooLarge),
    }
}

/// Reads a duration in nanoseconds, such as `1.5d`: `H` hours, `D` days, `W`
/// weeks.
pub fn parse_duration(s: &str) -> (r: Result<u128, UnitError>)
    ensures
        match read_with_unit(s@, duration_unit(unit_of(s@)), u128::MAX as nat) {
            Ok(v) => r == Ok::<u128, UnitError>(v as u128),
            Err(e) => r == Err::<u128, UnitError>(e),
        },
{
    let n = match parse_suffixed_num(s) {
        Ok(n) => n,
        Err(e) => {
            return Err(e);
        },
    };
    if n.negative && n.mantissa > 0 {
        return Err(UnitError::Negative);
    }
    let unit = match duration_unit_nanos(&n.unit) {
        Some(u) => u,
        None => {
            return Err(UnitError::InvalidUnit);
        },
    };
    match scale_to_unit(n.mantissa, n.scale, unit) {
        Some(v) => Ok(v),
        None => Err(UnitError::TooLarge),
    }
}

} // verus!
