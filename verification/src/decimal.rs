//! Fixed-point decimal text: parsing `[-]digits[.digits]` into integer ticks
//! at a given scale, and rendering ticks back as decimal text.
use crate::num::abs_int;
use crate::text::{dec_chars, u64_to_dec, utf8};
use vstd::string::*;
use vstd::prelude::*;

verus! {

pub open spec fn is_digit(b: u8) -> bool {
    48 <= b && b <= 57
}

pub open spec fn all_digits(s: Seq<u8>) -> bool {
    forall|i: int| 0 <= i < s.len() ==> is_digit(#[trigger] s[i])
}

/// The natural number written by a string of decimal digits.
pub open spec fn digits_value(s: Seq<u8>) -> nat
    decreases s.len(),
{
    if s.len() == 0 {
        0
    } else {
        digits_value(s.drop_last()) * 10 + (s.last() - 48) as nat
    }
}

pub open spec fn pow10(n: nat) -> nat
    decreases n,
{
    if n == 0 {
        1
    } else {
        10 * pow10((n - 1) as nat)
    }
}

/// Index of the first `.` in `s`, or its length when there is none.
pub open spec fn first_dot(s: Seq<u8>) -> int
    decreases s.len(),
{
    if s.len() == 0 {
        0
    } else if s[0] == 46 {
        0
    } else {
        1 + first_dot(s.drop_first())
    }
}

/// `s` without a leading `-`, and whether it had one.
pub open spec fn strip_minus(s: Seq<u8>) -> (bool, Seq<u8>) {
    if s.len() > 0 && s[0] == 45 {
        (true, s.drop_first())
    } else {
        (false, s)
    }
}

/// The part before the first `.`.
pub open spec fn whole_part(s: Seq<u8>) -> Seq<u8> {
    s.subrange(0, first_dot(s))
}

/// The part after the first `.` (empty when there is no `.`).
pub open spec fn fraction_part(s: Seq<u8>) -> Seq<u8> {
    if first_dot(s) < s.len() {
        s.subrange(first_dot(s) + 1, s.len() as int)
    } else {
        Seq::empty()
    }
}

/// The magnitude in ticks of `whole.fraction` at `scale` decimal places.
pub open spec fn scaled_magnitude(whole: Seq<u8>, fraction: Seq<u8>, scale: nat) -> int {
    (digits_value(whole) * pow10(scale) + digits_value(fraction) * pow10(
        (scale - fraction.len()) as nat,
    )) as int
}

pub open spec fn in_i64(v: int) -> bool {
    i64::MIN <= v <= i64::MAX
}

/// Strict signed fixed-point parse: `[-]digits[.digits]` with a non-empty
/// whole part and at most `scale` fraction digits, whose value at `scale`
/// fits an `i64`; `scale` must keep `10^scale` within `i128`.
pub open spec fn parse_ticks_spec(value: Seq<char>, scale: nat) -> Option<i64> {
    let (negative, unsigned) = strip_minus(utf8(value));
    let whole = whole_part(unsigned);
    let fraction = fraction_part(unsigned);
    let magnitude = scaled_magnitude(whole, fraction, scale);
    let signed = if negative { -magnitude } else { magnitude };
    if whole.len() > 0 && all_digits(whole) && all_digits(fraction) && fraction.len() <= scale
        && scale <= 38 && in_i64(signed) {
        Some(signed as i64)
    } else {
        None
    }
}

pub proof fn lemma_pow10_positive(n: nat)
    ensures
        pow10(n) >= 1,
    decreases n,
{
    if n > 0 {
        lemma_pow10_positive((n - 1) as nat);
    }
}

pub proof fn lemma_digits_value_bound(s: Seq<u8>)
    requires
        all_digits(s),
    ensures
        digits_value(s) < pow10(s.len()),
    decreases s.len(),
{
    if s.len() > 0 {
        lemma_digits_value_bound(s.drop_last());
    }
}

proof fn lemma_digits_push(s: Seq<u8>, i: int)
    requires
        0 <= i < s.len(),
    ensures
        digits_value(s.subrange(0, i + 1)) == digits_value(s.subrange(0, i)) * 10 + (s[i] - 48) as nat,
{
    assert(s.subrange(0, i + 1).drop_last() =~= s.subrange(0, i));
}

proof fn lemma_first_dot(s: Seq<u8>, k: int)
    requires
        0 <= k <= s.len(),
        forall|j: int| 0 <= j < k ==> s[j] != 46,
        k == s.len() || s[k] == 46,
    ensures
        first_dot(s) == k,
    decreases s.len(),
{
    if s.len() > 0 && k > 0 {
        assert forall|j: int| 0 <= j < k - 1 implies s.drop_first()[j] != 46 by {
            assert(s.drop_first()[j] == s[j + 1]);
        }
        lemma_first_dot(s.drop_first(), k - 1);
    }
}

/// Value of the digits `b[lo..hi]`, or `None` when one is not a digit or the
/// value exceeds `bound`.
pub fn parse_digits(b: &[u8], lo: usize, hi: usize, bound: u128) -> (r: Option<u128>)
    requires
        lo <= hi <= b@.len(),
        bound <= 0xFFFF_FFFF_FFFF_FFFF_FFFF_FFFF,
    ensures
        r matches Some(v) ==> all_digits(b@.subrange(lo as int, hi as int)) && v == digits_value(b@.subrange(lo as int, hi as int)) && v <= bound,
        r is None ==> !all_digits(b@.subrange(lo as int, hi as int)) || digits_value(b@.subrange(lo as int, hi as int)) > bound,
{
    let mut acc: u128 = 0;
    let mut i = lo;
    while i < hi
        invariant
            lo <= i <= hi <= b@.len(),
            bound <= 0xFFFF_FFFF_FFFF_FFFF_FFFF_FFFF,
            all_digits(b@.subrange(lo as int, i as int)),
            acc == digits_value(b@.subrange(lo as int, i as int)),
            acc <= bound,
        decreases hi - i,
    {
        let d = b[i];
        proof {
            lemma_digits_push(b@.subrange(lo as int, hi as int), (i - lo) as int);
            assert(b@.subrange(lo as int, hi as int).subrange(0, (i - lo) as int) =~= b@.subrange(lo as int, i as int));
            assert(b@.subrange(lo as int, hi as int).subrange(0, (i - lo + 1) as int) =~= b@.subrange(lo as int, i + 1));
        }
        if d < 48 || d > 57 {
            proof {
                assert(!is_digit(b@.subrange(lo as int, hi as int)[(i - lo) as int]));
            }
            return None;
        }
        let next = acc * 10 + (d - 48) as u128;
        if next > bound {
            proof {
                lemma_digits_tail_grows(b@.subrange(lo as int, hi as int), (i - lo + 1) as int);
            }
            return None;
        }
        acc = next;
        i = i + 1;
    }
    Some(acc)
}

/// Extending a digit string never lowers its value.
proof fn lemma_digits_tail_grows(s: Seq<u8>, k: int)
    requires
        0 <= k <= s.len(),
    ensures
        all_digits(s) ==> digits_value(s) >= digits_value(s.subrange(0, k)),
    decreases s.len() - k,
{
    if k < s.len() {
        lemma_digits_tail_grows(s, k + 1);
        lemma_digits_push(s, k);
    } else {
        assert(s.subrange(0, k) =~= s);
    }
}

pub fn pow10_u128(n: u32) -> (r: u128)
    requires
        n <= 38,
    ensures
        r == pow10(n as nat),
    decreases n,
{
    if n == 0 {
        1
    } else {
        let p = pow10_u128(n - 1);
        proof {
            lemma_pow10_le(n as nat);
        }
        10 * p
    }
}

proof fn lemma_pow10_le(n: nat)
    requires
        n <= 38,
    ensures
        pow10(n) <= 100_000_000_000_000_000_000_000_000_000_000_000_000,
    decreases n,
{
    lemma_pow10_monotone(n, 38);
    reveal_with_fuel(pow10, 40);
    assert(pow10(38) == 100_000_000_000_000_000_000_000_000_000_000_000_000);
}

/// `10^n` fits an `i128` exactly when `n` is at most 38, which is when
/// `10_i128.checked_pow(n)` succeeds.
pub proof fn lemma_pow10_fits_i128(n: nat)
    ensures
        n <= 38 ==> pow10(n) <= i128::MAX,
        n > 38 ==> pow10(n) > i128::MAX,
{
    reveal_with_fuel(pow10, 41);
    assert(pow10(39) == 1_000_000_000_000_000_000_000_000_000_000_000_000_000);
    if n <= 38 {
        lemma_pow10_le(n);
    } else {
        lemma_pow10_monotone(39, n);
    }
}

proof fn lemma_pow10_monotone(a: nat, b: nat)
    requires
        a <= b,
    ensures
        pow10(a) <= pow10(b),
    decreases b,
{
    if a < b {
        lemma_pow10_monotone(a, (b - 1) as nat);
        lemma_pow10_positive((b - 1) as nat);
    }
}

/// The largest tick magnitude an `i64` can hold (that of `i64::MIN`).
pub open spec fn max_magnitude() -> int {
    0x8000_0000_0000_0000
}

/// Parses `[-]digits[.digits]` into ticks at `scale`; `None` unless the text
/// is well formed with at most `scale` fraction digits and fits an `i64`.
pub fn parse_ticks(value: &str, scale: u32) -> (r: Option<i64>)
    ensures
        r == parse_ticks_spec(value@, scale as nat),
{
    let b = value.as_bytes();
    let n = b.len();
    let ghost full = b@;
    let negative = n > 0 && b[0] == 45;
    let start: usize = if negative { 1 } else { 0 };
    let ghost unsigned = strip_minus(full).1;
    assert(unsigned =~= full.subrange(start as int, n as int));
    let mut dot = start;
    while dot < n && b[dot] != 46
        invariant
            start <= dot <= n == b@.len(),
            forall|j: int| start <= j < dot ==> b@[j] != 46,
        decreases n - dot,
    {
        dot = dot + 1;
    }
    proof {
        lemma_first_dot(unsigned, (dot - start) as int);
        assert(whole_part(unsigned) =~= full.subrange(start as int, dot as int));
        if dot < n {
            assert(fraction_part(unsigned) =~= full.subrange(dot + 1, n as int));
        } else {
            assert(fraction_part(unsigned) =~= full.subrange(n as int, n as int));
        }
    }
    let frac_lo: usize = if dot < n { dot + 1 } else { n };
    let whole_len = dot - start;
    let frac_len = n - frac_lo;
    if whole_len == 0 || scale > 38 || frac_len > scale as usize {
        return None;
    }
    let bound: u128 = 0x8000_0000_0000_0000;
    let whole = parse_digits(b, start, dot, bound);
    let fraction = parse_digits(b, frac_lo, n, bound);
    let ghost wseq = full.subrange(start as int, dot as int);
    let ghost fseq = full.subrange(frac_lo as int, n as int);
    match (whole, fraction) {
        (Some(w), Some(f)) => {
            let unit = pow10_u128(scale);
            let funit = pow10_u128(scale - frac_len as u32);
            proof {
                lemma_pow10_positive(scale as nat);
                lemma_pow10_positive((scale - frac_len) as nat);
            }
            if w > 0 && unit > bound / w {
                proof {
                    assert(w * unit > bound) by (nonlinear_arith)
                        requires
                            w > 0,
                            unit > bound / w,
                            bound > 0,
                    ;
                    assert(scaled_magnitude(wseq, fseq, scale as nat) >= w * unit) by (nonlinear_arith)
                        requires
                            scaled_magnitude(wseq, fseq, scale as nat) == w * unit + f * funit,
                            f >= 0,
                            funit >= 1,
                    ;
                }
                return None;
            }
            assert(w * unit <= bound) by (nonlinear_arith)
                requires
                    w == 0 || unit <= bound / w,
                    bound > 0,
            ;
            let wv = w * unit;
            if f > 0 && funit > bound / f {
                proof {
                    assert(f * funit > bound) by (nonlinear_arith)
                        requires
                            f > 0,
                            funit > bound / f,
                            bound > 0,
                    ;
                }
                return None;
            }
            assert(f * funit <= bound) by (nonlinear_arith)
                requires
                    f == 0 || funit <= bound / f,
                    bound > 0,
            ;
            let fv = f * funit;
            let total = wv + fv;
            if total > bound {
                return None;
            }
            if negative {
                Some((0i128 - total as i128) as i64)
            } else {
                if total > 0x7FFF_FFFF_FFFF_FFFF {
                    return None;
                }
                Some(total as i64)
            }
        },
        _ => {
            proof {
                let p1 = pow10(scale as nat);
                let p2 = pow10((scale - frac_len) as nat);
                lemma_pow10_positive(scale as nat);
                lemma_pow10_positive((scale - frac_len) as nat);
                let dw = digits_value(wseq);
                let df = digits_value(fseq);
                assert(dw * p1 >= dw && df * p2 >= df) by (nonlinear_arith)
                    requires
                        p1 >= 1,
                        p2 >= 1,
                ;
            }
            None
        },
    }
}

/// `[-]digits[.digits]` with a non-empty whole part.
pub open spec fn signed_decimal_spec(v: Seq<char>) -> bool {
    let u = strip_minus(utf8(v)).1;
    whole_part(u).len() > 0 && all_digits(whole_part(u)) && all_digits(fraction_part(u))
}

/// A signed decimal without a leading `-` and with a non-zero digit.
pub open spec fn positive_decimal_spec(v: Seq<char>) -> bool {
    let b = utf8(v);
    &&& !(b.len() > 0 && b[0] == 45)
    &&& signed_decimal_spec(v)
    &&& exists|i: int| 0 <= i < b.len() && is_digit(#[trigger] b[i]) && b[i] != 48
}

fn all_digits_in(b: &[u8], lo: usize, hi: usize) -> (r: bool)
    requires
        lo <= hi <= b@.len(),
    ensures
        r == all_digits(b@.subrange(lo as int, hi as int)),
{
    let mut i = lo;
    while i < hi
        invariant
            lo <= i <= hi <= b@.len(),
            forall|j: int| lo <= j < i ==> is_digit(#[trigger] b@[j]),
        decreases hi - i,
    {
        if !(b[i] >= 48 && b[i] <= 57) {
            assert(!is_digit(b@.subrange(lo as int, hi as int)[i - lo]));
            return false;
        }
        i = i + 1;
    }
    assert forall|j: int| 0 <= j < hi - lo implies is_digit(#[trigger] b@.subrange(lo as int, hi as int)[j]) by {
        assert(b@.subrange(lo as int, hi as int)[j] == b@[lo + j]);
    }
    true
}

/// Whether `value` is `[-]digits[.digits]` with a non-empty whole part.
pub fn is_signed_decimal(value: &str) -> (r: bool)
    ensures
        r == signed_decimal_spec(value@),
{
    let b = value.as_bytes();
    let n = b.len();
    let ghost full = b@;
    let negative = n > 0 && b[0] == 45;
    let start: usize = if negative { 1 } else { 0 };
    let ghost unsigned = strip_minus(full).1;
    assert(unsigned =~= full.subrange(start as int, n as int));
    let mut dot = start;
    while dot < n && b[dot] != 46
        invariant
            start <= dot <= n == b@.len(),
            forall|j: int| start <= j < dot ==> b@[j] != 46,
        decreases n - dot,
    {
        dot = dot + 1;
    }
    proof {
        lemma_first_dot(unsigned, (dot - start) as int);
        assert(whole_part(unsigned) =~= full.subrange(start as int, dot as int));
        if dot < n {
            assert(fraction_part(unsigned) =~= full.subrange(dot + 1, n as int));
        } else {
            assert(fraction_part(unsigned) =~= full.subrange(n as int, n as int));
        }
    }
    let frac_lo: usize = if dot < n { dot + 1 } else { n };
    dot > start && all_digits_in(b, start, dot) && all_digits_in(b, frac_lo, n)
}

/// Whether `value` is a signed decimal, without a leading `-`, that has a
/// non-zero digit.
pub fn is_positive_decimal(value: &str) -> (r: bool)
    ensures
        r == positive_decimal_spec(value@),
{
    let b = value.as_bytes();
    if b.len() > 0 && b[0] == 45 {
        return false;
    }
    if !is_signed_decimal(value) {
        return false;
    }
    let mut i: usize = 0;
    while i < b.len()
        invariant
            i <= b@.len(),
            b@ == utf8(value@),
            signed_decimal_spec(value@),
            !(b@.len() > 0 && b@[0] == 45),
            forall|j: int| 0 <= j < i ==> !(is_digit(#[trigger] b@[j]) && b@[j] != 48),
        decreases b@.len() - i,
    {
        if b[i] >= 49 && b[i] <= 57 {
            assert(is_digit(b@[i as int]) && b@[i as int] != 48);
            return true;
        }
        i = i + 1;
    }
    false
}


/// Why an exchange position amount was refused.
#[derive(Debug, Clone, Copy, PartialEq, Eq, Structural)]
pub enum PositionParseError {
    /// Not `[-]digits[.digits]` with a non-empty whole part.
    Invalid,
    /// A non-zero digit lies beyond the quantity scale.
    ExcessPrecision,
    /// `10^scale` does not fit an `i128`.
    ScaleTooLarge,
    /// The value at the quantity scale does not fit an `i64`.
    TooLarge,
}

pub open spec fn all_zero_digits(s: Seq<u8>) -> bool {
    forall|i: int| 0 <= i < s.len() ==> #[trigger] s[i] == 48
}

/// The fraction digits that count at `scale`: those beyond it are dropped.
pub open spec fn kept_fraction(fraction: Seq<u8>, scale: nat) -> Seq<u8> {
    if fraction.len() <= scale {
        fraction
    } else {
        fraction.subrange(0, scale as int)
    }
}

/// Lenient signed fixed-point parse of a position amount: like the strict
/// parse, but fraction digits beyond `scale` are accepted when they are all
/// zeros.
pub open spec fn position_ticks_spec(value: Seq<char>, scale: nat) -> Result<i64, PositionParseError> {
    let (negative, unsigned) = strip_minus(utf8(value));
    let whole = whole_part(unsigned);
    let fraction = fraction_part(unsigned);
    let magnitude = scaled_magnitude(whole, kept_fraction(fraction, scale), scale);
    let signed = if negative { -magnitude } else { magnitude };
    if whole.len() == 0 || !all_digits(whole) || !all_digits(fraction) {
        Err(PositionParseError::Invalid)
    } else if fraction.len() > scale && !all_zero_digits(
        fraction.subrange(scale as int, fraction.len() as int),
    ) {
        Err(PositionParseError::ExcessPrecision)
    } else if scale > 38 {
        Err(PositionParseError::ScaleTooLarge)
    } else if in_i64(signed) {
        Ok(signed as i64)
    } else {
        Err(PositionParseError::TooLarge)
    }
}

fn all_zero_in(b: &[u8], lo: usize, hi: usize) -> (r: bool)
    requires
        lo <= hi <= b@.len(),
    ensures
        r == all_zero_digits(b@.subrange(lo as int, hi as int)),
{
    let mut i = lo;
    while i < hi
        invariant
            lo <= i <= hi <= b@.len(),
            forall|j: int| lo <= j < i ==> #[trigger] b@[j] == 48,
        decreases hi - i,
    {
        if b[i] != 48 {
            assert(b@.subrange(lo as int, hi as int)[i - lo] != 48);
            return false;
        }
        i = i + 1;
    }
    assert forall|j: int| 0 <= j < hi - lo implies #[trigger] b@.subrange(lo as int, hi as int)[j] == 48 by {
        assert(b@.subrange(lo as int, hi as int)[j] == b@[lo + j]);
    }
    true
}

/// `whole * 10^scale + fraction * 10^(scale - kept)`, negated when asked,
/// when it fits an `i64`.
fn signed_ticks(w: u128, f: u128, kept: u32, scale: u32, negative: bool) -> (r: Option<i64>)
    requires
        kept <= scale <= 38,
        w <= 0x8000_0000_0000_0000,
        f <= 0x8000_0000_0000_0000,
    ensures
        ({
            let magnitude = w * pow10(scale as nat) + f * pow10((scale - kept) as nat);
            let signed = if negative { -magnitude } else { magnitude };
            r == if in_i64(signed) { Some(signed as i64) } else { None::<i64> }
        }),
{
    let bound: u128 = 0x8000_0000_0000_0000;
    let unit = pow10_u128(scale);
    let funit = pow10_u128(scale - kept);
    proof {
        lemma_pow10_positive(scale as nat);
        lemma_pow10_positive((scale - kept) as nat);
    }
    if w > 0 && unit > bound / w {
        assert(w * unit > bound) by (nonlinear_arith)
            requires
                w > 0,
                unit > bound / w,
                bound > 0,
        ;
        assert(f * funit >= 0) by (nonlinear_arith)
            requires
                f >= 0,
                funit >= 1,
        ;
        return None;
    }
    assert(w * unit <= bound) by (nonlinear_arith)
        requires
            w == 0 || unit <= bound / w,
            bound > 0,
    ;
    let wv = w * unit;
    if f > 0 && funit > bound / f {
        assert(f * funit > bound) by (nonlinear_arith)
            requires
                f > 0,
                funit > bound / f,
                bound > 0,
        ;
        return None;
    }
    assert(f * funit <= bound) by (nonlinear_arith)
        requires
            f == 0 || funit <= bound / f,
            bound > 0,
    ;
    let fv = f * funit;
    let total = wv + fv;
    if total > bound {
        return None;
    }
    if negative {
        Some((0i128 - total as i128) as i64)
    } else {
        if total > 0x7FFF_FFFF_FFFF_FFFF {
            return None;
        }
        Some(total as i64)
    }
}

/// Parses an exchange position amount into ticks at `scale`, accepting
/// zero digits beyond the scale; the error says why it was refused.
#[verifier::spinoff_prover]
#[verifier::rlimit(40)]
pub fn parse_position_ticks(value: &str, scale: u32) -> (r: Result<i64, PositionParseError>)
    ensures
        r == position_ticks_spec(value@, scale as nat),
{
    let b = value.as_bytes();
    let n = b.len();
    let ghost full = b@;
    let negative = n > 0 && b[0] == 45;
    let start: usize = if negative { 1 } else { 0 };
    let ghost unsigned = strip_minus(full).1;
    assert(unsigned =~= full.subrange(start as int, n as int));
    let mut dot = start;
    while dot < n && b[dot] != 46
        invariant
            start <= dot <= n == b@.len(),
            forall|j: int| start <= j < dot ==> b@[j] != 46,
        decreases n - dot,
    {
        dot = dot + 1;
    }
    proof {
        lemma_first_dot(unsigned, (dot - start) as int);
        assert(whole_part(unsigned) =~= full.subrange(start as int, dot as int));
        if dot < n {
            assert(fraction_part(unsigned) =~= full.subrange(dot + 1, n as int));
        } else {
            assert(fraction_part(unsigned) =~= full.subrange(n as int, n as int));
        }
    }
    let frac_lo: usize = if dot < n { dot + 1 } else { n };
    let ghost fseq = full.subrange(frac_lo as int, n as int);
    if dot == start || !all_digits_in(b, start, dot) || !all_digits_in(b, frac_lo, n) {
        return Err(PositionParseError::Invalid);
    }
    let frac_len = n - frac_lo;
    if frac_len > scale as usize {
        let cut = frac_lo + scale as usize;
        assert(fseq.subrange(scale as int, fseq.len() as int) =~= full.subrange(cut as int, n as int));
        if !all_zero_in(b, cut, n) {
            return Err(PositionParseError::ExcessPrecision);
        }
    }
    if scale > 38 {
        return Err(PositionParseError::ScaleTooLarge);
    }
    let kept: usize = if frac_len <= scale as usize { frac_len } else { scale as usize };
    let ghost wseq = full.subrange(start as int, dot as int);
    let ghost kseq = full.subrange(frac_lo as int, (frac_lo + kept) as int);
    assert(kept_fraction(fseq, scale as nat) =~= kseq);
    assert(all_digits(kseq)) by {
        assert forall|j: int| 0 <= j < kseq.len() implies is_digit(#[trigger] kseq[j]) by {
            assert(kseq[j] == fseq[j]);
        }
    }
    let bound: u128 = 0x8000_0000_0000_0000;
    let whole = parse_digits(b, start, dot, bound);
    let fraction = parse_digits(b, frac_lo, frac_lo + kept, bound);
    match (whole, fraction) {
        (Some(w), Some(f)) => {
            match signed_ticks(w, f, kept as u32, scale, negative) {
                Some(v) => Ok(v),
                None => Err(PositionParseError::TooLarge),
            }
        },
        _ => {
            proof {
                let p1 = pow10(scale as nat);
                let p2 = pow10((scale - kept) as nat);
                lemma_pow10_positive(scale as nat);
                lemma_pow10_positive((scale - kept) as nat);
                let dw = digits_value(wseq);
                let df = digits_value(kseq);
                assert(dw * p1 >= dw && df * p2 >= df) by (nonlinear_arith)
                    requires
                        p1 >= 1,
                        p2 >= 1,
                ;
            }
            Err(PositionParseError::TooLarge)
        },
    }
}


/// `s` preceded by enough `0`s to be at least `width` long.
pub open spec fn zero_pad(s: Seq<char>, width: nat) -> Seq<char> {
    if s.len() >= width {
        s
    } else {
        Seq::new((width - s.len()) as nat, |i: int| '0') + s
    }
}

/// The divisor a scale selects: `10^scale` while that fits an `i64`, and
/// `i64::MAX` beyond.
pub open spec fn tick_divisor(scale: nat) -> nat {
    if scale <= 18 {
        pow10(scale)
    } else {
        i64::MAX as nat
    }
}

/// Ticks at `scale` as decimal text: the whole part, then (for a non-zero
/// scale) a `.` and the remainder padded with zeros to `scale` digits, with
/// a leading `-` for a negative value.
pub open spec fn format_ticks_spec(value: i64, scale: nat) -> Seq<char> {
    let magnitude = abs_int(value as int) as nat;
    let d = tick_divisor(scale);
    let body = if scale == 0 {
        dec_chars(magnitude / d)
    } else {
        dec_chars(magnitude / d) + seq!['.'] + zero_pad(dec_chars(magnitude % d), scale)
    };
    if value < 0 {
        seq!['-'] + body
    } else {
        body
    }
}

/// Renders ticks at `scale` as decimal text.
#[verifier::spinoff_prover]
#[verifier::rlimit(40)]
pub fn format_ticks(value: i64, scale: u32) -> (r: String)
    ensures
        r@ == format_ticks_spec(value, scale as nat),
{
    let divisor: u64 = if scale <= 18 {
        proof {
            lemma_pow10_monotone(scale as nat, 18);
            reveal_with_fuel(pow10, 20);
            lemma_pow10_positive(scale as nat);
        }
        pow10_u128(scale) as u64
    } else {
        0x7FFF_FFFF_FFFF_FFFF
    };
    let magnitude: u64 = if value == i64::MIN {
        0x8000_0000_0000_0000
    } else if value < 0 {
        (-value) as u64
    } else {
        value as u64
    };
    assert(magnitude == abs_int(value as int));
    let whole = magnitude / divisor;
    let fraction = magnitude % divisor;
    let mut s = if value < 0 {
        proof { reveal_strlit("-"); }
        String::from_str("-")
    } else {
        proof { reveal_strlit(""); }
        String::from_str("")
    };
    let w = u64_to_dec(whole);
    s.append(w.as_str());
    if scale != 0 {
        proof { reveal_strlit("."); }
        s.append(".");
        let digits = u64_to_dec(fraction);
        let len = digits.as_str().unicode_len();
        let mut pad = String::from_str("");
        proof {
            reveal_strlit("");
            assert(pad@ =~= Seq::new(0nat, |j: int| '0'));
        }
        let mut i = len;
        let ghost dseq = digits@;
        while i < scale as usize
            invariant
                len == dseq.len(),
                len <= i,
                i <= scale || len > scale,
                len > scale ==> i == len,
                pad@ == Seq::new((i - len) as nat, |j: int| '0'),
            decreases scale - i,
        {
            proof { reveal_strlit("0"); }
            pad.append("0");
            assert(pad@ =~= Seq::new((i + 1 - len) as nat, |j: int| '0'));
            i = i + 1;
        }
        pad.append(digits.as_str());
        assert(pad@ =~= zero_pad(dseq, scale as nat));
        s.append(pad.as_str());
    }
    proof {
        if value < 0 {
            assert(s@ =~= format_ticks_spec(value, scale as nat));
        } else {
            assert(s@ =~= format_ticks_spec(value, scale as nat));
        }
    }
    s
}


/// Why a scaled decimal setting was refused.
#[derive(Debug, Clone, Copy, PartialEq, Eq, Structural)]
pub enum ScaledDecimalError {
    /// The scale is above 18.
    ScaleTooLarge,
    /// Not `[+|-][digits][.digits]` with some digit and at most `scale`
    /// fraction digits.
    Invalid,
    /// The whole part does not fit an `i128`.
    WholeOverflow,
    /// The value at the scale does not fit an `i64`.
    ValueOverflow,
}

impl ScaledDecimalError {
    pub open spec fn text(self) -> Seq<char> {
        match self {
            ScaledDecimalError::ScaleTooLarge => "decimal scale must be at most 18"@,
            ScaledDecimalError::Invalid => "expected a non-negative decimal number"@,
            ScaledDecimalError::WholeOverflow => "decimal whole part overflows"@,
            ScaledDecimalError::ValueOverflow => "decimal value overflows"@,
        }
    }

    pub fn message(&self) -> (r: &'static str)
        ensures
            r@ == self.text(),
    {
        match self {
            ScaledDecimalError::ScaleTooLarge => "decimal scale must be at most 18",
            ScaledDecimalError::Invalid => "expected a non-negative decimal number",
            ScaledDecimalError::WholeOverflow => "decimal whole part overflows",
            ScaledDecimalError::ValueOverflow => "decimal value overflows",
        }
    }
}

/// The text after an optional sign: a `-` makes the value negative, a `+`
/// (only without a `-`) is dropped.
pub open spec fn unsigned_text(b: Seq<u8>) -> Seq<u8> {
    if b.len() > 0 && (b[0] == 45 || b[0] == 43) {
        b.drop_first()
    } else {
        b
    }
}

/// A trimmed, optionally signed decimal at `scale` (at most 18) as ticks:
/// the whole part may be empty when there is a fraction, and the fraction
/// has at most `scale` digits.
pub open spec fn scaled_decimal_spec(value: Seq<char>, scale: nat) -> Result<i64, ScaledDecimalError> {
    let b = utf8(crate::text::trim_chars(value));
    let negative = b.len() > 0 && b[0] == 45;
    let u = unsigned_text(b);
    let whole = whole_part(u);
    let fraction = fraction_part(u);
    let magnitude = scaled_magnitude(whole, fraction, scale);
    let signed = if negative { -magnitude } else { magnitude };
    if scale > 18 {
        Err(ScaledDecimalError::ScaleTooLarge)
    } else if !all_digits(whole) || !all_digits(fraction) || (whole.len() == 0 && fraction.len()
        == 0) || fraction.len() > scale {
        Err(ScaledDecimalError::Invalid)
    } else if digits_value(whole) > i128::MAX {
        Err(ScaledDecimalError::WholeOverflow)
    } else if in_i64(signed) {
        Ok(signed as i64)
    } else {
        Err(ScaledDecimalError::ValueOverflow)
    }
}

/// Whether the digits `b[lo..hi]` write a number above `i128::MAX`.
fn digits_exceed_i128(b: &[u8], lo: usize, hi: usize) -> (r: bool)
    requires
        lo <= hi <= b@.len(),
        all_digits(b@.subrange(lo as int, hi as int)),
    ensures
        r == (digits_value(b@.subrange(lo as int, hi as int)) > i128::MAX),
{
    let ghost s = b@.subrange(lo as int, hi as int);
    let max: u128 = 0x7FFF_FFFF_FFFF_FFFF_FFFF_FFFF_FFFF_FFFF;
    let mut acc: u128 = 0;
    let mut i = lo;
    while i < hi
        invariant
            lo <= i <= hi <= b@.len(),
            s == b@.subrange(lo as int, hi as int),
            all_digits(s),
            acc == digits_value(b@.subrange(lo as int, i as int)),
            max == 0x7FFF_FFFF_FFFF_FFFF_FFFF_FFFF_FFFF_FFFF,
            acc <= max,
        decreases hi - i,
    {
        proof {
            lemma_digits_push(s, (i - lo) as int);
            assert(s.subrange(0, (i - lo) as int) =~= b@.subrange(lo as int, i as int));
            assert(s.subrange(0, (i - lo + 1) as int) =~= b@.subrange(lo as int, i + 1));
            assert(is_digit(s[(i - lo) as int]));
        }
        assert(b@[i as int] == s[(i - lo) as int]);
        let d = (b[i] - 48) as u128;
        if acc > (max - d) / 10 {
            proof {
                assert(acc * 10 + d > max) by (nonlinear_arith)
                    requires
                        acc > (max - d) / 10,
                        d <= 9,
                ;
                lemma_digits_tail_grows(s, (i - lo + 1) as int);
            }
            return true;
        }
        assert(acc * 10 + d <= max) by (nonlinear_arith)
            requires
                acc <= (max - d) / 10,
                d <= 9,
        ;
        acc = acc * 10 + d;
        i = i + 1;
    }
    false
}

/// Parses a decimal setting at `scale` into ticks.
#[verifier::spinoff_prover]
#[verifier::rlimit(40)]
pub fn parse_scaled_decimal(value: &str, scale: u32) -> (r: Result<i64, ScaledDecimalError>)
    ensures
        r == scaled_decimal_spec(value@, scale as nat),
{
    if scale > 18 {
        return Err(ScaledDecimalError::ScaleTooLarge);
    }
    let t = crate::text::trim(value);
    let b = t.as_bytes();
    let n = b.len();
    let ghost full = b@;
    let negative = n > 0 && b[0] == 45;
    let start: usize = if n > 0 && (b[0] == 45 || b[0] == 43) { 1 } else { 0 };
    let ghost unsigned = unsigned_text(full);
    assert(unsigned =~= full.subrange(start as int, n as int));
    let mut dot = start;
    while dot < n && b[dot] != 46
        invariant
            start <= dot <= n == b@.len(),
            forall|j: int| start <= j < dot ==> b@[j] != 46,
        decreases n - dot,
    {
        dot = dot + 1;
    }
    proof {
        lemma_first_dot(unsigned, (dot - start) as int);
        assert(whole_part(unsigned) =~= full.subrange(start as int, dot as int));
        if dot < n {
            assert(fraction_part(unsigned) =~= full.subrange(dot + 1, n as int));
        } else {
            assert(fraction_part(unsigned) =~= full.subrange(n as int, n as int));
        }
    }
    let frac_lo: usize = if dot < n { dot + 1 } else { n };
    let frac_len = n - frac_lo;
    if !all_digits_in(b, start, dot) || !all_digits_in(b, frac_lo, n) || (dot == start
        && frac_len == 0) || frac_len > scale as usize {
        return Err(ScaledDecimalError::Invalid);
    }
    if digits_exceed_i128(b, start, dot) {
        return Err(ScaledDecimalError::WholeOverflow);
    }
    let ghost wseq = full.subrange(start as int, dot as int);
    let ghost fseq = full.subrange(frac_lo as int, n as int);
    let bound: u128 = 0x8000_0000_0000_0000;
    let whole = parse_digits(b, start, dot, bound);
    let fraction = parse_digits(b, frac_lo, n, bound);
    match (whole, fraction) {
        (Some(w), Some(f)) => match signed_ticks(w, f, frac_len as u32, scale, negative) {
            Some(v) => Ok(v),
            None => Err(ScaledDecimalError::ValueOverflow),
        },
        _ => {
            proof {
                let p1 = pow10(scale as nat);
                let p2 = pow10((scale - frac_len) as nat);
                lemma_pow10_positive(scale as nat);
                lemma_pow10_positive((scale - frac_len) as nat);
                let dw = digits_value(wseq);
                let df = digits_value(fseq);
                assert(dw * p1 >= dw && df * p2 >= df) by (nonlinear_arith)
                    requires
                        p1 >= 1,
                        p2 >= 1,
                ;
            }
            Err(ScaledDecimalError::ValueOverflow)
        },
    }
}

/// Why a positive decimal setting was refused.
#[derive(Debug, Clone, Copy, PartialEq, Eq, Structural)]
pub enum DecimalError {
    /// Not `digits[.digits]` with at most `scale` fraction digits.
    Invalid,
    /// The value at the scale does not fit an `i64`.
    Overflow,
}

/// A trimmed, unsigned decimal with a non-empty whole part and at most
/// `scale` fraction digits, as ticks at `scale`.
pub open spec fn decimal_spec(value: Seq<char>, scale: nat) -> Result<i64, DecimalError> {
    let b = utf8(crate::text::trim_chars(value));
    let whole = whole_part(b);
    let fraction = fraction_part(b);
    let magnitude = scaled_magnitude(whole, fraction, scale);
    if whole.len() == 0 || !all_digits(whole) || !all_digits(fraction) || fraction.len() > scale {
        Err(DecimalError::Invalid)
    } else if magnitude <= i64::MAX {
        Ok(magnitude as i64)
    } else {
        Err(DecimalError::Overflow)
    }
}

/// Parses a positive decimal setting at `scale` (at most 38) into ticks.
#[verifier::spinoff_prover]
#[verifier::rlimit(40)]
pub fn parse_decimal(value: &str, scale: u32) -> (r: Result<i64, DecimalError>)
    requires
        scale <= 38,
    ensures
        r == decimal_spec(value@, scale as nat),
{
    let t = crate::text::trim(value);
    let b = t.as_bytes();
    let n = b.len();
    let ghost full = b@;
    let mut dot: usize = 0;
    while dot < n && b[dot] != 46
        invariant
            dot <= n == b@.len(),
            forall|j: int| 0 <= j < dot ==> b@[j] != 46,
        decreases n - dot,
    {
        dot = dot + 1;
    }
    proof {
        lemma_first_dot(full, dot as int);
        assert(whole_part(full) =~= full.subrange(0, dot as int));
        if dot < n {
            assert(fraction_part(full) =~= full.subrange(dot + 1, n as int));
        } else {
            assert(fraction_part(full) =~= full.subrange(n as int, n as int));
        }
    }
    let frac_lo: usize = if dot < n { dot + 1 } else { n };
    let frac_len = n - frac_lo;
    if dot == 0 || !all_digits_in(b, 0, dot) || !all_digits_in(b, frac_lo, n) || frac_len > scale as usize {
        return Err(DecimalError::Invalid);
    }
    let ghost wseq = full.subrange(0, dot as int);
    let ghost fseq = full.subrange(frac_lo as int, n as int);
    let bound: u128 = 0x8000_0000_0000_0000;
    let whole = parse_digits(b, 0, dot, bound);
    let fraction = parse_digits(b, frac_lo, n, bound);
    match (whole, fraction) {
        (Some(w), Some(f)) => match signed_ticks(w, f, frac_len as u32, scale, false) {
            Some(v) => Ok(v),
            None => Err(DecimalError::Overflow),
        },
        _ => {
            proof {
                let p1 = pow10(scale as nat);
                let p2 = pow10((scale - frac_len) as nat);
                lemma_pow10_positive(scale as nat);
                lemma_pow10_positive((scale - frac_len) as nat);
                let dw = digits_value(wseq);
                let df = digits_value(fseq);
                assert(dw * p1 >= dw && df * p2 >= df) by (nonlinear_arith)
                    requires
                        p1 >= 1,
                        p2 >= 1,
                ;
            }
            Err(DecimalError::Overflow)
        },
    }
}


/// A commission rate as a decimal fraction of at most 1 with at most six
/// fraction digits, in parts per million.
pub open spec fn commission_ppm_spec(value: Seq<char>) -> Option<i64> {
    let b = utf8(crate::text::trim_chars(value));
    let whole = whole_part(b);
    let fraction = fraction_part(b);
    if whole.len() > 0 && all_digits(whole) && all_digits(fraction) && digits_value(whole) <= 1
        && fraction.len() <= 6 {
        Some(scaled_magnitude(whole, fraction, 6) as i64)
    } else {
        None
    }
}

/// Parses an exchange commission rate (such as `0.0002`) into parts per
/// million.
pub fn parse_commission_ppm(value: &str) -> (r: Option<i64>)
    ensures
        r == commission_ppm_spec(value@),
{
    let t = crate::text::trim(value);
    let b = t.as_bytes();
    let n = b.len();
    let ghost full = b@;
    let mut dot: usize = 0;
    while dot < n && b[dot] != 46
        invariant
            dot <= n == b@.len(),
            forall|j: int| 0 <= j < dot ==> b@[j] != 46,
        decreases n - dot,
    {
        dot = dot + 1;
    }
    proof {
        lemma_first_dot(full, dot as int);
        assert(whole_part(full) =~= full.subrange(0, dot as int));
        if dot < n {
            assert(fraction_part(full) =~= full.subrange(dot + 1, n as int));
        } else {
            assert(fraction_part(full) =~= full.subrange(n as int, n as int));
        }
    }
    let frac_lo: usize = if dot < n { dot + 1 } else { n };
    let frac_len = n - frac_lo;
    if dot == 0 || !all_digits_in(b, 0, dot) || !all_digits_in(b, frac_lo, n) || frac_len > 6 {
        return None;
    }
    let ghost fseq = full.subrange(frac_lo as int, n as int);
    let w = match parse_digits(b, 0, dot, 1) {
        Some(w) => w,
        None => {
            return None;
        },
    };
    proof {
        lemma_digits_value_bound(fseq);
        lemma_pow10_monotone(frac_len as nat, 6);
        reveal_with_fuel(pow10, 7);
    }
    let f = match parse_digits(b, frac_lo, n, 999_999) {
        Some(f) => f,
        None => {
            return None;
        },
    };
    let funit = pow10_u128(6 - frac_len as u32);
    proof {
        lemma_pow10_monotone((6 - frac_len) as nat, 6);
        assert(f * funit < pow10(frac_len as nat) * pow10((6 - frac_len) as nat)) by (nonlinear_arith)
            requires
                f < pow10(frac_len as nat),
                funit == pow10((6 - frac_len) as nat),
                funit >= 1,
        ;
        lemma_pow10_add(frac_len as nat, (6 - frac_len) as nat);
    }
    let total = w * 1_000_000 + f * funit;
    Some(total as i64)
}

proof fn lemma_pow10_add(a: nat, b: nat)
    ensures
        pow10(a) * pow10(b) == pow10(a + b),
    decreases a,
{
    if a == 0 {
        assert(pow10(0) == 1);
        assert(a + b == b);
    } else {
        let c = (a - 1) as nat;
        lemma_pow10_add(c, b);
        assert(pow10(a) == 10 * pow10(c));
        assert(c + b + 1 == a + b);
        assert(pow10(a + b) == 10 * pow10((c + b) as nat));
        assert(pow10(a) * pow10(b) == 10 * (pow10(c) * pow10(b))) by (nonlinear_arith)
            requires
                pow10(a) == 10 * pow10(c),
        ;
    }
}

} // verus!
