//! Fixed-point decimal values and the `rust_decimal` operations that compute on them.
//!
//! A [`Dec`] holds the plain values that make up a `rust_decimal::Decimal`: a signed
//! mantissa of at most 96 bits, a scale (the number of digits after the decimal point, at
//! most 28) and the sign flag, which tells `-0` from `0`.  Its value is
//! `mantissa / 10^scale`.  Every arithmetic
//! operation that can round is computed by `rust_decimal` itself, behind the trusted
//! wrappers of this module.
use rust_decimal::Decimal;
use vstd::prelude::*;
use vstd::arithmetic::div_mod::{
    lemma_div_is_ordered, lemma_fundamental_div_mod, lemma_fundamental_div_mod_converse,
    lemma_mod_bound,
};

verus! {

#[verifier::external_type_specification]
#[verifier::external_body]
pub struct ExDecimalError(rust_decimal::Error);

/// Largest magnitude of a mantissa: 2^96 - 1.
pub const MAX_MANTISSA: i128 = 0xFFFF_FFFF_FFFF_FFFF_FFFF_FFFF;

/// Largest scale (digits after the decimal point).
pub const MAX_SCALE: u32 = 28;

/// 10 to the power `n`.
pub open spec fn pow10(n: nat) -> int
    decreases n,
{
    if n == 0 {
        1
    } else {
        10 * pow10((n - 1) as nat)
    }
}

/// The mantissa and scale can be held by a `rust_decimal::Decimal`.
pub open spec fn valid_parts(m: int, s: int) -> bool {
    -MAX_MANTISSA <= m <= MAX_MANTISSA && 0 <= s <= MAX_SCALE
}

/// The larger of two scales.
pub open spec fn max_scale(a_scale: u32, b_scale: u32) -> u32 {
    if a_scale >= b_scale {
        a_scale
    } else {
        b_scale
    }
}

/// The mantissa `m` (at scale `s`) written at the larger scale `target`.
pub open spec fn aligned(m: i128, s: u32, target: u32) -> int {
    m * pow10((target - s) as nat)
}

/// The exact sum of two decimals, written at their larger scale.
pub open spec fn exact_sum(am: i128, a_scale: u32, bm: i128, b_scale: u32) -> int {
    let t = max_scale(a_scale, b_scale);
    aligned(am, a_scale, t) + aligned(bm, b_scale, t)
}

/// The exact difference of two decimals, written at their larger scale.
pub open spec fn exact_difference(am: i128, a_scale: u32, bm: i128, b_scale: u32) -> int {
    let t = max_scale(a_scale, b_scale);
    aligned(am, a_scale, t) - aligned(bm, b_scale, t)
}

/// What `Decimal::checked_add` returns, as parts.
pub uninterp spec fn decimal_checked_add(a: (i128, u32, bool), b: (i128, u32, bool)) -> Option<
    (i128, u32, bool),
>;

/// What `Decimal::checked_sub` returns, as parts.
pub uninterp spec fn decimal_checked_sub(a: (i128, u32, bool), b: (i128, u32, bool)) -> Option<
    (i128, u32, bool),
>;

/// What `Decimal::checked_mul` returns, as parts.
pub uninterp spec fn decimal_checked_mul(a: (i128, u32, bool), b: (i128, u32, bool)) -> Option<
    (i128, u32, bool),
>;

/// What `Decimal::checked_div` returns, as parts.
pub uninterp spec fn decimal_checked_div(a: (i128, u32, bool), b: (i128, u32, bool)) -> Option<
    (i128, u32, bool),
>;

/// What `<Decimal as FromStr>::from_str` returns for a text, as parts (`None` for an error).
pub uninterp spec fn decimal_from_str(text: Seq<char>) -> Option<(i128, u32, bool)>;

/// The parts are those of a `rust_decimal::Decimal`: the mantissa has at most 96 bits, the
/// scale is at most 28 and a nonzero mantissa carries its own sign.
pub open spec fn valid(p: (i128, u32, bool)) -> bool {
    &&& valid_parts(p.0 as int, p.1 as int)
    &&& (p.0 > 0 ==> !p.2)
    &&& (p.0 < 0 ==> p.2)
}

/// The parts of a value given by mantissa and scale (a zero is positive).
pub open spec fn signed(m: int, s: int) -> (i128, u32, bool) {
    (m as i128, s as u32, m < 0)
}

/// A character that can stand in a text `rust_decimal` reads.
pub open spec fn decimal_text_char(c: char) -> bool {
    ('0' <= c && c <= '9') || c == '.' || c == '+' || c == '-' || c == '_' || c == 'e' || c == 'E'
}

/// A decimal digit character.
pub open spec fn is_digit(c: char) -> bool {
    '0' <= c && c <= '9'
}

/// The integer written by the digits of a text, ignoring points.
pub open spec fn digits_value(s: Seq<char>) -> int
    decreases s.len(),
{
    if s.len() == 0 {
        0
    } else if s.last() == '.' {
        digits_value(s.drop_last())
    } else {
        10 * digits_value(s.drop_last()) + (s.last() as int - '0' as int)
    }
}

/// The number of digit characters of a text.
pub open spec fn digit_count(s: Seq<char>) -> int
    decreases s.len(),
{
    if s.len() == 0 {
        0
    } else {
        digit_count(s.drop_last()) + if is_digit(s.last()) {
            1int
        } else {
            0int
        }
    }
}

/// The number of characters after the point of a text (0 without a point).
pub open spec fn fraction_digits(s: Seq<char>) -> int
    decreases s.len(),
{
    if s.len() == 0 || s.last() == '.' {
        0
    } else if s.drop_last().contains('.') {
        fraction_digits(s.drop_last()) + 1
    } else {
        0
    }
}

/// Digits with at most one point, which stands between digits; at most 28 digits.
pub open spec fn plain_unsigned_text(s: Seq<char>) -> bool {
    &&& s.len() >= 1
    &&& is_digit(s[0])
    &&& is_digit(s.last())
    &&& forall|i: int| 0 <= i < s.len() ==> is_digit(#[trigger] s[i]) || s[i] == '.'
    &&& forall|i: int, j: int| 0 <= i < j < s.len() && #[trigger] s[i] == '.' ==> #[trigger] s[j] != '.'
    &&& digit_count(s) <= 28
}

/// A plain decimal text: an optional minus sign and a plain unsigned text.
pub open spec fn plain_decimal_text(s: Seq<char>) -> bool {
    plain_unsigned_text(s) || (s.len() >= 1 && s[0] == '-' && plain_unsigned_text(s.skip(1)))
}

/// The mantissa that a plain decimal text writes.
pub open spec fn plain_decimal_mantissa(s: Seq<char>) -> int {
    if s.len() >= 1 && s[0] == '-' {
        -digits_value(s.skip(1))
    } else {
        digits_value(s)
    }
}

/// The scale that a plain decimal text writes.
pub open spec fn plain_decimal_scale(s: Seq<char>) -> int {
    if s.len() >= 1 && s[0] == '-' {
        fraction_digits(s.skip(1))
    } else {
        fraction_digits(s)
    }
}

/// Numeric order of two decimals: `a < b`.
pub open spec fn less_than(am: int, a_scale: u32, bm: int, b_scale: u32) -> bool {
    am * pow10(b_scale as nat) < bm * pow10(a_scale as nat)
}

/// Magnitude of an integer.
pub open spec fn magnitude(x: int) -> int {
    if x < 0 {
        -x
    } else {
        x
    }
}

/// The magnitude of `m` (scale `s`) rounded to `dp` digits, half to even.
pub open spec fn rounded_magnitude(m: int, s: u32, dp: u32) -> int {
    half_even(magnitude(m), pow10((s - dp) as nat))
}

/// `Decimal::round_dp`: round half to even to `dp` digits after the point; a value
/// with at most `dp` digits is returned unchanged, a zero keeps its sign flag, and a
/// nonzero value that rounds to zero becomes a positive zero.
pub open spec fn round_dp_parts(p: (i128, u32, bool), dp: u32) -> (i128, u32, bool) {
    if p.1 <= dp {
        p
    } else if p.0 == 0 {
        (0i128, dp, p.2)
    } else {
        let q = rounded_magnitude(p.0 as int, p.1, dp);
        ((if p.0 < 0 {
            -q
        } else {
            q
        }) as i128, dp, q != 0 && p.0 < 0)
    }
}

/// What `rust_decimal` guarantees of a product `p` of `a` and `b` that it returns: the
/// sign flag of a nonzero result is the exclusive or of the operands' flags, and the result
/// lies within one unit of its last digit of the exact product, which has the mantissa
/// `a.0 * b.0` at the scale `a.1 + b.1`.
pub open spec fn rounded_product(a: (i128, u32, bool), b: (i128, u32, bool), p: (i128, u32, bool)) -> bool {
    &&& (p.0 != 0 ==> p.2 == (a.2 != b.2))
    &&& magnitude(p.0 * pow10((a.1 + b.1) as nat) - a.0 * b.0 * pow10(p.1 as nat)) <= pow10(
        (a.1 + b.1) as nat,
    )
}

/// What `rust_decimal` guarantees of a quotient `p` of `a` by `b` that it returns: the sign
/// flag of a nonzero result is the exclusive or of the operands' flags; the result lies
/// within one unit of its last digit of the exact quotient; and an exact quotient of at
/// least 10^-28 in magnitude gives a nonzero result.
pub open spec fn rounded_quotient(a: (i128, u32, bool), b: (i128, u32, bool), p: (i128, u32, bool)) -> bool {
    &&& (p.0 != 0 ==> p.2 == (a.2 != b.2))
    &&& magnitude(p.0 * b.0 * pow10(a.1 as nat) - a.0 * pow10((b.1 + p.1) as nat)) <= magnitude(
        b.0 as int,
    ) * pow10(a.1 as nat)
    &&& (magnitude(a.0 as int) * pow10((b.1 + MAX_SCALE) as nat) >= magnitude(b.0 as int) * pow10(
        a.1 as nat,
    ) && a.0 != 0 ==> p.0 != 0)
}

/// Calls `Decimal::checked_add` of `rust_decimal` on the decimals with the given parts.
/// Claimed: the result is named `decimal_checked_add`; a result holds valid parts; adding
/// zero gives back the other operand (the right one when the left is zero, with its sign
/// flag); when both are nonzero and their exact sum at the larger scale fits in 96 bits,
/// that exact sum comes back at that scale (a zero sum is positive).
#[verifier::external_body]
fn rd_checked_add(a: (i128, u32, bool), b: (i128, u32, bool)) -> (r: Option<(i128, u32, bool)>)
    requires
        valid(a),
        valid(b),
    ensures
        r == decimal_checked_add(a, b),
        r matches Some(p) ==> valid(p),
        a.0 == 0 ==> r == Some(b),
        a.0 != 0 && b.0 == 0 ==> r == Some(a),
        a.0 != 0 && b.0 != 0 && magnitude(exact_sum(a.0, a.1, b.0, b.1)) <= MAX_MANTISSA ==> r
            == Some(signed(exact_sum(a.0, a.1, b.0, b.1), max_scale(a.1, b.1) as int)),
{
    let mut x = Decimal::from_i128_with_scale(a.0, a.1);
    x.set_sign_negative(a.2);
    let mut y = Decimal::from_i128_with_scale(b.0, b.1);
    y.set_sign_negative(b.2);
    match x.checked_add(y) {
        Some(d) => Some((d.mantissa(), d.scale(), d.is_sign_negative())),
        None => None,
    }
}

/// Calls `Decimal::checked_sub` of `rust_decimal` on the decimals with the given parts.
/// Claimed: the result is named `decimal_checked_sub`; a result holds valid parts; `0 - b`
/// gives `b` negated (a zero `b` comes back unchanged), `a - 0` gives `a`; when both are
/// nonzero and the exact difference at the larger scale fits in 96 bits, that exact
/// difference comes back at that scale (a zero difference is positive).
#[verifier::external_body]
fn rd_checked_sub(a: (i128, u32, bool), b: (i128, u32, bool)) -> (r: Option<(i128, u32, bool)>)
    requires
        valid(a),
        valid(b),
    ensures
        r == decimal_checked_sub(a, b),
        r matches Some(p) ==> valid(p),
        a.0 == 0 ==> r == Some(((-b.0) as i128, b.1, if b.0 != 0 { !b.2 } else { b.2 })),
        a.0 != 0 && b.0 == 0 ==> r == Some(a),
        a.0 != 0 && b.0 != 0 && magnitude(exact_difference(a.0, a.1, b.0, b.1)) <= MAX_MANTISSA
            ==> r == Some(signed(exact_difference(a.0, a.1, b.0, b.1), max_scale(a.1, b.1) as int)),
{
    let mut x = Decimal::from_i128_with_scale(a.0, a.1);
    x.set_sign_negative(a.2);
    let mut y = Decimal::from_i128_with_scale(b.0, b.1);
    y.set_sign_negative(b.2);
    match x.checked_sub(y) {
        Some(d) => Some((d.mantissa(), d.scale(), d.is_sign_negative())),
        None => None,
    }
}

/// Calls `Decimal::checked_mul` of `rust_decimal` on the decimals with the given parts.
/// Claimed: the result is named `decimal_checked_mul`; a result holds valid parts; a zero
/// operand gives a positive zero at scale 0; when both are nonzero, the scales add up to at
/// most 28 and the product of the mantissas fits in 96 bits, that exact product comes back;
/// a product whose value is below (2^96 - 1) / 10 in magnitude always comes back; a result
/// is rounded as `rounded_product` states.
#[verifier::external_body]
fn rd_checked_mul(a: (i128, u32, bool), b: (i128, u32, bool)) -> (r: Option<(i128, u32, bool)>)
    requires
        valid(a),
        valid(b),
    ensures
        r == decimal_checked_mul(a, b),
        r matches Some(p) ==> valid(p),
        a.0 == 0 || b.0 == 0 ==> r == Some((0i128, 0u32, false)),
        a.0 != 0 && b.0 != 0 && a.1 + b.1 <= MAX_SCALE && magnitude(a.0 * b.0) <= MAX_MANTISSA
            ==> r == Some(signed(a.0 * b.0, a.1 + b.1)),
        magnitude(a.0 * b.0) * 10 < MAX_MANTISSA * pow10((a.1 + b.1) as nat) ==> r is Some,
        r matches Some(p) ==> rounded_product(a, b, p),
{
    let mut x = Decimal::from_i128_with_scale(a.0, a.1);
    x.set_sign_negative(a.2);
    let mut y = Decimal::from_i128_with_scale(b.0, b.1);
    y.set_sign_negative(b.2);
    match x.checked_mul(y) {
        Some(d) => Some((d.mantissa(), d.scale(), d.is_sign_negative())),
        None => None,
    }
}

/// Calls `Decimal::checked_div` of `rust_decimal` on the decimals with the given parts.
/// Claimed: the result is named `decimal_checked_div`; a result holds valid parts; a zero
/// divisor gives `None`; a zero dividend over a nonzero divisor gives a positive zero at
/// scale 0; a quotient whose value is below (2^96 - 1) / 10 in magnitude always comes back;
/// a result is rounded as `rounded_quotient` states.  To which scale it is rounded is left
/// to the name.
#[verifier::external_body]
fn rd_checked_div(a: (i128, u32, bool), b: (i128, u32, bool)) -> (r: Option<(i128, u32, bool)>)
    requires
        valid(a),
        valid(b),
    ensures
        r == decimal_checked_div(a, b),
        r matches Some(p) ==> valid(p),
        b.0 == 0 ==> r is None,
        a.0 == 0 && b.0 != 0 ==> r == Some((0i128, 0u32, false)),
        b.0 != 0 && magnitude(a.0 as int) * pow10(b.1 as nat) * 10 < MAX_MANTISSA * magnitude(
            b.0 as int,
        ) * pow10(a.1 as nat) ==> r is Some,
        r matches Some(p) ==> rounded_quotient(a, b, p),
{
    let mut x = Decimal::from_i128_with_scale(a.0, a.1);
    x.set_sign_negative(a.2);
    let mut y = Decimal::from_i128_with_scale(b.0, b.1);
    y.set_sign_negative(b.2);
    match x.checked_div(y) {
        Some(d) => Some((d.mantissa(), d.scale(), d.is_sign_negative())),
        None => None,
    }
}

/// Calls `<Decimal as PartialOrd>::lt` of `rust_decimal`.
/// Claimed: decimals are ordered by their numeric values (a zero of either sign is zero).
#[verifier::external_body]
fn rd_less_than(a: (i128, u32, bool), b: (i128, u32, bool)) -> (r: bool)
    requires
        valid(a),
        valid(b),
    ensures
        r == less_than(a.0 as int, a.1, b.0 as int, b.1),
{
    let mut x = Decimal::from_i128_with_scale(a.0, a.1);
    x.set_sign_negative(a.2);
    let mut y = Decimal::from_i128_with_scale(b.0, b.1);
    y.set_sign_negative(b.2);
    x < y
}

/// Calls `Decimal::round_dp` of `rust_decimal` (round half to even).
/// Claimed: the result is `round_dp_parts`, as the source of `round_dp_with_strategy` shows.
#[verifier::external_body]
fn rd_round_dp(p: (i128, u32, bool), dp: u32) -> (r: (i128, u32, bool))
    requires
        valid(p),
    ensures
        r == round_dp_parts(p, dp),
{
    let mut x = Decimal::from_i128_with_scale(p.0, p.1);
    x.set_sign_negative(p.2);
    let d = x.round_dp(dp);
    (d.mantissa(), d.scale(), d.is_sign_negative())
}

/// Calls `<Decimal as FromStr>::from_str` of `rust_decimal`.
/// Claimed: the result is named `decimal_from_str` of the text; a parsed value holds valid
/// parts; an empty text, or one holding a character other than digits, `.`, `+`, `-`, `_`,
/// `e` and `E`, is an error; a plain decimal text (optional minus, digits with at most one
/// point between digits, at most 28 digits) is read exactly: its digits give the mantissa,
/// the digits after the point the scale, and a zero is positive.
#[verifier::external_body]
fn rd_from_str(text: &str) -> (r: Result<(i128, u32, bool), rust_decimal::Error>)
    ensures
        r is Ok <==> decimal_from_str(text@) is Some,
        r matches Ok(p) ==> decimal_from_str(text@) == Some(p) && valid(p),
        text@.len() == 0 ==> r is Err,
        (exists|i: int| 0 <= i < text@.len() && !decimal_text_char(#[trigger] text@[i])) ==> r is Err,
        plain_decimal_text(text@) ==> r is Ok,
        r matches Ok(p) ==> (plain_decimal_text(text@) ==> p == signed(plain_decimal_mantissa(text@), plain_decimal_scale(text@))),
{
    match <Decimal as core::str::FromStr>::from_str(text) {
        Ok(d) => Ok((d.mantissa(), d.scale(), d.is_sign_negative())),
        Err(e) => Err(e),
    }
}

/// A decimal number `mantissa / 10^scale`, with the range of `rust_decimal::Decimal`.
/// `negative` is the sign flag: it follows the mantissa's sign, and tells `-0` from `0`.
/// Equality is equality of the representation (mantissa, scale and sign flag).
#[derive(Clone, Copy, Debug, PartialEq, Eq, Structural)]
pub struct Dec {
    pub mantissa: i128,
    pub scale: u32,
    pub negative: bool,
}

/// The error of a text that is no decimal number.
pub struct DecimalParseError {
    pub cause: rust_decimal::Error,
}

/// The decimal that an optional triple of parts stands for; parts out of range stand for
/// none.
pub open spec fn dec_of(p: Option<(i128, u32, bool)>) -> Option<Dec> {
    match p {
        Some(parts) => if valid(parts) {
            Some(Dec { mantissa: parts.0, scale: parts.1, negative: parts.2 })
        } else {
            None
        },
        None => None,
    }
}

/// `a + b`: adding zero gives back the other operand; a sum that fits in 96 bits at the
/// larger scale is exact; otherwise what `rust_decimal` returns (`None` on overflow).
pub open spec fn dec_add(a: Dec, b: Dec) -> Option<Dec> {
    if a.mantissa == 0 {
        Some(b)
    } else if b.mantissa == 0 {
        Some(a)
    } else if magnitude(exact_sum(a.mantissa, a.scale, b.mantissa, b.scale)) <= MAX_MANTISSA {
        Some(
            dec(
                exact_sum(a.mantissa, a.scale, b.mantissa, b.scale),
                max_scale(a.scale, b.scale) as int,
            ),
        )
    } else {
        dec_of(decimal_checked_add(a.parts(), b.parts()))
    }
}

/// `a - b`: `0 - b` negates `b` (the sign flag of a zero `b` stays), `a - 0` gives `a`; a
/// difference that fits in 96 bits at the larger scale is exact; otherwise what
/// `rust_decimal` returns (`None` on overflow).
pub open spec fn dec_sub(a: Dec, b: Dec) -> Option<Dec> {
    if a.mantissa == 0 {
        Some(
            Dec {
                mantissa: (-b.mantissa) as i128,
                scale: b.scale,
                negative: if b.mantissa != 0 {
                    !b.negative
                } else {
                    b.negative
                },
            },
        )
    } else if b.mantissa == 0 {
        Some(a)
    } else if magnitude(exact_difference(a.mantissa, a.scale, b.mantissa, b.scale))
        <= MAX_MANTISSA {
        Some(
            dec(
                exact_difference(a.mantissa, a.scale, b.mantissa, b.scale),
                max_scale(a.scale, b.scale) as int,
            ),
        )
    } else {
        dec_of(decimal_checked_sub(a.parts(), b.parts()))
    }
}

/// `a * b`: a zero operand gives zero at scale 0; a product whose scale is at most 28 and
/// whose mantissa fits in 96 bits is exact; otherwise what `rust_decimal` returns (`None`
/// on overflow), rounded as `rounded_product` states.
pub open spec fn dec_mul(a: Dec, b: Dec) -> Option<Dec> {
    if a.mantissa == 0 || b.mantissa == 0 {
        Some(dec(0, 0))
    } else if a.scale + b.scale <= MAX_SCALE && magnitude(a.mantissa * b.mantissa)
        <= MAX_MANTISSA {
        Some(dec(a.mantissa * b.mantissa, a.scale + b.scale))
    } else {
        match decimal_checked_mul(a.parts(), b.parts()) {
            Some(p) => if rounded_product(a.parts(), b.parts(), p) {
                dec_of(Some(p))
            } else {
                None
            },
            None => None,
        }
    }
}

/// `a / b`: `None` for a zero divisor; a zero dividend gives zero at scale 0; otherwise
/// what `rust_decimal` returns (`None` on overflow), rounded as `rounded_quotient` states.
pub open spec fn dec_div(a: Dec, b: Dec) -> Option<Dec> {
    if b.mantissa == 0 {
        None
    } else if a.mantissa == 0 {
        Some(dec(0, 0))
    } else {
        match decimal_checked_div(a.parts(), b.parts()) {
            Some(p) => if rounded_quotient(a.parts(), b.parts(), p) {
                dec_of(Some(p))
            } else {
                None
            },
            None => None,
        }
    }
}

/// Sum of two optional decimals: `None` if either is missing or the sum overflows.
pub open spec fn opt_add(a: Option<Dec>, b: Option<Dec>) -> Option<Dec> {
    match (a, b) {
        (Some(x), Some(y)) => dec_add(x, y),
        _ => None,
    }
}

/// Difference of two optional decimals.
pub open spec fn opt_sub(a: Option<Dec>, b: Option<Dec>) -> Option<Dec> {
    match (a, b) {
        (Some(x), Some(y)) => dec_sub(x, y),
        _ => None,
    }
}

/// Product of two optional decimals.
pub open spec fn opt_mul(a: Option<Dec>, b: Option<Dec>) -> Option<Dec> {
    match (a, b) {
        (Some(x), Some(y)) => dec_mul(x, y),
        _ => None,
    }
}

/// Quotient of two optional decimals.
pub open spec fn opt_div(a: Option<Dec>, b: Option<Dec>) -> Option<Dec> {
    match (a, b) {
        (Some(x), Some(y)) => dec_div(x, y),
        _ => None,
    }
}

/// Numeric `a < b`.
pub open spec fn dec_lt(a: Dec, b: Dec) -> bool {
    less_than(a.mantissa as int, a.scale, b.mantissa as int, b.scale)
}

/// `Decimal::min`: `b` when `a > b`, otherwise `a`.
pub open spec fn dec_min(a: Dec, b: Dec) -> Dec {
    if dec_lt(b, a) {
        b
    } else {
        a
    }
}

/// `Decimal::max`: `b` when `a < b`, otherwise `a`.
pub open spec fn dec_max(a: Dec, b: Dec) -> Dec {
    if dec_lt(a, b) {
        b
    } else {
        a
    }
}

/// `a` rounded to `dp` digits after the point, half to even.
#[verifier::opaque]
pub open spec fn dec_round_dp(a: Dec, dp: u32) -> Dec {
    let p = round_dp_parts(a.parts(), dp);
    Dec { mantissa: p.0, scale: p.1, negative: p.2 }
}

/// The decimal with the given mantissa and scale (a zero is positive).
pub open spec fn dec(m: int, s: int) -> Dec {
    Dec { mantissa: m as i128, scale: s as u32, negative: m < 0 }
}

/// `-a`: `rust_decimal` negation flips the sign flag, of a zero too.
pub open spec fn dec_neg(a: Dec) -> Dec {
    Dec { mantissa: (-a.mantissa) as i128, scale: a.scale, negative: !a.negative }
}

impl Dec {
    /// The parts of the decimal.
    pub open spec fn parts(self) -> (i128, u32, bool) {
        (self.mantissa, self.scale, self.negative)
    }

    /// Mantissa and scale lie in the range of `rust_decimal::Decimal`, and the sign flag
    /// agrees with a nonzero mantissa.
    pub open spec fn wf(self) -> bool {
        valid(self.parts())
    }

    /// Numerically zero.
    pub open spec fn is_zero_spec(self) -> bool {
        self.mantissa == 0
    }

    /// The decimal with the given mantissa and scale, where they are in range (a zero is
    /// positive).
    pub fn from_parts(mantissa: i128, scale: u32) -> (r: Option<Dec>)
        ensures
            r is Some <==> valid_parts(mantissa as int, scale as int),
            r matches Some(d) ==> d == dec(mantissa as int, scale as int) && d.wf(),
    {
        if -MAX_MANTISSA <= mantissa && mantissa <= MAX_MANTISSA && scale <= MAX_SCALE {
            Some(Dec { mantissa, scale, negative: mantissa < 0 })
        } else {
            None
        }
    }

    /// Whether the parts are in range and the sign flag agrees with the mantissa.
    pub fn is_valid(&self) -> (r: bool)
        ensures
            r == self.wf(),
    {
        -MAX_MANTISSA <= self.mantissa && self.mantissa <= MAX_MANTISSA && self.scale <= MAX_SCALE
            && (self.mantissa <= 0 || !self.negative) && (self.mantissa >= 0 || self.negative)
    }

    /// Zero.
    pub fn zero() -> (r: Dec)
        ensures
            r == dec(0, 0),
            r.wf(),
    {
        Dec { mantissa: 0, scale: 0, negative: false }
    }

    /// One.
    pub fn one() -> (r: Dec)
        ensures
            r == dec(1, 0),
            r.wf(),
    {
        Dec { mantissa: 1, scale: 0, negative: false }
    }

    /// `Decimal::from` an unsigned integer: the integer at scale 0.
    pub fn from_u32(n: u32) -> (r: Dec)
        ensures
            r == dec(n as int, 0),
            r.wf(),
    {
        Dec { mantissa: n as i128, scale: 0, negative: false }
    }

    /// `Decimal::from` a `usize`: the integer at scale 0.
    pub fn from_usize(n: usize) -> (r: Dec)
        ensures
            r == dec(n as int, 0),
            r.wf(),
    {
        Dec { mantissa: n as i128, scale: 0, negative: false }
    }

    /// Negation: the mantissa changes sign, the scale stays and the sign flag flips.
    pub fn neg(&self) -> (r: Dec)
        requires
            self.wf(),
        ensures
            r == dec_neg(*self),
            r.wf(),
    {
        Dec { mantissa: -self.mantissa, scale: self.scale, negative: !self.negative }
    }

    /// Whether the value is zero.
    pub fn is_zero(&self) -> (r: bool)
        ensures
            r == self.is_zero_spec(),
    {
        self.mantissa == 0
    }

    /// `self + other`, `None` on overflow.
    pub fn checked_add(&self, other: &Dec) -> (r: Option<Dec>)
        requires
            self.wf(),
            other.wf(),
        ensures
            r == dec_add(*self, *other),
            r matches Some(d) ==> d.wf(),
            self.mantissa == 0 ==> r == Some(*other),
            self.mantissa != 0 && other.mantissa == 0 ==> r == Some(*self),
            self.mantissa != 0 && other.mantissa != 0 && magnitude(
                exact_sum(self.mantissa, self.scale, other.mantissa, other.scale),
            ) <= MAX_MANTISSA ==> r == Some(
                dec(
                    exact_sum(self.mantissa, self.scale, other.mantissa, other.scale),
                    max_scale(self.scale, other.scale) as int,
                ),
            ),
    {
        match rd_checked_add(self.parts_exec(), other.parts_exec()) {
            Some(p) => Some(Dec { mantissa: p.0, scale: p.1, negative: p.2 }),
            None => None,
        }
    }

    /// `self - other`, `None` on overflow.
    pub fn checked_sub(&self, other: &Dec) -> (r: Option<Dec>)
        requires
            self.wf(),
            other.wf(),
        ensures
            r == dec_sub(*self, *other),
            r matches Some(d) ==> d.wf(),
            self.mantissa == 0 ==> r == Some(
                Dec {
                    mantissa: (-other.mantissa) as i128,
                    scale: other.scale,
                    negative: if other.mantissa != 0 {
                        !other.negative
                    } else {
                        other.negative
                    },
                },
            ),
            other.mantissa == 0 && self.mantissa != 0 ==> r == Some(*self),
            self.mantissa != 0 && other.mantissa != 0 && magnitude(
                exact_difference(self.mantissa, self.scale, other.mantissa, other.scale),
            ) <= MAX_MANTISSA ==> r == Some(
                dec(
                    exact_difference(self.mantissa, self.scale, other.mantissa, other.scale),
                    max_scale(self.scale, other.scale) as int,
                ),
            ),
    {
        match rd_checked_sub(self.parts_exec(), other.parts_exec()) {
            Some(p) => Some(Dec { mantissa: p.0, scale: p.1, negative: p.2 }),
            None => None,
        }
    }

    /// `self * other`, `None` on overflow.
    pub fn checked_mul(&self, other: &Dec) -> (r: Option<Dec>)
        requires
            self.wf(),
            other.wf(),
        ensures
            r == dec_mul(*self, *other),
            r matches Some(d) ==> d.wf(),
            self.mantissa == 0 || other.mantissa == 0 ==> r == Some(dec(0, 0)),
            self.mantissa != 0 && other.mantissa != 0 && self.scale + other.scale <= MAX_SCALE
                && magnitude(self.mantissa * other.mantissa) <= MAX_MANTISSA ==> r == Some(
                dec(self.mantissa * other.mantissa, self.scale + other.scale),
            ),
            magnitude(self.mantissa * other.mantissa) * 10 < MAX_MANTISSA * pow10(
                (self.scale + other.scale) as nat,
            ) ==> r is Some,
            r matches Some(d) ==> rounded_product(self.parts(), other.parts(), d.parts()),
    {
        match rd_checked_mul(self.parts_exec(), other.parts_exec()) {
            Some(p) => Some(Dec { mantissa: p.0, scale: p.1, negative: p.2 }),
            None => None,
        }
    }

    /// `self / other`, `None` for a zero divisor or on overflow.
    pub fn checked_div(&self, other: &Dec) -> (r: Option<Dec>)
        requires
            self.wf(),
            other.wf(),
        ensures
            r == dec_div(*self, *other),
            r matches Some(d) ==> d.wf(),
            other.mantissa == 0 ==> r is None,
            self.mantissa == 0 && other.mantissa != 0 ==> r == Some(dec(0, 0)),
            other.mantissa != 0 && magnitude(self.mantissa as int) * pow10(other.scale as nat) * 10
                < MAX_MANTISSA * magnitude(other.mantissa as int) * pow10(self.scale as nat)
                ==> r is Some,
            r matches Some(d) ==> rounded_quotient(self.parts(), other.parts(), d.parts()),
    {
        match rd_checked_div(self.parts_exec(), other.parts_exec()) {
            Some(p) => Some(Dec { mantissa: p.0, scale: p.1, negative: p.2 }),
            None => None,
        }
    }

    /// The parts of the decimal.
    fn parts_exec(&self) -> (r: (i128, u32, bool))
        ensures
            r == self.parts(),
    {
        (self.mantissa, self.scale, self.negative)
    }

    /// Numeric `self < other`.
    pub fn lt(&self, other: &Dec) -> (r: bool)
        requires
            self.wf(),
            other.wf(),
        ensures
            r == dec_lt(*self, *other),
    {
        rd_less_than(self.parts_exec(), other.parts_exec())
    }

    /// `Decimal::min`.
    pub fn min(&self, other: &Dec) -> (r: Dec)
        requires
            self.wf(),
            other.wf(),
        ensures
            r == dec_min(*self, *other),
            r.wf(),
    {
        if other.lt(self) {
            *other
        } else {
            *self
        }
    }

    /// `Decimal::max`.
    pub fn max(&self, other: &Dec) -> (r: Dec)
        requires
            self.wf(),
            other.wf(),
        ensures
            r == dec_max(*self, *other),
            r.wf(),
    {
        if self.lt(other) {
            *other
        } else {
            *self
        }
    }

    /// `Decimal::round_dp`: round half to even to `dp` digits after the point.
    pub fn round_dp(&self, dp: u32) -> (r: Dec)
        requires
            self.wf(),
        ensures
            r == dec_round_dp(*self, dp),
            r.wf(),
    {
        let p = rd_round_dp(self.parts_exec(), dp);
        proof {
            reveal(dec_round_dp);
            lemma_round_dp_valid(self.parts(), dp);
        }
        Dec { mantissa: p.0, scale: p.1, negative: p.2 }
    }

    /// Parses a decimal number with `rust_decimal`.
    pub fn parse(text: &str) -> (r: Result<Dec, DecimalParseError>)
        ensures
            r is Ok <==> decimal_from_str(text@) is Some,
            r matches Ok(d) ==> Some(d) == dec_of(decimal_from_str(text@)) && d.wf(),
            text@.len() == 0 ==> r is Err,
            (exists|i: int| 0 <= i < text@.len() && !decimal_text_char(#[trigger] text@[i])) ==> r is Err,
            plain_decimal_text(text@) ==> r is Ok,
            r matches Ok(d) ==> (plain_decimal_text(text@) ==> d == dec(plain_decimal_mantissa(text@), plain_decimal_scale(text@))),
    {
        match rd_from_str(text) {
            Ok(p) => Ok(Dec { mantissa: p.0, scale: p.1, negative: p.2 }),
            Err(e) => Err(DecimalParseError { cause: e }),
        }
    }
}

/// 10^n is positive.
pub proof fn lemma_pow10_positive(n: nat)
    ensures
        pow10(n) >= 1,
    decreases n,
{
    if n > 0 {
        lemma_pow10_positive((n - 1) as nat);
    }
}

/// The value of a decimal in units of 10^-28: its mantissa written at scale 28.
pub open spec fn units(d: Dec) -> int {
    d.mantissa * pow10((MAX_SCALE - d.scale) as nat)
}

/// `a + b` is computed exactly: an operand is zero, or the exact sum fits in 96 bits.
pub open spec fn add_fits(a: Dec, b: Dec) -> bool {
    a.mantissa == 0 || b.mantissa == 0 || magnitude(
        exact_sum(a.mantissa, a.scale, b.mantissa, b.scale),
    ) <= MAX_MANTISSA
}

/// `a - b` is computed exactly: an operand is zero, or the exact difference fits in 96 bits.
pub open spec fn sub_fits(a: Dec, b: Dec) -> bool {
    a.mantissa == 0 || b.mantissa == 0 || magnitude(
        exact_difference(a.mantissa, a.scale, b.mantissa, b.scale),
    ) <= MAX_MANTISSA
}

/// `a * b` is computed exactly: an operand is zero, or the scales add up to at most 28 and
/// the product of the mantissas fits in 96 bits.
pub open spec fn mul_fits(a: Dec, b: Dec) -> bool {
    a.mantissa == 0 || b.mantissa == 0 || (a.scale + b.scale <= MAX_SCALE && magnitude(
        a.mantissa * b.mantissa,
    ) <= MAX_MANTISSA)
}

/// 10^(x + y) = 10^x × 10^y.
pub proof fn lemma_pow10_add(x: nat, y: nat)
    ensures
        pow10(x + y) == pow10(x) * pow10(y),
    decreases y,
{
    if y > 0 {
        lemma_pow10_add(x, (y - 1) as nat);
        assert(pow10(x + y) == 10 * pow10((x + y - 1) as nat));
        assert(pow10(y) == 10 * pow10((y - 1) as nat));
        let px = pow10(x);
        let py1 = pow10((y - 1) as nat);
        assert(px * (10 * py1) == 10 * (px * py1)) by (nonlinear_arith);
    }
}

/// 10^x grows with x.
pub proof fn lemma_pow10_monotone(x: nat, y: nat)
    requires
        x <= y,
    ensures
        pow10(x) <= pow10(y),
    decreases y,
{
    if x < y {
        lemma_pow10_monotone(x, (y - 1) as nat);
        lemma_pow10_positive((y - 1) as nat);
    }
}

/// A mantissa written at a larger scale keeps its value in units.
pub proof fn lemma_aligned_units(m: i128, s: u32, t: u32)
    requires
        s <= t <= MAX_SCALE,
    ensures
        aligned(m, s, t) * pow10((MAX_SCALE - t) as nat) == m * pow10((MAX_SCALE - s) as nat),
{
    let k1 = (t - s) as nat;
    let k2 = (MAX_SCALE - t) as nat;
    lemma_pow10_add(k1, k2);
    assert(k1 + k2 == (MAX_SCALE - s) as nat);
    let p1 = pow10(k1);
    let p2 = pow10(k2);
    assert((m * p1) * p2 == m * (p1 * p2)) by (nonlinear_arith);
}

/// A sum of valid decimals is valid.
pub broadcast proof fn lemma_add_wf(a: Dec, b: Dec)
    requires
        a.wf(),
        b.wf(),
    ensures
        (#[trigger] dec_add(a, b)) matches Some(r) ==> r.wf(),
{
}

/// A difference of valid decimals is valid.
pub broadcast proof fn lemma_sub_wf(a: Dec, b: Dec)
    requires
        a.wf(),
        b.wf(),
    ensures
        (#[trigger] dec_sub(a, b)) matches Some(r) ==> r.wf(),
{
}

/// A product of valid decimals is valid.
pub broadcast proof fn lemma_mul_wf(a: Dec, b: Dec)
    requires
        a.wf(),
        b.wf(),
    ensures
        (#[trigger] dec_mul(a, b)) matches Some(r) ==> r.wf(),
{
}

/// A quotient of valid decimals is valid.
pub broadcast proof fn lemma_div_wf(a: Dec, b: Dec)
    requires
        a.wf(),
        b.wf(),
    ensures
        (#[trigger] dec_div(a, b)) matches Some(r) ==> r.wf(),
{
}

/// The arithmetic keeps decimals valid.
pub broadcast group group_ops_wf {
    lemma_add_wf,
    lemma_sub_wf,
    lemma_mul_wf,
    lemma_div_wf,
}

/// Zero is worth no units.
pub proof fn lemma_units_zero()
    ensures
        units(dec(0, 0)) == 0,
{
    let z = dec(0, 0);
    let pz = pow10((MAX_SCALE - z.scale) as nat);
    assert(z.mantissa * pz == 0) by (nonlinear_arith)
        requires
            z.mantissa == 0,
    ;
}

/// Negation negates the value and keeps the decimal valid.
pub proof fn lemma_units_neg(a: Dec)
    requires
        a.wf(),
    ensures
        dec_neg(a).wf(),
        units(dec_neg(a)) == -units(a),
{
    let pa = pow10((MAX_SCALE - a.scale) as nat);
    assert((-a.mantissa) * pa == -(a.mantissa * pa)) by (nonlinear_arith);
}

/// The smaller and the larger of two decimals have the smaller and the larger value.
pub proof fn lemma_units_min_max(a: Dec, b: Dec)
    requires
        a.wf(),
        b.wf(),
    ensures
        units(dec_min(a, b)) == if units(b) < units(a) {
            units(b)
        } else {
            units(a)
        },
        units(dec_max(a, b)) == if units(a) < units(b) {
            units(b)
        } else {
            units(a)
        },
        dec_min(a, b).wf(),
        dec_max(a, b).wf(),
{
    lemma_units_lt(a, b);
    lemma_units_lt(b, a);
}

/// Numeric order is the order of the values in units.
pub proof fn lemma_units_lt(a: Dec, b: Dec)
    requires
        a.wf(),
        b.wf(),
    ensures
        dec_lt(a, b) == (units(a) < units(b)),
{
    let x = pow10(b.scale as nat);
    let y = pow10(a.scale as nat);
    let p = pow10((MAX_SCALE - a.scale) as nat);
    let q = pow10((MAX_SCALE - b.scale) as nat);
    let t = pow10(MAX_SCALE as nat);
    lemma_pow10_add(a.scale as nat, (MAX_SCALE - a.scale) as nat);
    lemma_pow10_add(b.scale as nat, (MAX_SCALE - b.scale) as nat);
    assert(a.scale as nat + (MAX_SCALE - a.scale) as nat == MAX_SCALE as nat);
    assert(b.scale as nat + (MAX_SCALE - b.scale) as nat == MAX_SCALE as nat);
    lemma_pow10_positive(a.scale as nat);
    lemma_pow10_positive(b.scale as nat);
    lemma_pow10_positive((MAX_SCALE - a.scale) as nat);
    lemma_pow10_positive((MAX_SCALE - b.scale) as nat);
    lemma_pow10_positive(MAX_SCALE as nat);
    let am = a.mantissa as int;
    let bm = b.mantissa as int;
    assert(am * x * (p * q) == am * p * t) by (nonlinear_arith)
        requires
            x * q == t,
    ;
    assert(bm * y * (p * q) == bm * q * t) by (nonlinear_arith)
        requires
            y * p == t,
    ;
    assert((am * x < bm * y) == (am * x * (p * q) < bm * y * (p * q))) by (nonlinear_arith)
        requires
            p > 0,
            q > 0,
    ;
    assert((am * p * t < bm * q * t) == (am * p < bm * q)) by (nonlinear_arith)
        requires
            t > 0,
    ;
}

/// An exact sum adds the values.
pub proof fn lemma_units_add(a: Dec, b: Dec)
    requires
        a.wf(),
        b.wf(),
        add_fits(a, b),
    ensures
        dec_add(a, b) matches Some(r) && r.wf() && units(r) == units(a) + units(b),
{
    broadcast use group_ops_wf;

    if a.mantissa != 0 && b.mantissa != 0 {
        let t = max_scale(a.scale, b.scale);
        lemma_aligned_units(a.mantissa, a.scale, t);
        lemma_aligned_units(b.mantissa, b.scale, t);
        let e = exact_sum(a.mantissa, a.scale, b.mantissa, b.scale);
        let pt = pow10((MAX_SCALE - t) as nat);
        let x = aligned(a.mantissa, a.scale, t);
        let y = aligned(b.mantissa, b.scale, t);
        assert(e == x + y);
        assert((x + y) * pt == x * pt + y * pt) by (nonlinear_arith);
    }
}

/// An exact difference subtracts the values.
pub proof fn lemma_units_sub(a: Dec, b: Dec)
    requires
        a.wf(),
        b.wf(),
        sub_fits(a, b),
    ensures
        dec_sub(a, b) matches Some(r) && r.wf() && units(r) == units(a) - units(b),
{
    broadcast use group_ops_wf;

    if a.mantissa != 0 && b.mantissa != 0 {
        let t = max_scale(a.scale, b.scale);
        lemma_aligned_units(a.mantissa, a.scale, t);
        lemma_aligned_units(b.mantissa, b.scale, t);
        let e = exact_difference(a.mantissa, a.scale, b.mantissa, b.scale);
        let pt = pow10((MAX_SCALE - t) as nat);
        let x = aligned(a.mantissa, a.scale, t);
        let y = aligned(b.mantissa, b.scale, t);
        assert(e == x - y);
        assert((x - y) * pt == x * pt - y * pt) by (nonlinear_arith);
    } else if a.mantissa == 0 {
        let pb = pow10((MAX_SCALE - b.scale) as nat);
        assert((-b.mantissa) * pb == -(b.mantissa * pb)) by (nonlinear_arith);
    }
}

/// An exact product multiplies the values (in units, up to the factor 10^28).
pub proof fn lemma_units_mul(a: Dec, b: Dec)
    requires
        a.wf(),
        b.wf(),
        mul_fits(a, b),
    ensures
        dec_mul(a, b) matches Some(r) && r.wf() && units(r) * pow10(MAX_SCALE as nat) == units(a)
            * units(b),
{
    broadcast use group_ops_wf;

    if a.mantissa != 0 && b.mantissa != 0 {
        let ka = (MAX_SCALE - a.scale) as nat;
        let kb = (MAX_SCALE - b.scale) as nat;
        let kr = (MAX_SCALE - a.scale - b.scale) as nat;
        lemma_pow10_add(kr, MAX_SCALE as nat);
        lemma_pow10_add(ka, kb);
        assert(ka + kb == kr + MAX_SCALE as nat);
        let pa = pow10(ka);
        let pb = pow10(kb);
        let pr = pow10(kr);
        let t = pow10(MAX_SCALE as nat);
        let am = a.mantissa as int;
        let bm = b.mantissa as int;
        assert((am * bm) * pr * t == (am * pa) * (bm * pb)) by (nonlinear_arith)
            requires
                pa * pb == pr * t,
        ;
        let r = dec(am * bm, (a.scale + b.scale) as int);
        assert(dec_mul(a, b) == Some(r));
        assert(r.mantissa == am * bm);
        assert(MAX_SCALE - r.scale == kr);
        assert(units(r) == (am * bm) * pr);
        assert(units(a) == am * pa);
        assert(units(b) == bm * pb);
        assert(units(r) * t == units(a) * units(b));
    } else {
        let pa = pow10((MAX_SCALE - a.scale) as nat);
        let pb = pow10((MAX_SCALE - b.scale) as nat);
        assert(units(a) * units(b) == 0) by (nonlinear_arith)
            requires
                a.mantissa == 0 || b.mantissa == 0,
                units(a) == a.mantissa * pa,
                units(b) == b.mantissa * pb,
        ;
        let z = dec(0, 0);
        let pz = pow10((MAX_SCALE - z.scale) as nat);
        assert(units(z) == z.mantissa * pz);
        assert(z.mantissa * pz == 0) by (nonlinear_arith)
            requires
                z.mantissa == 0,
        ;
    }
}

/// A value rounded to `dp` digits after the point has at most `dp` of them.
pub proof fn lemma_round_dp_scale(a: Dec, dp: u32)
    ensures
        dec_round_dp(a, dp).scale <= dp,
{
    reveal(dec_round_dp);
}

/// `n / p` rounded half to even, for `n >= 0`: the quotient, plus one where the
/// remainder passes half of `p`, or is half of it and the quotient is odd.
pub open spec fn half_even(n: int, p: int) -> int {
    let q = n / p;
    let r = n % p;
    if r > p / 2 || (r == p / 2 && q % 2 == 1) {
        q + 1
    } else {
        q
    }
}

/// A value in units rounded half to even to a multiple of `p`, counted in multiples of `p`
/// (the magnitude is rounded and the sign kept).
pub open spec fn signed_half_even(u: int, p: int) -> int {
    if u < 0 {
        -half_even(-u, p)
    } else {
        half_even(u, p)
    }
}

/// Rounding half to even never reverses the order of two nonnegative numbers.
proof fn lemma_half_even_monotone(n1: int, n2: int, p: int)
    requires
        0 <= n1 <= n2,
        p > 0,
    ensures
        0 <= half_even(n1, p) <= half_even(n2, p),
{
    lemma_div_is_ordered(n1, n2, p);
    lemma_div_is_ordered(0, n1, p);
    lemma_fundamental_div_mod(n1, p);
    lemma_fundamental_div_mod(n2, p);
    lemma_mod_bound(n1, p);
    lemma_mod_bound(n2, p);
    let q1 = n1 / p;
    let q2 = n2 / p;
    if q1 == q2 {
        assert(n1 % p <= n2 % p) by (nonlinear_arith)
            requires
                n1 == p * q1 + n1 % p,
                n2 == p * q1 + n2 % p,
                n1 <= n2,
        ;
    }
}

/// Signed rounding never reverses the order of two values.
proof fn lemma_signed_half_even_monotone(u: int, v: int, p: int)
    requires
        u <= v,
        p > 0,
    ensures
        signed_half_even(u, p) <= signed_half_even(v, p),
{
    if u < 0 && v < 0 {
        lemma_half_even_monotone(-v, -u, p);
    } else if u < 0 {
        lemma_half_even_monotone(0, -u, p);
        lemma_half_even_monotone(0, v, p);
    } else {
        lemma_half_even_monotone(u, v, p);
    }
}

/// Scaling a number and a divisor by the same positive factor keeps the half-even
/// quotient.
proof fn lemma_half_even_scaled(n: int, p: int, c: int)
    requires
        n >= 0,
        p > 0,
        p % 2 == 0,
        c > 0,
    ensures
        half_even(n * c, p * c) == half_even(n, p),
{
    let q = n / p;
    let r = n % p;
    lemma_fundamental_div_mod(n, p);
    lemma_mod_bound(n, p);
    assert(n * c == q * (p * c) + r * c && 0 <= r * c < p * c) by (nonlinear_arith)
        requires
            n == p * q + r,
            0 <= r < p,
            c > 0,
    ;
    lemma_fundamental_div_mod_converse(n * c, p * c, q, r * c);
    let h = p / 2;
    assert(p == 2 * h);
    assert((p * c) / 2 == h * c) by (nonlinear_arith)
        requires
            p == 2 * h,
    ;
    assert((r * c > h * c) == (r > h)) by (nonlinear_arith)
        requires
            c > 0,
    ;
    assert((r * c == h * c) == (r == h)) by (nonlinear_arith)
        requires
            c > 0,
    ;
}

/// A multiple of `p` rounds to itself.
proof fn lemma_half_even_exact(k: int, p: int)
    requires
        k >= 0,
        p > 0,
        p % 2 == 0,
    ensures
        half_even(k * p, p) == k,
{
    lemma_fundamental_div_mod_converse(k * p, p, k, 0);
}

/// Rounding to `dp < 28` digits rounds the value in units, half to even, to a multiple of
/// 10^(28 - dp).
pub proof fn lemma_round_dp_units(a: Dec, dp: u32)
    requires
        a.wf(),
        dp < MAX_SCALE,
    ensures
        dec_round_dp(a, dp).wf(),
        units(dec_round_dp(a, dp)) == signed_half_even(units(a), pow10((MAX_SCALE - dp) as nat))
            * pow10((MAX_SCALE - dp) as nat),
{
    reveal(dec_round_dp);
    lemma_round_dp_valid(a.parts(), dp);
    let big_p = pow10((MAX_SCALE - dp) as nat);
    let kp = (MAX_SCALE - dp) as nat;
    lemma_pow10_positive(kp);
    assert(pow10(kp) == 10 * pow10((kp - 1) as nat));
    assert(big_p % 2 == 0);
    let m = a.mantissa as int;
    let u = units(a);
    if a.scale <= dp {
        let c = pow10((dp - a.scale) as nat);
        lemma_pow10_add((dp - a.scale) as nat, kp);
        assert((dp - a.scale) as nat + kp == (MAX_SCALE - a.scale) as nat);
        lemma_pow10_positive((dp - a.scale) as nat);
        let k = magnitude(m) * c;
        let mm = magnitude(m);
        assert(mm >= 0);
        assert(k >= 0) by (nonlinear_arith)
            requires
                k == mm * c,
                mm >= 0,
                c > 0,
        ;
        let ps = pow10((MAX_SCALE - a.scale) as nat);
        assert(ps == c * big_p);
        assert(u == m * ps);
        assert(magnitude(u) == k * big_p) by (nonlinear_arith)
            requires
                u == m * ps,
                ps == c * big_p,
                k == mm * c,
                mm == magnitude(m),
                magnitude(m) == if m < 0 { -m } else { m },
                magnitude(u) == if u < 0 { -u } else { u },
                c > 0,
                big_p > 0,
        ;
        lemma_half_even_exact(k, big_p);
        assert(signed_half_even(u, big_p) * big_p == u) by (nonlinear_arith)
            requires
                signed_half_even(u, big_p) == if u < 0 { -k } else { k },
                magnitude(u) == k * big_p,
                magnitude(u) == if u < 0 { -u } else { u },
        ;
    } else if m == 0 {
        assert(u == 0) by (nonlinear_arith)
            requires
                u == m * pow10((MAX_SCALE - a.scale) as nat),
                m == 0,
        ;
        assert(half_even(0, big_p) == 0);
        let r = dec_round_dp(a, dp);
        assert(r.mantissa == 0);
        assert(units(r) == 0) by (nonlinear_arith)
            requires
                units(r) == r.mantissa * big_p,
                r.mantissa == 0,
        ;
    } else {
        let k1 = (a.scale - dp) as nat;
        let c = pow10((MAX_SCALE - a.scale) as nat);
        let pp = pow10(k1);
        lemma_pow10_add(k1, (MAX_SCALE - a.scale) as nat);
        assert(k1 + (MAX_SCALE - a.scale) as nat == kp);
        lemma_pow10_positive(k1);
        lemma_pow10_positive((MAX_SCALE - a.scale) as nat);
        assert(pp == 10 * pow10((k1 - 1) as nat));
        assert(pp % 2 == 0);
        let am = magnitude(m);
        lemma_half_even_scaled(am, pp, c);
        let q = rounded_magnitude(m, a.scale, dp);
        assert(magnitude(u) == am * c) by (nonlinear_arith)
            requires
                u == m * c,
                am == if m < 0 { -m } else { m },
                magnitude(u) == if u < 0 { -u } else { u },
                c > 0,
        ;
        assert((u < 0) == (m < 0)) by (nonlinear_arith)
            requires
                u == m * c,
                c > 0,
        ;
        assert(half_even(am * c, big_p) == q);
        let r = dec_round_dp(a, dp);
        assert(units(r) == r.mantissa * big_p);
    }
}

/// Rounding never reverses the order of two decimals.
pub proof fn lemma_round_dp_monotone(a: Dec, b: Dec, dp: u32)
    requires
        a.wf(),
        b.wf(),
        dp < MAX_SCALE,
        !dec_lt(b, a),
    ensures
        !dec_lt(dec_round_dp(b, dp), dec_round_dp(a, dp)),
{
    lemma_units_lt(b, a);
    lemma_round_dp_units(a, dp);
    lemma_round_dp_units(b, dp);
    let big_p = pow10((MAX_SCALE - dp) as nat);
    lemma_pow10_positive((MAX_SCALE - dp) as nat);
    lemma_signed_half_even_monotone(units(a), units(b), big_p);
    let ra = signed_half_even(units(a), big_p);
    let rb = signed_half_even(units(b), big_p);
    assert(ra * big_p <= rb * big_p) by (nonlinear_arith)
        requires
            ra <= rb,
            big_p > 0,
    ;
    lemma_units_lt(dec_round_dp(b, dp), dec_round_dp(a, dp));
}

/// Rounding never grows the magnitude, keeps the scale in range and keeps the sign flag
/// of a nonzero result.
proof fn lemma_round_dp_valid(p: (i128, u32, bool), dp: u32)
    requires
        valid(p),
    ensures
        valid(round_dp_parts(p, dp)),
{
    let (m, s, neg) = p;
    if s > dp && m != 0 {
        let k = (s - dp) as nat;
        let pk = pow10(k);
        lemma_pow10_positive(k);
        assert(pow10(k) == 10 * pow10((k - 1) as nat));
        lemma_pow10_positive((k - 1) as nat);
        let a = magnitude(m as int);
        let q = a / pk;
        assert(q * 10 <= a) by (nonlinear_arith)
            requires
                pk >= 10,
                a >= 0,
                q == a / pk,
        ;
        assert(a <= MAX_MANTISSA);
        assert(0 <= q);
        assert(q + 1 <= MAX_MANTISSA);
        let r = rounded_magnitude(m as int, s, dp);
        assert(0 <= r <= MAX_MANTISSA);
    }
}

} // verus!
