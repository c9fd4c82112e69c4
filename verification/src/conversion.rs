use vstd::prelude::*;

use crate::heap::{ExceptionType, JsError, JsResult};
use crate::value::{bytes_equal, JsNumber, Value, ValueView};

verus! {

/// What ToNumber gives: a Number of the value model, or a finite Number
/// with a fractional part, held as its truncation toward zero (which is
/// all that the integer conversions of this library read of it).
#[derive(Clone, Copy, Debug, PartialEq, Eq, Structural)]
pub enum Numeric {
    Number(JsNumber),
    Fraction(i64),
}

pub open spec fn str_undefined() -> Seq<u8> {
    seq!['u' as u8, 'n' as u8, 'd' as u8, 'e' as u8, 'f' as u8, 'i' as u8, 'n' as u8, 'e' as u8, 'd' as u8]
}

pub open spec fn str_null() -> Seq<u8> {
    seq!['n' as u8, 'u' as u8, 'l' as u8, 'l' as u8]
}

pub open spec fn str_true() -> Seq<u8> {
    seq!['t' as u8, 'r' as u8, 'u' as u8, 'e' as u8]
}

pub open spec fn str_false() -> Seq<u8> {
    seq!['f' as u8, 'a' as u8, 'l' as u8, 's' as u8, 'e' as u8]
}

pub open spec fn str_nan() -> Seq<u8> {
    seq!['N' as u8, 'a' as u8, 'N' as u8]
}

pub open spec fn str_infinity() -> Seq<u8> {
    seq!['I' as u8, 'n' as u8, 'f' as u8, 'i' as u8, 'n' as u8, 'i' as u8, 't' as u8, 'y' as u8]
}

/// The digit character of a digit value.
pub open spec fn digit_char(d: int) -> u8 {
    (d + 48) as u8
}

/// The decimal digits of a natural number, most significant first.
pub open spec fn decimal_digits(n: nat) -> Seq<u8>
    decreases n,
{
    if n < 10 {
        seq![digit_char(n as int)]
    } else {
        decimal_digits(n / 10).push(digit_char((n % 10) as int))
    }
}

/// Number::toString(n, 10) for the numbers this model holds.
pub open spec fn number_to_string(n: JsNumber) -> Seq<u8> {
    match n {
        JsNumber::NaN => str_nan(),
        JsNumber::PositiveInfinity => str_infinity(),
        JsNumber::NegativeInfinity => seq!['-' as u8] + str_infinity(),
        JsNumber::Integer(i) => if i < 0 {
            seq!['-' as u8] + decimal_digits((-i) as nat)
        } else {
            decimal_digits(i as nat)
        },
    }
}

/// ToString(v). An object converts through ToPrimitive, which finds no
/// callable `toString` or `valueOf` on the data-only objects of this heap,
/// so it throws a TypeError, as it does for a symbol.
pub open spec fn spec_to_string(v: ValueView) -> Result<Seq<u8>, ExceptionType> {
    match v {
        ValueView::Undefined => Ok(str_undefined()),
        ValueView::Null => Ok(str_null()),
        ValueView::Boolean(b) => Ok(if b { str_true() } else { str_false() }),
        ValueView::String(s) => Ok(s),
        ValueView::Number(n) => Ok(number_to_string(n)),
        _ => Err(ExceptionType::TypeError),
    }
}

/// ToBoolean(v).
pub open spec fn spec_to_boolean(v: ValueView) -> bool {
    match v {
        ValueView::Undefined => false,
        ValueView::Null => false,
        ValueView::Boolean(b) => b,
        ValueView::String(s) => s.len() > 0,
        ValueView::Number(n) => !(n is NaN || n == JsNumber::Integer(0)),
        _ => true,
    }
}

/// A StrWhiteSpaceChar of the ASCII range: tab, line feed, vertical tab,
/// form feed, carriage return and space.
pub open spec fn is_white_space(b: u8) -> bool {
    b == 9 || b == 10 || b == 11 || b == 12 || b == 13 || b == 32
}

/// The UTF-8 encoding of the two-byte StrWhiteSpaceChar U+00A0.
pub open spec fn is_white_space_2(a: u8, b: u8) -> bool {
    a == 0xC2 && b == 0xA0
}

/// The UTF-8 encoding of a three-byte StrWhiteSpaceChar: U+1680,
/// U+2000 to U+200A, U+2028, U+2029, U+202F, U+205F, U+3000 and U+FEFF.
pub open spec fn is_white_space_3(a: u8, b: u8, c: u8) -> bool {
    ||| (a == 0xE1 && b == 0x9A && c == 0x80)
    ||| (a == 0xE2 && b == 0x80 && ((0x80 <= c && c <= 0x8A) || c == 0xA8 || c == 0xA9 || c == 0xAF))
    ||| (a == 0xE2 && b == 0x81 && c == 0x9F)
    ||| (a == 0xE3 && b == 0x80 && c == 0x80)
    ||| (a == 0xEF && b == 0xBB && c == 0xBF)
}

/// The length in bytes of the white-space character that `s` starts with,
/// or 0.
pub open spec fn leading_white_space_len(s: Seq<u8>) -> int {
    if s.len() >= 1 && is_white_space(s[0]) {
        1
    } else if s.len() >= 2 && is_white_space_2(s[0], s[1]) {
        2
    } else if s.len() >= 3 && is_white_space_3(s[0], s[1], s[2]) {
        3
    } else {
        0
    }
}

/// The length in bytes of the white-space character that `s` ends with,
/// or 0.
pub open spec fn trailing_white_space_len(s: Seq<u8>) -> int {
    let n = s.len() as int;
    if n >= 1 && is_white_space(s[n - 1]) {
        1
    } else if n >= 2 && is_white_space_2(s[n - 2], s[n - 1]) {
        2
    } else if n >= 3 && is_white_space_3(s[n - 3], s[n - 2], s[n - 1]) {
        3
    } else {
        0
    }
}

pub open spec fn is_digit(b: u8) -> bool {
    48 <= b <= 57
}

/// The string without its leading white space.
pub open spec fn trim_start(s: Seq<u8>) -> Seq<u8>
    decreases s.len(),
{
    let k = leading_white_space_len(s);
    if 0 < k <= s.len() {
        trim_start(s.skip(k))
    } else {
        s
    }
}

/// The string without its trailing white space.
pub open spec fn trim_end(s: Seq<u8>) -> Seq<u8>
    decreases s.len(),
{
    let k = trailing_white_space_len(s);
    if 0 < k <= s.len() {
        trim_end(s.take(s.len() - k))
    } else {
        s
    }
}

/// The value of a string of decimal digits.
pub open spec fn digits_value(s: Seq<u8>) -> int
    decreases s.len(),
{
    if s.len() == 0 {
        0
    } else {
        digits_value(s.drop_last()) * 10 + (s.last() - 48)
    }
}

pub open spec fn all_digits(s: Seq<u8>) -> bool {
    forall|i: int| 0 <= i < s.len() ==> is_digit(#[trigger] s[i])
}

/// The Number of an optionally negated integer, or NaN where it does not
/// fit an `i64` (such a Number is outside this model).
pub open spec fn signed_integer_value(negative: bool, magnitude: int) -> JsNumber {
    let v = if negative { -magnitude } else { magnitude };
    if i64::MIN <= v <= i64::MAX {
        JsNumber::Integer(v as i64)
    } else {
        JsNumber::NaN
    }
}

/// The Number of a signed decimal integer, as [`signed_integer_value`].
pub open spec fn signed_integer_number(negative: bool, digits: Seq<u8>) -> JsNumber {
    signed_integer_value(negative, digits_value(digits))
}

/// The radix that the letter after a leading `0` selects: `x` hexadecimal,
/// `o` octal, `b` binary, in either case; 0 for any other byte.
pub open spec fn radix_of_prefix(b: u8) -> int {
    if b == 'x' as u8 || b == 'X' as u8 {
        16
    } else if b == 'o' as u8 || b == 'O' as u8 {
        8
    } else if b == 'b' as u8 || b == 'B' as u8 {
        2
    } else {
        0
    }
}

/// The value of an ASCII digit or letter as a digit (`a` and `A` are 10),
/// or 36 for any other byte.
pub open spec fn radix_digit(b: u8) -> int {
    if 48 <= b <= 57 {
        b - 48
    } else if 97 <= b <= 122 {
        b - 87
    } else if 65 <= b <= 90 {
        b - 55
    } else {
        36
    }
}

pub open spec fn all_radix_digits(s: Seq<u8>, radix: int) -> bool {
    forall|i: int| 0 <= i < s.len() ==> radix_digit(#[trigger] s[i]) < radix
}

/// The value of a string of digits in the given radix.
pub open spec fn radix_value(s: Seq<u8>, radix: int) -> int
    decreases s.len(),
{
    if s.len() == 0 {
        0
    } else {
        radix_value(s.drop_last(), radix) * radix + radix_digit(s.last())
    }
}

/// `t` is a non-decimal integer literal: `0x`, `0o` or `0b` (in either
/// case) followed by at least one digit of that radix.
pub open spec fn is_non_decimal_literal(t: Seq<u8>) -> bool {
    &&& t.len() > 2
    &&& t[0] == '0' as u8
    &&& radix_of_prefix(t[1]) > 0
    &&& all_radix_digits(t.skip(2), radix_of_prefix(t[1]))
}

/// 10 to the power `n`.
pub open spec fn pow10(n: nat) -> int
    decreases n,
{
    if n == 0 {
        1
    } else {
        10 * pow10((n - 1) as nat)
    }
}

/// `i` is the first position of `s` that holds `a` or `b`.
pub open spec fn is_first_of(s: Seq<u8>, a: u8, b: u8, i: int) -> bool {
    &&& 0 <= i < s.len()
    &&& (s[i] == a || s[i] == b)
    &&& forall|j: int| 0 <= j < i ==> s[j] != a && s[j] != b
}

/// The first position of `s` that holds `a` or `b`, or the length of `s`.
pub open spec fn position_of(s: Seq<u8>, a: u8, b: u8) -> int {
    if exists|i: int| is_first_of(s, a, b, i) {
        choose|i: int| is_first_of(s, a, b, i)
    } else {
        s.len() as int
    }
}

/// An optionally signed run of decimal digits, and its value.
pub open spec fn signed_digits(x: Seq<u8>) -> Option<int> {
    if x.len() > 1 && (x[0] == '+' as u8 || x[0] == '-' as u8) && all_digits(x.drop_first()) {
        Some(if x[0] == '-' as u8 { -digits_value(x.drop_first()) } else { digits_value(x.drop_first()) })
    } else if x.len() > 0 && all_digits(x) {
        Some(digits_value(x))
    } else {
        None
    }
}

/// An unsigned decimal literal split into its integer digits, its fraction
/// digits and its exponent: digits with at most one `.`, at least one
/// digit, then optionally `e` or `E` and an optionally signed run of
/// digits. `None` where `u` is not such a literal.
pub open spec fn decimal_parts(u: Seq<u8>) -> Option<(Seq<u8>, Seq<u8>, int)> {
    let ei = position_of(u, 'e' as u8, 'E' as u8);
    let mantissa = u.take(ei);
    let di = position_of(mantissa, '.' as u8, '.' as u8);
    let integer_digits = mantissa.take(di);
    let fraction_digits = if di < mantissa.len() { mantissa.skip(di + 1) } else { Seq::empty() };
    let exponent = if ei < u.len() { signed_digits(u.skip(ei + 1)) } else { Some(0) };
    if all_digits(integer_digits) && all_digits(fraction_digits) && integer_digits.len() + fraction_digits.len() > 0
        && exponent is Some {
        Some((integer_digits, fraction_digits, exponent->0))
    } else {
        None
    }
}

/// `m` times 10 to the power `k`, where that is an integer.
pub open spec fn scaled_integer(m: int, k: int) -> Option<int> {
    if k >= 0 {
        Some(m * pow10(k as nat))
    } else if m % pow10((-k) as nat) == 0 {
        Some(m / pow10((-k) as nat))
    } else {
        None
    }
}

/// The fractional Number whose optionally negated truncation has the
/// given magnitude, or NaN where that truncation does not fit an `i64`
/// (such a Number is outside this model).
pub open spec fn truncated_number(negative: bool, magnitude: int) -> Numeric {
    match signed_integer_value(negative, magnitude) {
        JsNumber::Integer(t) => Numeric::Fraction(t),
        _ => Numeric::Number(JsNumber::NaN),
    }
}

/// The Number of an optionally negated unsigned decimal literal with the
/// digits `m` (the point left out) times 10 to the power `k`: its integer
/// where it is one, else a fraction held as its truncation.
pub open spec fn scaled_decimal_value(negative: bool, m: int, k: int) -> Numeric {
    match scaled_integer(m, k) {
        Some(v) => Numeric::Number(signed_integer_value(negative, v)),
        None => truncated_number(negative, m / pow10((-k) as nat)),
    }
}

/// The Number of an optionally negated unsigned decimal literal, or NaN
/// where `u` is not a decimal literal.
pub open spec fn decimal_literal_value(negative: bool, u: Seq<u8>) -> Numeric {
    match decimal_parts(u) {
        Some((integer_digits, fraction_digits, exponent)) => scaled_decimal_value(
            negative,
            digits_value(integer_digits + fraction_digits),
            exponent - fraction_digits.len(),
        ),
        None => Numeric::Number(JsNumber::NaN),
    }
}

/// The Number that a trimmed numeric string denotes: the empty string is 0,
/// `Infinity` with an optional sign is infinite, a hexadecimal, octal or
/// binary literal is its integer, an optionally signed decimal literal is
/// its value, and any other string is NaN.
pub open spec fn numeric_string_value(t: Seq<u8>) -> Numeric {
    if t.len() == 0 {
        Numeric::Number(JsNumber::Integer(0))
    } else if is_non_decimal_literal(t) {
        Numeric::Number(signed_integer_value(false, radix_value(t.skip(2), radix_of_prefix(t[1]))))
    } else if t == str_infinity() || t == seq!['+' as u8] + str_infinity() {
        Numeric::Number(JsNumber::PositiveInfinity)
    } else if t == seq!['-' as u8] + str_infinity() {
        Numeric::Number(JsNumber::NegativeInfinity)
    } else if t[0] == '-' as u8 || t[0] == '+' as u8 {
        decimal_literal_value(t[0] == '-' as u8, t.drop_first())
    } else {
        decimal_literal_value(false, t)
    }
}

proof fn lemma_pow10_positive(n: nat)
    ensures
        pow10(n) >= 1,
    decreases n,
{
    if n > 0 {
        lemma_pow10_positive((n - 1) as nat);
    }
}

proof fn lemma_pow10_add(a: nat, b: nat)
    ensures
        pow10(a + b) == pow10(a) * pow10(b),
    decreases a,
{
    if a > 0 {
        lemma_pow10_add((a - 1) as nat, b);
        assert(pow10(a + b) == 10 * pow10((a - 1 + b) as nat));
        vstd::arithmetic::mul::lemma_mul_is_associative(10, pow10((a - 1) as nat), pow10(b));
    }
}

proof fn lemma_position_found(s: Seq<u8>, a: u8, b: u8, i: int)
    requires
        is_first_of(s, a, b, i),
    ensures
        position_of(s, a, b) == i,
{
    let c = choose|c: int| is_first_of(s, a, b, c);
    assert(is_first_of(s, a, b, c));
    if c < i {
        assert(s[c] != a && s[c] != b);
    } else if i < c {
        assert(s[i] != a && s[i] != b);
    }
}

proof fn lemma_position_absent(s: Seq<u8>, a: u8, b: u8)
    requires
        forall|j: int| 0 <= j < s.len() ==> s[j] != a && s[j] != b,
    ensures
        position_of(s, a, b) == s.len(),
{
    assert(!exists|i: int| is_first_of(s, a, b, i));
}

proof fn lemma_all_zero_digits(s: Seq<u8>)
    requires
        forall|i: int| 0 <= i < s.len() ==> s[i] == '0' as u8,
    ensures
        digits_value(s) == 0,
    decreases s.len(),
{
    if s.len() > 0 {
        lemma_all_zero_digits(s.drop_last());
    }
}

/// Leading zeros leave the value of a digit string unchanged.
proof fn lemma_leading_zeros(s: Seq<u8>, p: int)
    requires
        0 <= p <= s.len(),
        forall|i: int| 0 <= i < p ==> s[i] == '0' as u8,
    ensures
        digits_value(s) == digits_value(s.skip(p)),
    decreases s.len(),
{
    if p == s.len() {
        lemma_all_zero_digits(s);
        assert(s.skip(p).len() == 0);
    } else {
        let d = s.drop_last();
        lemma_leading_zeros(d, p);
        assert(d.skip(p) =~= s.skip(p).drop_last());
        assert(s.skip(p).last() == s.last());
    }
}

/// Trailing zeros multiply the value of the rest by a power of ten.
proof fn lemma_trailing_zeros(s: Seq<u8>, q: int)
    requires
        0 <= q <= s.len(),
        forall|i: int| q <= i < s.len() ==> s[i] == '0' as u8,
    ensures
        digits_value(s) == digits_value(s.take(q)) * pow10((s.len() - q) as nat),
    decreases s.len(),
{
    if q == s.len() {
        assert(s.take(q) =~= s);
    } else {
        let d = s.drop_last();
        lemma_trailing_zeros(d, q);
        assert(d.take(q) =~= s.take(q));
        let n = (s.len() - q) as nat;
        assert(pow10(n) == 10 * pow10((n - 1) as nat));
        vstd::arithmetic::mul::lemma_mul_is_associative(digits_value(s.take(q)), pow10((n - 1) as nat), 10);
        vstd::arithmetic::mul::lemma_mul_is_commutative(pow10((n - 1) as nat), 10);
    }
}

/// A digit string that starts with a non-zero digit has as many digits as
/// its value.
proof fn lemma_digits_bounds(s: Seq<u8>)
    requires
        s.len() > 0,
        all_digits(s),
        s[0] != '0' as u8,
    ensures
        pow10((s.len() - 1) as nat) <= digits_value(s) < pow10(s.len() as nat),
    decreases s.len(),
{
    let d = s.drop_last();
    assert(is_digit(s[s.len() - 1]));
    assert(pow10(s.len() as nat) == 10 * pow10((s.len() - 1) as nat));
    assert(digits_value(s) == digits_value(d) * 10 + (s.last() - 48));
    if s.len() == 1 {
        assert(d.len() == 0);
        assert(digits_value(d) == 0);
        assert(s.last() == s[0]);
        assert(pow10(0) == 1);
    } else {
        assert(pow10((s.len() - 1) as nat) == 10 * pow10((s.len() - 2) as nat));
        assert(all_digits(d)) by {
            assert forall|i: int| 0 <= i < d.len() implies is_digit(#[trigger] d[i]) by {
                assert(d[i] == s[i]);
            }
        }
        assert(d[0] == s[0]);
        lemma_digits_bounds(d);
    }
}

/// A digit string that ends with a non-zero digit has a value that ten
/// does not divide.
proof fn lemma_last_digit(s: Seq<u8>)
    requires
        s.len() > 0,
        all_digits(s),
        s.last() != '0' as u8,
    ensures
        digits_value(s) % 10 != 0,
{
    assert(is_digit(s[s.len() - 1]));
    let v = digits_value(s.drop_last());
    let c = s.last() - 48;
    assert((v * 10 + c) % 10 == c) by (nonlinear_arith)
        requires
            1 <= c <= 9,
    ;
}

/// `v * 10^z` is not a multiple of `10^(z + n)` where ten does not divide
/// `v` and `n` is positive.
proof fn lemma_not_divisible(v: int, z: nat, n: nat)
    requires
        v % 10 != 0,
        n >= 1,
    ensures
        (v * pow10(z)) % pow10(z + n) != 0,
{
    let p = pow10(z);
    let q = pow10(n);
    lemma_pow10_positive(z);
    lemma_pow10_positive(n);
    lemma_pow10_add(z, n);
    let x = v * p;
    assert(p * q >= 1) by (nonlinear_arith)
        requires
            p >= 1,
            q >= 1,
    ;
    if x % (p * q) == 0 {
        vstd::arithmetic::div_mod::lemma_fundamental_div_mod(x, p * q);
        let t = x / (p * q);
        assert(x == (p * q) * t);
        vstd::arithmetic::mul::lemma_mul_is_associative(p, q, t);
        vstd::arithmetic::mul::lemma_mul_is_commutative(v, p);
        vstd::arithmetic::mul::lemma_mul_equality_converse(p, v, q * t);
        assert(q == 10 * pow10((n - 1) as nat));
        vstd::arithmetic::mul::lemma_mul_is_associative(10, pow10((n - 1) as nat), t);
        vstd::arithmetic::mul::lemma_mul_is_commutative(10, pow10((n - 1) as nat) * t);
        vstd::arithmetic::div_mod::lemma_mod_multiples_basic(pow10((n - 1) as nat) * t, 10);
    }
}

/// A value `v * 10^z` scaled by `10^k`: an integer exactly where `z + k` is
/// not negative, `v` not being a multiple of ten.
proof fn lemma_scaled(m: int, v: int, z: nat, k: int)
    requires
        m == v * pow10(z),
        v % 10 != 0,
    ensures
        z + k >= 0 ==> scaled_integer(m, k) == Some(v * pow10((z + k) as nat)),
        z + k < 0 ==> scaled_integer(m, k) is None,
{
    lemma_pow10_positive(z);
    if k >= 0 {
        lemma_pow10_add(z, k as nat);
        vstd::arithmetic::mul::lemma_mul_is_associative(v, pow10(z), pow10(k as nat));
    } else if z + k >= 0 {
        let j = (-k) as nat;
        let w = (z + k) as nat;
        lemma_pow10_add(w, j);
        lemma_pow10_positive(j);
        assert(z == w + j);
        vstd::arithmetic::mul::lemma_mul_is_associative(v, pow10(w), pow10(j));
        vstd::arithmetic::div_mod::lemma_mod_multiples_basic(v * pow10(w), pow10(j));
        vstd::arithmetic::mul::lemma_mul_is_commutative(v * pow10(w), pow10(j));
        vstd::arithmetic::div_mod::lemma_div_multiples_vanish(v * pow10(w), pow10(j));
    } else {
        let n = (-k - z) as nat;
        lemma_not_divisible(v, z, n);
        assert((z + n) as nat == (-k) as nat);
    }
}

/// Dividing `v * 10^z` by `10^(-k)`, where `z + k` is negative, is dividing
/// `v` by `10^-(z + k)`.
proof fn lemma_truncated(m: int, v: int, z: nat, k: int)
    requires
        m == v * pow10(z),
        v >= 0,
        z + k < 0,
    ensures
        m / pow10((-k) as nat) == v / pow10((-(z + k)) as nat),
{
    let j = (-(z + k)) as nat;
    lemma_pow10_positive(z);
    lemma_pow10_positive(j);
    lemma_pow10_add(z, j);
    assert((z + j) as nat == (-k) as nat);
    assert(m >= 0) by (nonlinear_arith)
        requires
            m == v * pow10(z),
            v >= 0,
            pow10(z) >= 1,
    ;
    vstd::arithmetic::div_mod::lemma_div_denominator(m, pow10(z), pow10(j));
    vstd::arithmetic::mul::lemma_mul_is_commutative(v, pow10(z));
    vstd::arithmetic::div_mod::lemma_div_multiples_vanish(v, pow10(z));
}

/// Dividing the value of a digit string by `10^j` drops its last `j`
/// digits.
proof fn lemma_digits_div(s: Seq<u8>, j: nat)
    requires
        all_digits(s),
        j <= s.len(),
    ensures
        digits_value(s) / pow10(j) == digits_value(s.take(s.len() - j)),
    decreases j,
{
    if j == 0 {
        assert(s.take(s.len() as int) =~= s);
    } else {
        let d = s.drop_last();
        assert(all_digits(d)) by {
            assert forall|i: int| 0 <= i < d.len() implies is_digit(#[trigger] d[i]) by {
                assert(d[i] == s[i]);
            }
        }
        assert(is_digit(s[s.len() - 1]));
        let c = s.last() - 48;
        lemma_digits_value_nonnegative(d);
        lemma_digits_value_nonnegative(s);
        assert(digits_value(s) == 10 * digits_value(d) + c);
        vstd::arithmetic::div_mod::lemma_div_multiples_vanish_fancy(digits_value(d), c, 10);
        lemma_pow10_positive((j - 1) as nat);
        vstd::arithmetic::div_mod::lemma_div_denominator(digits_value(s), 10, pow10((j - 1) as nat));
        lemma_digits_div(d, (j - 1) as nat);
        assert(d.take(d.len() - (j - 1)) =~= s.take(s.len() - j));
    }
}

/// StringToNumber(s): white space (in UTF-8) trimmed, then a decimal,
/// hexadecimal, octal or binary literal, `Infinity` or the empty string.
pub open spec fn string_to_number(s: Seq<u8>) -> Numeric {
    numeric_string_value(trim_end(trim_start(s)))
}

/// ToNumber(v). An object converts through ToPrimitive, which throws a
/// TypeError on the data-only objects of this heap, as a symbol does.
pub open spec fn spec_to_number(v: ValueView) -> Result<Numeric, ExceptionType> {
    match v {
        ValueView::Undefined => Ok(Numeric::Number(JsNumber::NaN)),
        ValueView::Null => Ok(Numeric::Number(JsNumber::Integer(0))),
        ValueView::Boolean(b) => Ok(Numeric::Number(JsNumber::Integer(if b { 1 } else { 0 }))),
        ValueView::String(s) => Ok(string_to_number(s)),
        ValueView::Number(n) => Ok(Numeric::Number(n)),
        _ => Err(ExceptionType::TypeError),
    }
}

/// Appends the decimal digits of `n` to `out`.
fn push_decimal_digits(n: u64, out: &mut Vec<u8>)
    ensures
        final(out)@ == old(out)@ + decimal_digits(n as nat),
    decreases n,
{
    if n < 10 {
        out.push(n as u8 + 48);
        assert(final(out)@ =~= old(out)@ + decimal_digits(n as nat));
    } else {
        let ghost before = out@;
        push_decimal_digits(n / 10, out);
        out.push((n % 10) as u8 + 48);
        assert(out@ =~= before + decimal_digits(n as nat));
    }
}

/// Number::toString(n, 10).
pub fn number_to_string_exec(n: JsNumber) -> (r: Vec<u8>)
    ensures
        r@ == number_to_string(n),
{
    match n {
        JsNumber::NaN => vec!['N' as u8, 'a' as u8, 'N' as u8],
        JsNumber::PositiveInfinity => infinity_bytes(),
        JsNumber::NegativeInfinity => {
            let mut r: Vec<u8> = vec!['-' as u8];
            let inf = infinity_bytes();
            let mut i: usize = 0;
            while i < inf.len()
                invariant
                    inf@ == str_infinity(),
                    i <= inf.len(),
                    r@ == seq!['-' as u8] + inf@.subrange(0, i as int),
                decreases inf.len() - i,
            {
                r.push(inf[i]);
                i = i + 1;
                assert(r@ =~= seq!['-' as u8] + inf@.subrange(0, i as int));
            }
            assert(inf@.subrange(0, inf.len() as int) =~= inf@);
            r
        },
        JsNumber::Integer(i) => {
            let mut r: Vec<u8> = Vec::new();
            if i < 0 {
                r.push('-' as u8);
                let magnitude: u64 = (0i128 - i as i128) as u64;
                push_decimal_digits(magnitude, &mut r);
                assert(r@ =~= seq!['-' as u8] + decimal_digits((-i) as nat));
            } else {
                push_decimal_digits(i as u64, &mut r);
                assert(r@ =~= decimal_digits(i as nat));
            }
            r
        },
    }
}

fn infinity_bytes() -> (r: Vec<u8>)
    ensures
        r@ == str_infinity(),
{
    vec!['I' as u8, 'n' as u8, 'f' as u8, 'i' as u8, 'n' as u8, 'i' as u8, 't' as u8, 'y' as u8]
}


proof fn lemma_digits_value_nonnegative(s: Seq<u8>)
    requires
        all_digits(s),
    ensures
        digits_value(s) >= 0,
    decreases s.len(),
{
    if s.len() > 0 {
        assert(all_digits(s.drop_last())) by {
            assert forall|i: int| 0 <= i < s.drop_last().len() implies is_digit(#[trigger] s.drop_last()[i]) by {
                assert(s.drop_last()[i] == s[i]);
            }
        }
        lemma_digits_value_nonnegative(s.drop_last());
        assert(is_digit(s[s.len() - 1]));
    }
}

/// The value of a digit string is at least that of each of its prefixes.
proof fn lemma_digits_value_prefix(s: Seq<u8>, k: int)
    requires
        all_digits(s),
        0 <= k <= s.len(),
    ensures
        digits_value(s) >= digits_value(s.subrange(0, k)),
    decreases s.len(),
{
    if k < s.len() {
        let d = s.drop_last();
        assert(all_digits(d)) by {
            assert forall|i: int| 0 <= i < d.len() implies is_digit(#[trigger] d[i]) by {
                assert(d[i] == s[i]);
            }
        }
        lemma_digits_value_prefix(d, k);
        lemma_digits_value_nonnegative(d);
        assert(d.subrange(0, k) =~= s.subrange(0, k));
        assert(is_digit(s[s.len() - 1]));
    } else {
        assert(s.subrange(0, k) =~= s);
    }
}

fn radix_of_prefix_exec(b: u8) -> (r: u32)
    ensures
        r == radix_of_prefix(b),
{
    if b == 'x' as u8 || b == 'X' as u8 {
        16
    } else if b == 'o' as u8 || b == 'O' as u8 {
        8
    } else if b == 'b' as u8 || b == 'B' as u8 {
        2
    } else {
        0
    }
}

fn radix_digit_exec(b: u8) -> (r: u32)
    ensures
        r == radix_digit(b),
{
    if 48 <= b && b <= 57 {
        (b - 48) as u32
    } else if 97 <= b && b <= 122 {
        (b - 87) as u32
    } else if 65 <= b && b <= 90 {
        (b - 55) as u32
    } else {
        36
    }
}

proof fn lemma_radix_value_nonnegative(s: Seq<u8>, radix: int)
    requires
        all_radix_digits(s, radix),
        radix > 0,
    ensures
        radix_value(s, radix) >= 0,
    decreases s.len(),
{
    if s.len() > 0 {
        let d = s.drop_last();
        assert(all_radix_digits(d, radix)) by {
            assert forall|i: int| 0 <= i < d.len() implies radix_digit(#[trigger] d[i]) < radix by {
                assert(d[i] == s[i]);
            }
        }
        lemma_radix_value_nonnegative(d, radix);
        assert(radix_digit(s[s.len() - 1]) >= 0);
        assert(radix_value(d, radix) * radix >= 0) by (nonlinear_arith)
            requires
                radix_value(d, radix) >= 0,
                radix > 0,
        ;
    }
}

/// The value of a digit string is at least that of each of its prefixes.
proof fn lemma_radix_value_prefix(s: Seq<u8>, radix: int, k: int)
    requires
        all_radix_digits(s, radix),
        radix > 0,
        0 <= k <= s.len(),
    ensures
        radix_value(s, radix) >= radix_value(s.subrange(0, k), radix),
    decreases s.len(),
{
    if k < s.len() {
        let d = s.drop_last();
        assert(all_radix_digits(d, radix)) by {
            assert forall|i: int| 0 <= i < d.len() implies radix_digit(#[trigger] d[i]) < radix by {
                assert(d[i] == s[i]);
            }
        }
        lemma_radix_value_prefix(d, radix, k);
        lemma_radix_value_nonnegative(d, radix);
        assert(d.subrange(0, k) =~= s.subrange(0, k));
        assert(radix_digit(s[s.len() - 1]) >= 0);
        assert(radix_value(d, radix) * radix >= radix_value(d, radix)) by (nonlinear_arith)
            requires
                radix_value(d, radix) >= 0,
                radix > 0,
        ;
    } else {
        assert(s.subrange(0, k) =~= s);
    }
}

/// The Number of the digits `t[2..]` in the given radix, or None where they
/// are not all digits of that radix.
fn parse_radix_digits(t: &Vec<u8>, radix: u32) -> (r: Option<JsNumber>)
    requires
        t.len() > 2,
        radix == 2 || radix == 8 || radix == 16,
    ensures
        match r {
            Some(n) => all_radix_digits(t@.skip(2), radix as int) && n == signed_integer_value(
                false,
                radix_value(t@.skip(2), radix as int),
            ),
            None => !all_radix_digits(t@.skip(2), radix as int),
        },
{
    let ghost whole = t@.skip(2);
    let mut j: usize = 2;
    while j < t.len()
        invariant
            2 <= j <= t.len(),
            whole == t@.skip(2),
            forall|i: int| 0 <= i < j - 2 ==> radix_digit(#[trigger] whole[i]) < radix,
        decreases t.len() - j,
    {
        if radix_digit_exec(t[j]) >= radix {
            assert(whole[j - 2] == t@[j as int]);
            return None;
        }
        assert(whole[j - 2] == t@[j as int]);
        j = j + 1;
    }
    assert(all_radix_digits(whole, radix as int));
    let mut acc: i128 = 0;
    let mut k: usize = 2;
    while k < t.len()
        invariant
            2 <= k <= t.len(),
            radix == 2 || radix == 8 || radix == 16,
            whole == t@.skip(2),
            all_radix_digits(whole, radix as int),
            all_radix_digits(t@.subrange(2, k as int), radix as int),
            acc as int == radix_value(t@.subrange(2, k as int), radix as int),
            0 <= acc <= 9_223_372_036_854_775_808,
        decreases t.len() - k,
    {
        let d = radix_digit_exec(t[k]);
        assert(whole[k - 2] == t@[k as int]);
        let ghost prev = t@.subrange(2, k as int);
        assert(acc * radix + d <= 9_223_372_036_854_775_808 * 16 + 15) by (nonlinear_arith)
            requires
                0 <= acc <= 9_223_372_036_854_775_808,
                radix <= 16,
                d < 16,
        ;
        acc = acc * (radix as i128) + (d as i128);
        k = k + 1;
        let ghost next = t@.subrange(2, k as int);
        assert(next.drop_last() =~= prev);
        assert(all_radix_digits(next, radix as int)) by {
            assert forall|i: int| 0 <= i < next.len() implies radix_digit(#[trigger] next[i]) < radix by {
                if i < prev.len() {
                    assert(next[i] == prev[i]);
                }
            }
        }
        if acc > 9_223_372_036_854_775_808 {
            proof {
                lemma_radix_value_prefix(whole, radix as int, (k - 2) as int);
                assert(whole.subrange(0, (k - 2) as int) =~= next);
            }
            return Some(JsNumber::NaN);
        }
    }
    assert(t@.subrange(2, k as int) =~= whole);
    if acc <= 9_223_372_036_854_775_807 {
        Some(JsNumber::Integer(acc as i64))
    } else {
        Some(JsNumber::NaN)
    }
}

/// The bound above which an exponent is held saturated: 2^70.
pub open spec fn exponent_cap() -> int {
    1_180_591_620_717_411_303_424
}

proof fn lemma_pow10_monotonic(a: nat, b: nat)
    requires
        a <= b,
    ensures
        pow10(a) <= pow10(b),
    decreases b,
{
    if a < b {
        lemma_pow10_monotonic(a, (b - 1) as nat);
        lemma_pow10_positive((b - 1) as nat);
    }
}

/// Whether `t[from..to]` is all decimal digits.
fn digits_in(t: &Vec<u8>, from: usize, to: usize) -> (r: bool)
    requires
        from <= to <= t.len(),
    ensures
        r == all_digits(t@.subrange(from as int, to as int)),
{
    let mut i: usize = from;
    while i < to
        invariant
            from <= i <= to <= t.len(),
            forall|j: int| from <= j < i ==> is_digit(#[trigger] t@[j]),
        decreases to - i,
    {
        if t[i] < 48 || t[i] > 57 {
            assert(!is_digit(t@.subrange(from as int, to as int)[i - from]));
            return false;
        }
        i = i + 1;
    }
    assert forall|j: int| 0 <= j < to - from implies is_digit(#[trigger] t@.subrange(from as int, to as int)[j]) by {
        assert(t@.subrange(from as int, to as int)[j] == t@[from + j]);
    }
    true
}

/// The value of the digits `t[from..to]`, held at `exponent_cap() + 1`
/// once it passes the cap.
fn capped_digits_value(t: &Vec<u8>, from: usize, to: usize) -> (r: i128)
    requires
        from <= to <= t.len(),
        all_digits(t@.subrange(from as int, to as int)),
    ensures
        r == if digits_value(t@.subrange(from as int, to as int)) <= exponent_cap() {
            digits_value(t@.subrange(from as int, to as int))
        } else {
            exponent_cap() + 1
        },
{
    let ghost whole = t@.subrange(from as int, to as int);
    let mut acc: i128 = 0;
    let mut i: usize = from;
    while i < to
        invariant
            from <= i <= to <= t.len(),
            whole == t@.subrange(from as int, to as int),
            all_digits(whole),
            acc == if digits_value(t@.subrange(from as int, i as int)) <= exponent_cap() {
                digits_value(t@.subrange(from as int, i as int))
            } else {
                exponent_cap() + 1
            },
        decreases to - i,
    {
        let ghost prev = t@.subrange(from as int, i as int);
        let ghost next = t@.subrange(from as int, i as int + 1);
        assert(next.drop_last() =~= prev);
        assert(next.last() == whole[i - from]);
        assert(is_digit(whole[i - from]));
        assert(all_digits(prev)) by {
            assert forall|j: int| 0 <= j < prev.len() implies is_digit(#[trigger] prev[j]) by {
                assert(prev[j] == whole[j]);
            }
        }
        proof {
            lemma_digits_value_nonnegative(prev);
        }
        let d = (t[i] - 48) as i128;
        if acc <= 1_180_591_620_717_411_303_424 {
            acc = acc * 10 + d;
            if acc > 1_180_591_620_717_411_303_424 {
                acc = 1_180_591_620_717_411_303_425;
            }
        }
        i = i + 1;
    }
    assert(t@.subrange(from as int, to as int) =~= whole);
    acc
}

/// The exponent `t[from..to]`, an optionally signed run of digits, held at
/// plus or minus `exponent_cap() + 1` beyond the cap; `None` where it is not
/// such a run.
fn parse_exponent(t: &Vec<u8>, from: usize, to: usize) -> (r: Option<i128>)
    requires
        from <= to <= t.len(),
    ensures
        match r {
            None => signed_digits(t@.subrange(from as int, to as int)) is None,
            Some(x) => signed_digits(t@.subrange(from as int, to as int)) matches Some(e) && (if -exponent_cap() <= e
                <= exponent_cap() {
                x == e
            } else if e > exponent_cap() {
                x == exponent_cap() + 1
            } else {
                x == -exponent_cap() - 1
            }),
        },
{
    let ghost x = t@.subrange(from as int, to as int);
    if to - from > 1 && (t[from] == '+' as u8 || t[from] == '-' as u8) {
        assert(x.drop_first() =~= t@.subrange(from as int + 1, to as int));
        if !digits_in(t, from + 1, to) {
            assert(x[0] == t@[from as int]);
            assert(!all_digits(x)) by {
                assert(!is_digit(x[0]));
            }
            return None;
        }
        let v = capped_digits_value(t, from + 1, to);
        proof {
            lemma_digits_value_nonnegative(x.drop_first());
        }
        if t[from] == '-' as u8 {
            Some(0 - v)
        } else {
            Some(v)
        }
    } else {
        if to == from {
            return None;
        }
        if !digits_in(t, from, to) {
            return None;
        }
        proof {
            lemma_digits_value_nonnegative(x);
        }
        Some(capped_digits_value(t, from, to))
    }
}

/// The first position in `t[from..to]` that holds `a` or `b`, or `to`.
fn find_either(t: &Vec<u8>, from: usize, to: usize, a: u8, b: u8) -> (r: usize)
    requires
        from <= to <= t.len(),
    ensures
        from <= r <= to,
        r - from == position_of(t@.subrange(from as int, to as int), a, b),
{
    let ghost u = t@.subrange(from as int, to as int);
    let mut i: usize = from;
    while i < to && t[i] != a && t[i] != b
        invariant
            from <= i <= to <= t.len(),
            u == t@.subrange(from as int, to as int),
            forall|j: int| from <= j < i ==> t@[j] != a && t@[j] != b,
        decreases to - i,
    {
        i = i + 1;
    }
    proof {
        if i < to {
            assert forall|j: int| 0 <= j < i - from implies u[j] != a && u[j] != b by {
                assert(u[j] == t@[from + j]);
            }
            assert(u[i - from] == t@[i as int]);
            lemma_position_found(u, a, b, i - from);
        } else {
            assert forall|j: int| 0 <= j < u.len() implies u[j] != a && u[j] != b by {
                assert(u[j] == t@[from + j]);
            }
            lemma_position_absent(u, a, b);
        }
    }
    i
}

/// The value of the digits `d[p..=q]`, below 10^19.
fn small_digits_value(d: &Vec<u8>, p: usize, q: usize) -> (r: i128)
    requires
        p <= q < d.len(),
        all_digits(d@.subrange(p as int, q as int + 1)),
        digits_value(d@.subrange(p as int, q as int + 1)) < 10_000_000_000_000_000_000,
    ensures
        r == digits_value(d@.subrange(p as int, q as int + 1)),
{
    let ghost sig = d@.subrange(p as int, q as int + 1);
    let mut acc: i128 = 0;
    let mut c: usize = p;
    while c <= q
        invariant
            p <= c <= q + 1,
            q < d.len(),
            sig == d@.subrange(p as int, q as int + 1),
            all_digits(sig),
            digits_value(sig) < 10_000_000_000_000_000_000,
            acc == digits_value(sig.subrange(0, c - p)),
        decreases q + 1 - c,
    {
        let ghost prev = sig.subrange(0, c - p);
        let ghost next = sig.subrange(0, c - p + 1);
        assert(next.drop_last() =~= prev);
        assert(next.last() == sig[c - p]);
        assert(sig[c - p] == d@[c as int]);
        assert(is_digit(sig[c - p]));
        assert(digits_value(next) == acc * 10 + (d@[c as int] - 48));
        proof {
            lemma_digits_value_prefix(sig, c - p + 1);
        }
        assert(digits_value(next) <= digits_value(sig));
        assert(all_digits(prev)) by {
            assert forall|i: int| 0 <= i < prev.len() implies is_digit(#[trigger] prev[i]) by {
                assert(prev[i] == sig[i]);
            }
        }
        proof {
            lemma_digits_value_nonnegative(prev);
        }
        assert(acc * 10 <= digits_value(next));
        acc = acc * 10 + (d[c] - 48) as i128;
        c = c + 1;
    }
    assert(sig.subrange(0, sig.len() as int) =~= sig);
    acc
}

/// 10^e, for `e` at most 19.
fn small_pow10(e: i128) -> (r: i128)
    requires
        0 <= e <= 19,
    ensures
        r == pow10(e as nat),
{
    proof {
        lemma_pow10_monotonic(e as nat, 19);
        assert(pow10(19) == 10_000_000_000_000_000_000) by {
            reveal_with_fuel(pow10, 20);
        }
    }
    let mut power: i128 = 1;
    let mut b: i128 = 0;
    while b < e
        invariant
            0 <= b <= e <= 19,
            power == pow10(b as nat),
            pow10(e as nat) <= 10_000_000_000_000_000_000,
        decreases e - b,
    {
        proof {
            lemma_pow10_monotonic((b + 1) as nat, e as nat);
            lemma_pow10_positive(b as nat);
        }
        assert(pow10((b + 1) as nat) == 10 * pow10(b as nat));
        assert(pow10((b + 1) as nat) <= pow10(e as nat));
        assert(power * 10 <= 10_000_000_000_000_000_000);
        power = power * 10;
        b = b + 1;
    }
    power
}

/// A digit string `d` whose first non-zero digit is at `p` and whose last
/// is at `q` has the value of `d[p..=q]` times 10 to the number of trailing
/// zeros.
proof fn lemma_significant_digits(d: Seq<u8>, p: int, q: int)
    requires
        0 <= p <= q < d.len(),
        all_digits(d),
        forall|i: int| 0 <= i < p ==> d[i] == '0' as u8,
        forall|i: int| q < i < d.len() ==> d[i] == '0' as u8,
        d[p] != '0' as u8,
        d[q] != '0' as u8,
    ensures
        all_digits(d.subrange(p, q + 1)),
        digits_value(d) == digits_value(d.subrange(p, q + 1)) * pow10((d.len() - 1 - q) as nat),
        digits_value(d.subrange(p, q + 1)) % 10 != 0,
        pow10((q - p) as nat) <= digits_value(d.subrange(p, q + 1)) < pow10((q + 1 - p) as nat),
{
    let sig = d.subrange(p, q + 1);
    lemma_leading_zeros(d, p);
    let rest = d.skip(p);
    assert forall|i: int| q + 1 - p <= i < rest.len() implies rest[i] == '0' as u8 by {
        assert(rest[i] == d[i + p]);
    }
    lemma_trailing_zeros(rest, q + 1 - p);
    assert(rest.take(q + 1 - p) =~= sig);
    assert(all_digits(sig)) by {
        assert forall|i: int| 0 <= i < sig.len() implies is_digit(#[trigger] sig[i]) by {
            assert(sig[i] == d[i + p]);
        }
    }
    assert(sig[0] == d[p]);
    assert(sig.last() == d[q]);
    lemma_last_digit(sig);
    lemma_digits_bounds(sig);
}

/// The Number `digits * 10^(e - flen)` where that is an integer of this
/// model, for a decimal literal whose digits (without the point) are
/// `digits`, whose fraction has `flen` digits and whose exponent is `e`,
/// given as `x` held at the cap.
#[verifier::rlimit(30)]
fn scaled_digits_number(digits: &Vec<u8>, flen: usize, x: i128, negative: bool, Ghost(e): Ghost<int>) -> (r: Numeric)
    requires
        all_digits(digits@),
        flen <= digits.len(),
        if -exponent_cap() <= e <= exponent_cap() {
            x == e
        } else if e > exponent_cap() {
            x == exponent_cap() + 1
        } else {
            x == -exponent_cap() - 1
        },
    ensures
        r == scaled_decimal_value(negative, digits_value(digits@), e - flen),
{
    let ghost d = digits@;
    let ghost m = digits_value(d);
    let ghost k: int = e - flen;
    let n = digits.len();
    let mut p: usize = 0;
    while p < n && digits[p] == '0' as u8
        invariant
            p <= n == digits.len(),
            forall|i: int| 0 <= i < p ==> digits@[i] == '0' as u8,
        decreases n - p,
    {
        p = p + 1;
    }
    if p == n {
        proof {
            lemma_all_zero_digits(d);
            if k < 0 {
                let j = (-k) as nat;
                lemma_pow10_positive(j);
                vstd::arithmetic::div_mod::lemma_mod_multiples_basic(0, pow10(j));
                vstd::arithmetic::div_mod::lemma_div_multiples_vanish(0, pow10(j));
                assert(0 * pow10(j) == 0);
                assert(pow10(j) * 0 == 0);
            } else {
                assert(0 * pow10(k as nat) == 0);
            }
        }
        return Numeric::Number(JsNumber::Integer(0));
    }
    let mut q: usize = n - 1;
    while digits[q] == '0' as u8
        invariant
            p <= q < n == digits.len(),
            digits@[p as int] != '0' as u8,
            forall|i: int| q < i < n ==> digits@[i] == '0' as u8,
        decreases q,
    {
        q = q - 1;
    }
    let ghost sig = d.subrange(p as int, q as int + 1);
    let ghost z: nat = (n - 1 - q) as nat;
    let ghost v = digits_value(sig);
    proof {
        lemma_significant_digits(d, p as int, q as int);
        lemma_scaled(m, v, z, k);
    }
    let shift: i128 = x - (flen as i128) + ((n - 1 - q) as i128);
    let slen: usize = q + 1 - p;
    proof {
        assert(pow10(19) == 10_000_000_000_000_000_000) by {
            reveal_with_fuel(pow10, 20);
        }
    }
    if shift < 0 {
        proof {
            lemma_digits_value_nonnegative(sig);
            lemma_truncated(m, v, z, k);
        }
        return fraction_number(digits, p, q, shift, negative, Ghost(z + k));
    }
    if slen as i128 + shift > 19 {
        proof {
            let w = (z + k) as nat;
            lemma_pow10_positive(w);
            lemma_pow10_add((slen - 1) as nat, w);
            assert(v * pow10(w) >= pow10((slen - 1) as nat) * pow10(w)) by (nonlinear_arith)
                requires
                    v >= pow10((slen - 1) as nat),
                    pow10(w) >= 1,
            ;
            lemma_pow10_monotonic(19, (slen - 1 + w) as nat);
        }
        return Numeric::Number(JsNumber::NaN);
    }
    proof {
        lemma_pow10_monotonic(slen as nat, 19);
    }
    let significand = small_digits_value(digits, p, q);
    let power = small_pow10(shift);
    proof {
        lemma_pow10_add(slen as nat, shift as nat);
        lemma_pow10_monotonic((slen + shift) as nat, 19);
        lemma_pow10_positive(shift as nat);
        assert(significand * power < pow10(slen as nat) * power) by (nonlinear_arith)
            requires
                0 <= significand < pow10(slen as nat),
                power >= 1,
        ;
        lemma_pow10_positive(shift as nat);
        assert(shift == z + k);
    }
    let w: i128 = significand * power;
    if negative {
        if w <= 9_223_372_036_854_775_808 {
            Numeric::Number(JsNumber::Integer((0 - w) as i64))
        } else {
            Numeric::Number(JsNumber::NaN)
        }
    } else if w <= 9_223_372_036_854_775_807 {
        Numeric::Number(JsNumber::Integer(w as i64))
    } else {
        Numeric::Number(JsNumber::NaN)
    }
}

/// The fraction `d[p..=q] / 10^-shift`, for a negative `shift`, as its
/// truncation: NaN where that does not fit an `i64`. `shift` is `w`, or
/// both lie below minus the number of digits.
fn fraction_number(digits: &Vec<u8>, p: usize, q: usize, shift: i128, negative: bool, Ghost(w): Ghost<int>) -> (r: Numeric)
    requires
        p <= q < digits.len(),
        all_digits(digits@.subrange(p as int, q as int + 1)),
        digits@[p as int] != '0' as u8,
        w < 0,
        -2 * exponent_cap() < shift < 0,
        shift == w || (shift < p - q - 1 && w < p - q - 1),
    ensures
        r == truncated_number(negative, digits_value(digits@.subrange(p as int, q as int + 1)) / pow10((-w) as nat)),
{
    let ghost sig = digits@.subrange(p as int, q as int + 1);
    let slen: usize = q + 1 - p;
    proof {
        assert(sig[0] == digits@[p as int]);
        lemma_digits_bounds(sig);
        lemma_pow10_positive((-w) as nat);
        assert(pow10(19) == 10_000_000_000_000_000_000) by {
            reveal_with_fuel(pow10, 20);
        }
    }
    let j: i128 = 0 - shift;
    if j >= slen as i128 {
        proof {
            lemma_pow10_monotonic(slen as nat, (-w) as nat);
            lemma_digits_value_nonnegative(sig);
            vstd::arithmetic::div_mod::lemma_basic_div(digits_value(sig), pow10((-w) as nat));
        }
        return Numeric::Fraction(0);
    }
    let keep: usize = slen - (j as usize);
    let ghost head = sig.take(keep as int);
    proof {
        lemma_digits_div(sig, j as nat);
        assert(all_digits(head)) by {
            assert forall|i: int| 0 <= i < head.len() implies is_digit(#[trigger] head[i]) by {
                assert(head[i] == sig[i]);
            }
        }
        assert(head[0] == sig[0]);
        lemma_digits_bounds(head);
    }
    if keep > 19 {
        proof {
            lemma_pow10_monotonic(19, (keep - 1) as nat);
        }
        return Numeric::Number(JsNumber::NaN);
    }
    proof {
        lemma_pow10_monotonic(keep as nat, 19);
        assert(digits@.subrange(p as int, p + keep) =~= head);
    }
    let t = small_digits_value(digits, p, p + keep - 1);
    if negative {
        if t <= 9_223_372_036_854_775_808 {
            Numeric::Fraction((0 - t) as i64)
        } else {
            Numeric::Number(JsNumber::NaN)
        }
    } else if t <= 9_223_372_036_854_775_807 {
        Numeric::Fraction(t as i64)
    } else {
        Numeric::Number(JsNumber::NaN)
    }
}

/// The Number of the optionally negated decimal literal `t[from..]`, as
/// [`decimal_literal_value`] gives it.
fn parse_decimal(t: &Vec<u8>, from: usize, negative: bool) -> (r: Numeric)
    requires
        from <= t.len(),
    ensures
        r == decimal_literal_value(negative, t@.skip(from as int)),
{
    let len = t.len();
    let ghost u = t@.skip(from as int);
    assert(u =~= t@.subrange(from as int, len as int));
    let ei = find_either(t, from, len, 'e' as u8, 'E' as u8);
    let di = find_either(t, from, ei, '.' as u8, '.' as u8);
    let ghost mantissa = u.take(ei - from);
    assert(mantissa =~= t@.subrange(from as int, ei as int));
    let fs: usize = if di < ei {
        di + 1
    } else {
        ei
    };
    let ghost ip = mantissa.take(di - from);
    assert(ip =~= t@.subrange(from as int, di as int));
    let ghost fp = t@.subrange(fs as int, ei as int);
    assert(fp =~= (if di - from < mantissa.len() {
        mantissa.skip(di - from + 1)
    } else {
        Seq::<u8>::empty()
    }));
    let exponent = if ei < len {
        assert(u.skip(ei - from + 1) =~= t@.subrange(ei as int + 1, len as int));
        parse_exponent(t, ei + 1, len)
    } else {
        Some(0i128)
    };
    let ghost true_exponent: Option<int> = if ei < len {
        signed_digits(u.skip(ei - from + 1))
    } else {
        Some(0)
    };
    let ip_ok = digits_in(t, from, di);
    let fp_ok = digits_in(t, fs, ei);
    if !ip_ok || !fp_ok || (di - from) + (ei - fs) == 0 {
        return Numeric::Number(JsNumber::NaN);
    }
    let x: i128 = match exponent {
        Some(x) => x,
        None => {
            return Numeric::Number(JsNumber::NaN);
        },
    };
    let ghost e_true: int = true_exponent->0;
    assert(decimal_parts(u) == Some((ip, fp, e_true)));
    let mut digits: Vec<u8> = Vec::new();
    let mut i: usize = from;
    while i < di
        invariant
            from <= i <= di <= ei <= len == t.len(),
            digits@ == t@.subrange(from as int, i as int),
        decreases di - i,
    {
        digits.push(t[i]);
        i = i + 1;
        assert(digits@ =~= t@.subrange(from as int, i as int));
    }
    let mut j: usize = fs;
    while j < ei
        invariant
            from <= di <= ei <= len == t.len(),
            fs <= j <= ei,
            digits@ == t@.subrange(from as int, di as int) + t@.subrange(fs as int, j as int),
        decreases ei - j,
    {
        digits.push(t[j]);
        j = j + 1;
        assert(digits@ =~= t@.subrange(from as int, di as int) + t@.subrange(fs as int, j as int));
    }
    assert(digits@ =~= ip + fp);
    assert(all_digits(digits@)) by {
        assert forall|k: int| 0 <= k < digits@.len() implies is_digit(#[trigger] digits@[k]) by {
            if k < ip.len() {
                assert(digits@[k] == ip[k]);
            } else {
                assert(digits@[k] == fp[k - ip.len()]);
            }
        }
    }
    scaled_digits_number(&digits, ei - fs, x, negative, Ghost(e_true))
}

/// `sign` followed by the bytes of `Infinity`.
fn signed_infinity_bytes(sign: u8) -> (r: Vec<u8>)
    ensures
        r@ == seq![sign] + str_infinity(),
{
    let r: Vec<u8> = vec![sign, 'I' as u8, 'n' as u8, 'f' as u8, 'i' as u8, 'n' as u8, 'i' as u8, 't' as u8, 'y' as u8];
    assert(r@ =~= seq![sign] + str_infinity());
    r
}

fn is_white_space_exec(b: u8) -> (r: bool)
    ensures
        r == is_white_space(b),
{
    b == 9 || b == 10 || b == 11 || b == 12 || b == 13 || b == 32
}

fn is_white_space_3_exec(a: u8, b: u8, c: u8) -> (r: bool)
    ensures
        r == is_white_space_3(a, b, c),
{
    (a == 0xE1 && b == 0x9A && c == 0x80) || (a == 0xE2 && b == 0x80 && ((0x80 <= c && c <= 0x8A) || c == 0xA8
        || c == 0xA9 || c == 0xAF)) || (a == 0xE2 && b == 0x81 && c == 0x9F) || (a == 0xE3 && b == 0x80 && c == 0x80)
        || (a == 0xEF && b == 0xBB && c == 0xBF)
}

/// The length of the white-space character that `s[from..to]` starts with.
fn leading_white_space_len_exec(s: &Vec<u8>, from: usize, to: usize) -> (r: usize)
    requires
        from <= to <= s.len(),
    ensures
        r == leading_white_space_len(s@.subrange(from as int, to as int)),
        r <= to - from,
{
    let n = to - from;
    if n >= 1 && is_white_space_exec(s[from]) {
        1
    } else if n >= 2 && s[from] == 0xC2 && s[from + 1] == 0xA0 {
        2
    } else if n >= 3 && is_white_space_3_exec(s[from], s[from + 1], s[from + 2]) {
        3
    } else {
        0
    }
}

/// The length of the white-space character that `s[from..to]` ends with.
fn trailing_white_space_len_exec(s: &Vec<u8>, from: usize, to: usize) -> (r: usize)
    requires
        from <= to <= s.len(),
    ensures
        r == trailing_white_space_len(s@.subrange(from as int, to as int)),
        r <= to - from,
{
    let n = to - from;
    if n >= 1 && is_white_space_exec(s[to - 1]) {
        1
    } else if n >= 2 && s[to - 2] == 0xC2 && s[to - 1] == 0xA0 {
        2
    } else if n >= 3 && is_white_space_3_exec(s[to - 3], s[to - 2], s[to - 1]) {
        3
    } else {
        0
    }
}

/// StringToNumber(s), as [`string_to_number`] defines it.
pub fn string_to_number_exec(s: &Vec<u8>) -> (r: Numeric)
    ensures
        r == string_to_number(s@),
{
    let len = s.len();
    let mut start: usize = 0;
    assert(s@.subrange(0, len as int) =~= s@);
    let mut k = leading_white_space_len_exec(s, 0, len);
    while k > 0
        invariant
            len == s.len(),
            start + k <= len,
            k == leading_white_space_len(s@.subrange(start as int, len as int)),
            trim_start(s@) == trim_start(s@.subrange(start as int, len as int)),
        decreases len - start,
    {
        assert(s@.subrange(start as int, len as int).skip(k as int) =~= s@.subrange(start as int + k, len as int));
        start = start + k;
        k = leading_white_space_len_exec(s, start, len);
    }
    assert(trim_start(s@) == s@.subrange(start as int, len as int));
    let mut end: usize = len;
    let mut k = trailing_white_space_len_exec(s, start, end);
    while k > 0
        invariant
            len == s.len(),
            start + k <= end <= len,
            k == trailing_white_space_len(s@.subrange(start as int, end as int)),
            trim_start(s@) == s@.subrange(start as int, len as int),
            trim_end(trim_start(s@)) == trim_end(s@.subrange(start as int, end as int)),
        decreases end - start,
    {
        assert(s@.subrange(start as int, end as int).take(end - start - k) =~= s@.subrange(
            start as int,
            end as int - k,
        ));
        end = end - k;
        k = trailing_white_space_len_exec(s, start, end);
    }
    let mut t: Vec<u8> = Vec::new();
    let mut i: usize = start;
    while i < end
        invariant
            start <= i <= end <= len,
            len == s.len(),
            t@ == s@.subrange(start as int, i as int),
        decreases end - i,
    {
        t.push(s[i]);
        i = i + 1;
        assert(t@ =~= s@.subrange(start as int, i as int));
    }
    assert(trim_end(trim_start(s@)) == t@);
    if t.len() == 0 {
        return Numeric::Number(JsNumber::Integer(0));
    }
    if t.len() > 2 && t[0] == '0' as u8 {
        let radix = radix_of_prefix_exec(t[1]);
        if radix > 0 {
            match parse_radix_digits(&t, radix) {
                Some(n) => return Numeric::Number(n),
                None => {},
            }
        }
    }
    assert(!is_non_decimal_literal(t@));
    let plus_infinity = signed_infinity_bytes('+' as u8);
    let minus_infinity = signed_infinity_bytes('-' as u8);
    let infinity = infinity_bytes();
    if bytes_equal(t.as_slice(), infinity.as_slice()) {
        return Numeric::Number(JsNumber::PositiveInfinity);
    }
    if bytes_equal(t.as_slice(), plus_infinity.as_slice()) {
        return Numeric::Number(JsNumber::PositiveInfinity);
    }
    if bytes_equal(t.as_slice(), minus_infinity.as_slice()) {
        return Numeric::Number(JsNumber::NegativeInfinity);
    }
    if t[0] == '-' as u8 || t[0] == '+' as u8 {
        assert(t@.skip(1) =~= t@.drop_first());
        return parse_decimal(&t, 1, t[0] == '-' as u8);
    }
    assert(t@.skip(0) =~= t@);
    parse_decimal(&t, 0, false)
}

/// ToString(v).
pub fn to_string(v: &Value) -> (r: JsResult<Vec<u8>>)
    ensures
        match r {
            Ok(s) => spec_to_string(v@) == Ok::<Seq<u8>, ExceptionType>(s@),
            Err(e) => spec_to_string(v@) == Err::<Seq<u8>, ExceptionType>(e.kind),
        },
{
    match v {
        Value::Undefined => Ok(
            vec!['u' as u8, 'n' as u8, 'd' as u8, 'e' as u8, 'f' as u8, 'i' as u8, 'n' as u8, 'e' as u8, 'd' as u8],
        ),
        Value::Null => Ok(vec!['n' as u8, 'u' as u8, 'l' as u8, 'l' as u8]),
        Value::Boolean(b) => if *b {
            Ok(vec!['t' as u8, 'r' as u8, 'u' as u8, 'e' as u8])
        } else {
            Ok(vec!['f' as u8, 'a' as u8, 'l' as u8, 's' as u8, 'e' as u8])
        },
        Value::String(s) => Ok(crate::value::copy_bytes(s)),
        Value::Number(n) => Ok(number_to_string_exec(*n)),
        Value::Symbol(_) => Err(
            JsError { kind: ExceptionType::TypeError, message: "Cannot convert a Symbol value to a string" },
        ),
        _ => Err(
            JsError { kind: ExceptionType::TypeError, message: "Cannot convert object to primitive value" },
        ),
    }
}

/// ToBoolean(v).
pub fn to_boolean(v: &Value) -> (r: bool)
    ensures
        r == spec_to_boolean(v@),
{
    match v {
        Value::Undefined => false,
        Value::Null => false,
        Value::Boolean(b) => *b,
        Value::String(s) => s.len() > 0,
        Value::Number(n) => match n {
            JsNumber::NaN => false,
            JsNumber::Integer(i) => *i != 0,
            _ => true,
        },
        _ => true,
    }
}

/// ToNumber(v).
pub fn to_number(v: &Value) -> (r: JsResult<Numeric>)
    ensures
        crate::heap::completes_as(r, spec_to_number(v@)),
{
    match v {
        Value::Undefined => Ok(Numeric::Number(JsNumber::NaN)),
        Value::Null => Ok(Numeric::Number(JsNumber::Integer(0))),
        Value::Boolean(b) => Ok(Numeric::Number(JsNumber::Integer(if *b { 1 } else { 0 }))),
        Value::String(s) => Ok(string_to_number_exec(s)),
        Value::Number(n) => Ok(Numeric::Number(*n)),
        Value::Symbol(_) => Err(
            JsError { kind: ExceptionType::TypeError, message: "Cannot convert a Symbol value to a number" },
        ),
        _ => Err(
            JsError { kind: ExceptionType::TypeError, message: "Cannot convert object to primitive value" },
        ),
    }
}

} // verus!

verus! {

/// The decimal digits of `n` are digits whose value is `n`.
proof fn lemma_decimal_digits(n: nat)
    ensures
        all_digits(decimal_digits(n)),
        decimal_digits(n).len() >= 1,
        digits_value(decimal_digits(n)) == n,
    decreases n,
{
    if n < 10 {
        assert(decimal_digits(n).drop_last() =~= Seq::<u8>::empty());
        assert(digit_char(n as int) as int == n + 48);
        assert(digits_value(Seq::<u8>::empty()) == 0);
        assert(digits_value(decimal_digits(n)) == digits_value(decimal_digits(n).drop_last()) * 10 + (
        decimal_digits(n).last() - 48));
    } else {
        lemma_decimal_digits(n / 10);
        let d = decimal_digits(n);
        assert(digit_char((n % 10) as int) as int == n % 10 + 48);
        assert(d.last() == digit_char((n % 10) as int));
        assert((n / 10) * 10 + n % 10 == n);
        assert(digits_value(d) == digits_value(d.drop_last()) * 10 + (d.last() - 48));
        assert(d.drop_last() =~= decimal_digits(n / 10));
        assert forall|i: int| 0 <= i < d.len() implies is_digit(#[trigger] d[i]) by {
            if i < d.len() - 1 {
                assert(d[i] == decimal_digits(n / 10)[i]);
            }
        }
    }
}

/// A run of decimal digits denotes its integer.
proof fn lemma_digit_string_value(negative: bool, u: Seq<u8>)
    requires
        u.len() > 0,
        all_digits(u),
    ensures
        decimal_literal_value(negative, u) == Numeric::Number(signed_integer_number(negative, u)),
{
    assert forall|j: int| 0 <= j < u.len() implies u[j] != 'e' as u8 && u[j] != 'E' as u8 by {
        assert(is_digit(u[j]));
    }
    lemma_position_absent(u, 'e' as u8, 'E' as u8);
    let mantissa = u.take(u.len() as int);
    assert(mantissa =~= u);
    assert forall|j: int| 0 <= j < mantissa.len() implies mantissa[j] != '.' as u8 && mantissa[j] != '.' as u8 by {
        assert(is_digit(u[j]));
    }
    lemma_position_absent(mantissa, '.' as u8, '.' as u8);
    assert(mantissa.take(u.len() as int) =~= u);
    assert(all_digits(Seq::<u8>::empty()));
    assert(u + Seq::<u8>::empty() =~= u);
    assert(pow10(0) == 1);
}

/// The string "NaN" is no decimal literal.
proof fn lemma_nan_string()
    ensures
        decimal_literal_value(false, str_nan()) == Numeric::Number(JsNumber::NaN),
{
    let u = str_nan();
    assert forall|j: int| 0 <= j < u.len() implies u[j] != 'e' as u8 && u[j] != 'E' as u8 && u[j] != '.' as u8 by {}
    lemma_position_absent(u, 'e' as u8, 'E' as u8);
    let mantissa = u.take(3);
    assert(mantissa =~= u);
    lemma_position_absent(mantissa, '.' as u8, '.' as u8);
    assert(mantissa.take(3) =~= u);
    assert(!is_digit(u[0]));
}

/// Every Number of this model survives a round trip through its string:
/// ToNumber(ToString(n)) is n.
pub proof fn number_string_round_trip(n: JsNumber)
    ensures
        spec_to_number(ValueView::String(number_to_string(n))) == Ok::<Numeric, ExceptionType>(Numeric::Number(n)),
{
    let s = number_to_string(n);
    match n {
        JsNumber::NaN => {
            assert(s.len() == 3);
            assert(trim_start(s) == s);
            assert(trim_end(s) == s);
            lemma_nan_string();
        },
        JsNumber::PositiveInfinity => {
            assert(trim_start(s) == s);
            assert(trim_end(s) == s);
        },
        JsNumber::NegativeInfinity => {
            assert(s[0] == '-' as u8);
            assert(s.last() == 'y' as u8);
            assert(trim_start(s) == s);
            assert(trim_end(s) == s);
            assert(s.len() != str_infinity().len());
            assert(s[0] != (seq!['+' as u8] + str_infinity())[0]);
        },
        JsNumber::Integer(i) => {
            if i < 0 {
                let m = (-i) as nat;
                lemma_decimal_digits(m);
                let d = decimal_digits(m);
                assert(s[0] == '-' as u8);
                assert(s.last() == d.last());
                assert(is_digit(d[0]) && is_digit(d.last()));
                assert(trim_start(s) == s);
                assert(trim_end(s) == s);
                assert(s.drop_first() =~= d);
                assert(s[1] == d[0]);
                assert(s[1] != str_infinity()[0]);
                assert(s != str_infinity());
                assert(s != seq!['+' as u8] + str_infinity());
                assert((seq!['-' as u8] + str_infinity())[1] == 'I' as u8);
                assert(s != seq!['-' as u8] + str_infinity());
                lemma_digit_string_value(true, d);
            } else {
                let m = i as nat;
                lemma_decimal_digits(m);
                assert(is_digit(s[0]) && is_digit(s.last()));
                assert(trim_start(s) == s);
                assert(trim_end(s) == s);
                assert(s[0] != str_infinity()[0]);
                assert(s != str_infinity());
                assert(s != seq!['+' as u8] + str_infinity());
                assert(s != seq!['-' as u8] + str_infinity());
                lemma_digit_string_value(false, s);
            }
        },
    }
}


/// The value of a digit string is below 10 to the number of its digits.
proof fn lemma_digits_value_below(s: Seq<u8>)
    requires
        all_digits(s),
    ensures
        0 <= digits_value(s) < pow10(s.len() as nat),
    decreases s.len(),
{
    if s.len() > 0 {
        let d = s.drop_last();
        assert(all_digits(d)) by {
            assert forall|i: int| 0 <= i < d.len() implies is_digit(#[trigger] d[i]) by {
                assert(d[i] == s[i]);
            }
        }
        assert(is_digit(s[s.len() - 1]));
        lemma_digits_value_below(d);
        assert(pow10(s.len() as nat) == 10 * pow10(d.len() as nat));
    }
}

/// The value of two digit strings put together.
proof fn lemma_digits_value_concat(a: Seq<u8>, b: Seq<u8>)
    ensures
        digits_value(a + b) == digits_value(a) * pow10(b.len() as nat) + digits_value(b),
    decreases b.len(),
{
    if b.len() == 0 {
        assert(a + b =~= a);
    } else {
        let b1 = b.drop_last();
        lemma_digits_value_concat(a, b1);
        assert((a + b).drop_last() =~= a + b1);
        assert((a + b).last() == b.last());
        assert(pow10(b.len() as nat) == 10 * pow10(b1.len() as nat));
        assert(digits_value(a) * (10 * pow10(b1.len() as nat)) == (digits_value(a) * pow10(b1.len() as nat)) * 10)
            by (nonlinear_arith);
    }
}

/// A run of digits with a fraction after it truncates to the integer of
/// the run: ToIntegerWithTruncation of "12.75" is 12, of "12." is 12.
pub proof fn fraction_truncates_to_integer_part(s: Seq<u8>, t: Seq<u8>)
    requires
        s.len() > 0,
        all_digits(s),
        all_digits(t),
        digits_value(s) <= i64::MAX,
    ensures
        ({
            let v = digits_value(s) as i64;
            let n = string_to_number(s + seq!['.' as u8] + t);
            ||| n == Numeric::Number(JsNumber::Integer(v))
            ||| n == Numeric::Fraction(v)
        }),
        string_to_number(s + seq!['.' as u8] + t) == Numeric::Fraction(digits_value(s) as i64) <==> digits_value(t)
            != 0,
{
    let u = s + seq!['.' as u8] + t;
    let p = s.len() as int;
    assert(u[0] == s[0]);
    assert(is_digit(s[0]));
    assert(u[p] == '.' as u8);
    assert forall|j: int| 0 <= j < u.len() implies u[j] != 'e' as u8 && u[j] != 'E' as u8 by {
        if j < p {
            assert(u[j] == s[j]);
            assert(is_digit(s[j]));
        } else if j > p {
            assert(u[j] == t[j - p - 1]);
            assert(is_digit(t[j - p - 1]));
        }
    }
    lemma_position_absent(u, 'e' as u8, 'E' as u8);
    let mantissa = u.take(u.len() as int);
    assert(mantissa =~= u);
    assert(is_first_of(mantissa, '.' as u8, '.' as u8, p)) by {
        assert forall|j: int| 0 <= j < p implies mantissa[j] != '.' as u8 && mantissa[j] != '.' as u8 by {
            assert(mantissa[j] == s[j]);
            assert(is_digit(s[j]));
        }
    }
    lemma_position_found(mantissa, '.' as u8, '.' as u8, p);
    assert(mantissa.take(p) =~= s);
    assert(mantissa.skip(p + 1) =~= t);
    // white space and the other kinds of literal
    let last = u[u.len() - 1];
    assert(last == '.' as u8 || is_digit(last)) by {
        if t.len() > 0 {
            assert(u[u.len() - 1] == t[t.len() - 1]);
            assert(is_digit(t[t.len() - 1]));
        }
    }
    assert(leading_white_space_len(u) == 0);
    assert(trailing_white_space_len(u) == 0);
    assert(trim_start(u) == u);
    assert(trim_end(u) == u);
    if u.len() > 1 {
        assert(u[1] == '.' as u8 || is_digit(u[1])) by {
            if p > 1 {
                assert(u[1] == s[1]);
                assert(is_digit(s[1]));
            }
        }
    }
    assert(!is_non_decimal_literal(u));
    assert(u != str_infinity()) by {
        reveal_strlit("Infinity");
        assert(u[0] != str_infinity()[0]);
    }
    assert(u != seq!['+' as u8] + str_infinity());
    assert(u != seq!['-' as u8] + str_infinity());
    assert(decimal_parts(u) == Some((s, t, 0int)));
    // the value
    let a = digits_value(s);
    let b = digits_value(t);
    let pw = pow10(t.len() as nat);
    lemma_digits_value_concat(s, t);
    lemma_digits_value_below(t);
    lemma_digits_value_nonnegative(s);
    lemma_pow10_positive(t.len() as nat);
    let m = a * pw + b;
    assert(m >= 0) by (nonlinear_arith)
        requires
            a >= 0,
            pw >= 1,
            b >= 0,
            m == a * pw + b,
    ;
    vstd::arithmetic::mul::lemma_mul_is_commutative(a, pw);
    vstd::arithmetic::div_mod::lemma_fundamental_div_mod_converse(m, pw, a, b);
    if t.len() == 0 {
        assert(pw == 1);
    }
    assert(m % pow10((-(0 - t.len())) as nat) == b);
    assert(m / pow10((-(0 - t.len())) as nat) == a);
}

} // verus!
