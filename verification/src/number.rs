//! Binary floating-point numbers held as their IEEE 754 bit patterns.
//!
//! Whether a number is finite, and how two numbers compare, is a matter of integers on these
//! patterns: without its sign bit a pattern grows with the magnitude it stands for.

use vstd::prelude::*;

use crate::text::chars_of;

verus! {

/// A single-precision number. Two values are equal when their bit patterns are.
#[derive(Debug, Clone, Copy, PartialEq, Eq, Structural)]
pub struct Single {
    pub bits: u32,
}

/// Zero, as a single-precision pattern.
pub const ZERO: u32 = 0;

/// The nearest single-precision number to 0.01, as a single-precision pattern.
pub const HUNDREDTH: u32 = 0x3c23_d70a;

/// The nearest single-precision number to 0.05, as a single-precision pattern.
pub const TWENTIETH: u32 = 0x3d4c_cccd;

/// The nearest single-precision number to 0.3, as a single-precision pattern.
pub const THREE_TENTHS: u32 = 0x3e99_999a;

/// One half, as a single-precision pattern.
pub const HALF: u32 = 0x3f00_0000;

/// The nearest single-precision number to 0.6, as a single-precision pattern.
pub const SIX_TENTHS: u32 = 0x3f19_999a;

/// One, as a single-precision pattern.
pub const ONE: u32 = 0x3f80_0000;

/// Two, as a single-precision pattern.
pub const TWO: u32 = 0x4000_0000;

/// Three, as a single-precision pattern.
pub const THREE: u32 = 0x4040_0000;

/// Four, as a single-precision pattern.
pub const FOUR: u32 = 0x4080_0000;

/// Five, as a single-precision pattern.
pub const FIVE: u32 = 0x40a0_0000;

/// Twenty, as a single-precision pattern.
pub const TWENTY: u32 = 0x41a0_0000;

/// Thirty, as a single-precision pattern.
pub const THIRTY: u32 = 0x41f0_0000;

/// One hundred, as a single-precision pattern.
pub const HUNDRED: u32 = 0x42c8_0000;

/// Minus one half, as a single-precision pattern.
pub const MINUS_HALF: u32 = 0xbf00_0000;

/// Minus one, as a single-precision pattern.
pub const MINUS_ONE: u32 = 0xbf80_0000;

/// Minus twenty, as a single-precision pattern.
pub const MINUS_TWENTY: u32 = 0xc1a0_0000;

/// Minus one hundred, as a single-precision pattern.
pub const MINUS_HUNDRED: u32 = 0xc2c8_0000;

/// The pattern of the magnitude: `bits` without the sign.
pub open spec fn magnitude32(bits: u32) -> int {
    if bits >= 0x8000_0000 {
        bits - 0x8000_0000
    } else {
        bits as int
    }
}

impl Single {
    /// Neither an infinity nor a NaN.
    pub open spec fn finite(self) -> bool {
        magnitude32(self.bits) < 0x7f80_0000
    }

    /// A NaN.
    pub open spec fn nan(self) -> bool {
        magnitude32(self.bits) > 0x7f80_0000
    }

    /// An integer that grows with the number; both zeros have rank 0.
    pub open spec fn rank(self) -> int {
        if self.bits >= 0x8000_0000 {
            -magnitude32(self.bits)
        } else {
            magnitude32(self.bits)
        }
    }

    /// An integer that orders all patterns as IEEE 754's total order does: as `rank`, with the
    /// negative zero below the positive one and NaNs at the ends.
    pub open spec fn total_rank(self) -> int {
        if self.bits >= 0x8000_0000 {
            -magnitude32(self.bits) - 1
        } else {
            magnitude32(self.bits)
        }
    }

    /// `self <= other` as numbers; false where either is a NaN.
    pub open spec fn at_most(self, other: Single) -> bool {
        !self.nan() && !other.nan() && self.rank() <= other.rank()
    }

    /// `self == other` as numbers: the zeros are equal, a NaN equals nothing.
    pub open spec fn equals(self, other: Single) -> bool {
        !self.nan() && !other.nan() && self.rank() == other.rank()
    }

    /// A finite number between `min` and `max`, both of them allowed.
    pub open spec fn within(self, min: Single, max: Single) -> bool {
        self.finite() && min.at_most(self) && self.at_most(max)
    }

    fn magnitude(self) -> (r: u32)
        ensures
            r == magnitude32(self.bits),
    {
        if self.bits >= 0x8000_0000 {
            self.bits - 0x8000_0000
        } else {
            self.bits
        }
    }

    fn signed_rank(self) -> (r: i64)
        ensures
            r == self.rank(),
    {
        if self.bits >= 0x8000_0000 {
            0 - self.magnitude() as i64
        } else {
            self.magnitude() as i64
        }
    }

    /// Whether the number is neither an infinity nor a NaN.
    pub fn is_finite(self) -> (r: bool)
        ensures
            r == self.finite(),
    {
        self.magnitude() < 0x7f80_0000
    }

    /// Whether the value is a NaN.
    pub fn is_nan(self) -> (r: bool)
        ensures
            r == self.nan(),
    {
        self.magnitude() > 0x7f80_0000
    }

    /// Whether `self <= other` as numbers.
    pub fn is_at_most(self, other: Single) -> (r: bool)
        ensures
            r == self.at_most(other),
    {
        !self.is_nan() && !other.is_nan() && self.signed_rank() <= other.signed_rank()
    }

    /// Whether `self == other` as numbers.
    pub fn same_number(self, other: Single) -> (r: bool)
        ensures
            r == self.equals(other),
    {
        !self.is_nan() && !other.is_nan() && self.signed_rank() == other.signed_rank()
    }

    /// Whether the number is finite and lies between `min` and `max`.
    pub fn is_within(self, min: Single, max: Single) -> (r: bool)
        ensures
            r == self.within(min, max),
    {
        self.is_finite() && min.is_at_most(self) && self.is_at_most(max)
    }

    /// Whether `self` comes before `other` in the total order of patterns.
    pub fn precedes(self, other: Single) -> (r: bool)
        ensures
            r == (self.total_rank() < other.total_rank()),
    {
        let a: i64 = if self.bits >= 0x8000_0000 {
            0 - self.magnitude() as i64 - 1
        } else {
            self.magnitude() as i64
        };
        let b: i64 = if other.bits >= 0x8000_0000 {
            0 - other.magnitude() as i64 - 1
        } else {
            other.magnitude() as i64
        };
        a < b
    }
}

/// The total order tells any two patterns apart.
pub proof fn total_rank_is_injective(a: Single, b: Single)
    requires
        a.total_rank() == b.total_rank(),
    ensures
        a == b,
{
}

/// The character that a number below sixteen stands for in a number's text.
pub open spec fn symbol(n: int) -> char {
    if n <= 10 {
        (47 + n) as char
    } else if n == 11 {
        '-'
    } else if n == 12 {
        '.'
    } else if n == 13 {
        'e'
    } else {
        '+'
    }
}

/// The characters that a code stands for: four bits for each, the first ones lowest.
pub open spec fn decoded(code: nat) -> Seq<char>
    decreases code,
{
    if code == 0 {
        Seq::empty()
    } else {
        seq![symbol((code % 16) as int)] + decoded(code / 16)
    }
}

/// The text that a number is written as in a document, at most thirty-two characters long: digits,
/// signs, a decimal point and an exponent.
#[derive(Debug, Clone, Copy, PartialEq, Eq, Structural)]
pub struct NumberText {
    pub code: u128,
}

/// A character can stand in a number's text.
pub open spec fn writes_numbers(c: char) -> bool {
    '0' <= c <= '9' || c == '-' || c == '.' || c == 'e' || c == '+'
}

/// A character by its place among those of a number's text.
fn symbol_place(c: char) -> (r: Option<u128>)
    ensures
        match r {
            Some(n) => writes_numbers(c) && 1 <= n <= 14 && symbol(n as int) == c,
            None => !writes_numbers(c),
        },
{
    if c >= '0' && c <= '9' {
        Some((c as u128) - 47)
    } else if c == '-' {
        Some(11)
    } else if c == '.' {
        Some(12)
    } else if c == 'e' {
        Some(13)
    } else if c == '+' {
        Some(14)
    } else {
        None
    }
}

fn symbol_at(n: u128) -> (r: char)
    requires
        n < 16,
    ensures
        r == symbol(n as int),
{
    if n <= 10 {
        (47 + n as u8) as char
    } else if n == 11 {
        '-'
    } else if n == 12 {
        '.'
    } else if n == 13 {
        'e'
    } else {
        '+'
    }
}

/// Sixteen to the power `k`.
spec fn sixteen_to(k: nat) -> nat
    decreases k,
{
    if k == 0 {
        1
    } else {
        16 * sixteen_to((k - 1) as nat)
    }
}

proof fn codes_fit(k: nat)
    requires
        k <= 32,
    ensures
        sixteen_to(k) <= u128::MAX + 1,
    decreases 32 - k,
{
    if k == 32 {
        reveal_with_fuel(sixteen_to, 33);
    } else {
        codes_fit(k + 1);
    }
}

impl View for NumberText {
    type V = Seq<char>;

    open spec fn view(&self) -> Seq<char> {
        decoded(self.code as nat)
    }
}

impl NumberText {
    /// The text of a number; none where it is too long or holds anything else.
    pub fn new(text: &str) -> (r: Option<NumberText>)
        ensures
            match r {
                Some(t) => t@ == text@,
                None => text@.len() > 32 || exists|i: int|
                    0 <= i < text@.len() && !writes_numbers(#[trigger] text@[i]),
            },
    {
        let chars: Vec<char> = chars_of(text);
        if chars.len() > 32 {
            return None;
        }
        let mut code: u128 = 0;
        let mut i: usize = chars.len();
        proof {
            assert(chars@.skip(i as int) =~= Seq::<char>::empty());
        }
        while i > 0
            invariant
                i <= chars.len() <= 32,
                chars@ == text@,
                decoded(code as nat) == chars@.skip(i as int),
                code < sixteen_to((chars.len() - i) as nat),
            decreases i,
        {
            i = i - 1;
            match symbol_place(chars[i]) {
                None => {
                    return None;
                },
                Some(n) => {
                    proof {
                        codes_fit((chars.len() - i) as nat);
                        let next = (16 * code + n) as nat;
                        assert(next % 16 == n && next / 16 == code);
                        assert(chars@.skip(i as int) =~= seq![chars@[i as int]] + chars@.skip(
                            i + 1,
                        ));
                    }
                    code = 16 * code + n;
                },
            }
        }
        proof {
            assert(chars@.skip(0) =~= chars@);
        }
        Some(NumberText { code })
    }

    /// The text.
    pub fn to_text(self) -> (r: String)
        ensures
            r@ == self@,
    {
        let mut r: String = String::new();
        let mut code: u128 = self.code;
        while code > 0
            invariant
                r@ + decoded(code as nat) == self@,
            decreases code,
        {
            let ghost before = r@;
            r.push(symbol_at(code % 16));
            proof {
                assert(before + decoded(code as nat) =~= r@ + decoded((code / 16) as nat));
            }
            code = code / 16;
        }
        proof {
            assert(r@ + Seq::<char>::empty() =~= r@);
        }
        r
    }
}

/// A double-precision number, with what the engine's controls take from it.
///
/// `single` is the number rounded to single precision, `percent` the hundredth of it rounded to
/// single precision, `whole` the number cut off at the decimal point and held to the range of
/// `i128` (0 for a NaN), and `text` what a document writes it as (nothing where it is not finite).
#[derive(Debug, Clone, Copy, PartialEq, Eq, Structural)]
pub struct Double {
    pub bits: u64,
    pub single: Single,
    pub percent: Single,
    pub whole: i128,
    pub text: NumberText,
}

/// The pattern of the magnitude: `bits` without the sign.
pub open spec fn magnitude64(bits: u64) -> int {
    if bits >= 0x8000_0000_0000_0000 {
        bits - 0x8000_0000_0000_0000
    } else {
        bits as int
    }
}

impl Double {
    /// Neither an infinity nor a NaN.
    pub open spec fn finite(self) -> bool {
        magnitude64(self.bits) < 0x7ff0_0000_0000_0000
    }

    /// A NaN.
    pub open spec fn nan(self) -> bool {
        magnitude64(self.bits) > 0x7ff0_0000_0000_0000
    }

    /// An integer that grows with the number; both zeros have rank 0.
    pub open spec fn rank(self) -> int {
        if self.bits >= 0x8000_0000_0000_0000 {
            -magnitude64(self.bits)
        } else {
            magnitude64(self.bits)
        }
    }

    /// `self <= other` as numbers; false where either is a NaN.
    pub open spec fn at_most(self, other: Double) -> bool {
        !self.nan() && !other.nan() && self.rank() <= other.rank()
    }

    /// `self == other` as numbers: the zeros are equal, a NaN equals nothing.
    pub open spec fn equals(self, other: Double) -> bool {
        !self.nan() && !other.nan() && self.rank() == other.rank()
    }

    /// A finite number between `min` and `max`, both of them allowed.
    pub open spec fn within(self, min: Double, max: Double) -> bool {
        self.finite() && min.at_most(self) && self.at_most(max)
    }

    fn magnitude(self) -> (r: u64)
        ensures
            r == magnitude64(self.bits),
    {
        if self.bits >= 0x8000_0000_0000_0000 {
            self.bits - 0x8000_0000_0000_0000
        } else {
            self.bits
        }
    }

    fn signed_rank(self) -> (r: i128)
        ensures
            r == self.rank(),
    {
        if self.bits >= 0x8000_0000_0000_0000 {
            0 - self.magnitude() as i128
        } else {
            self.magnitude() as i128
        }
    }

    /// Whether the number is neither an infinity nor a NaN.
    pub fn is_finite(self) -> (r: bool)
        ensures
            r == self.finite(),
    {
        self.magnitude() < 0x7ff0_0000_0000_0000
    }

    /// Whether the value is a NaN.
    pub fn is_nan(self) -> (r: bool)
        ensures
            r == self.nan(),
    {
        self.magnitude() > 0x7ff0_0000_0000_0000
    }

    /// Whether `self <= other` as numbers.
    pub fn is_at_most(self, other: Double) -> (r: bool)
        ensures
            r == self.at_most(other),
    {
        !self.is_nan() && !other.is_nan() && self.signed_rank() <= other.signed_rank()
    }

    /// Whether `self == other` as numbers.
    pub fn same_number(self, other: Double) -> (r: bool)
        ensures
            r == self.equals(other),
    {
        !self.is_nan() && !other.is_nan() && self.signed_rank() == other.signed_rank()
    }

    /// Whether the number is finite and lies between `min` and `max`.
    pub fn is_within(self, min: Double, max: Double) -> (r: bool)
        ensures
            r == self.within(min, max),
    {
        self.is_finite() && min.is_at_most(self) && self.is_at_most(max)
    }
}

/// `n` held between `low` and `high`.
pub open spec fn clamped(n: int, low: int, high: int) -> int {
    if n < low {
        low
    } else if n > high {
        high
    } else {
        n
    }
}

impl Double {
    /// The number as `u64`: cut off at the decimal point and held to the range of the type.
    pub fn to_u64(self) -> (r: u64)
        ensures
            r == clamped(self.whole as int, 0, u64::MAX as int),
    {
        if self.whole < 0 {
            0
        } else if self.whole > u64::MAX as i128 {
            u64::MAX
        } else {
            self.whole as u64
        }
    }

    /// The number as `u32`: cut off at the decimal point and held to the range of the type.
    pub fn to_u32(self) -> (r: u32)
        ensures
            r == clamped(self.whole as int, 0, u32::MAX as int),
    {
        if self.whole < 0 {
            0
        } else if self.whole > u32::MAX as i128 {
            u32::MAX
        } else {
            self.whole as u32
        }
    }

    /// The number as `u16`: cut off at the decimal point and held to the range of the type.
    pub fn to_u16(self) -> (r: u16)
        ensures
            r == clamped(self.whole as int, 0, u16::MAX as int),
    {
        if self.whole < 0 {
            0
        } else if self.whole > u16::MAX as i128 {
            u16::MAX
        } else {
            self.whole as u16
        }
    }

    /// The number as `u8`: cut off at the decimal point and held to the range of the type.
    pub fn to_u8(self) -> (r: u8)
        ensures
            r == clamped(self.whole as int, 0, u8::MAX as int),
    {
        if self.whole < 0 {
            0
        } else if self.whole > u8::MAX as i128 {
            u8::MAX
        } else {
            self.whole as u8
        }
    }

    /// The number as `i32`: cut off at the decimal point and held to the range of the type.
    pub fn to_i32(self) -> (r: i32)
        ensures
            r == clamped(self.whole as int, i32::MIN as int, i32::MAX as int),
    {
        if self.whole < i32::MIN as i128 {
            i32::MIN
        } else if self.whole > i32::MAX as i128 {
            i32::MAX
        } else {
            self.whole as i32
        }
    }
}

/// Two to the power `n`.
pub open spec fn two_to(n: nat) -> nat
    decreases n,
{
    if n == 0 {
        1
    } else {
        2 * two_to((n - 1) as nat)
    }
}

proof fn powers_grow(a: nat, b: nat)
    requires
        a <= b,
    ensures
        1 <= two_to(a) <= two_to(b),
    decreases b,
{
    if b > 0 {
        if a < b {
            powers_grow(a, (b - 1) as nat);
        } else {
            powers_grow((a - 1) as nat, (b - 1) as nat);
        }
    }
}

/// The number that a magnitude stands for, in units of the smallest one: the low `width` bits are
/// the digits behind the point, and those above them say how often it is doubled. Without
/// doubling there is nothing before the point, with it there is a one.
pub open spec fn worth(magnitude: int, width: nat) -> int {
    let unit = two_to(width) as int;
    let digits = magnitude % unit;
    let doublings = magnitude / unit;
    if doublings == 0 {
        digits
    } else {
        (unit + digits) * two_to((doublings - 1) as nat)
    }
}

proof fn worth_is_a_step(unit: int, digits: int, doublings: nat)
    requires
        unit >= 1,
        0 <= digits < unit,
        doublings >= 1,
    ensures
        unit * two_to((doublings - 1) as nat) <= (unit + digits) * two_to((doublings - 1) as nat)
            < unit * two_to(doublings),
{
    let power = two_to((doublings - 1) as nat) as int;
    powers_grow(0, (doublings - 1) as nat);
    assert(unit * power <= (unit + digits) * power && (unit + digits) * power < unit * (2 * power))
        by (nonlinear_arith)
        requires
            power >= 1,
            unit >= 1,
            0 <= digits < unit,
    ;
}

/// A larger magnitude stands for a larger number.
proof fn worth_grows(a: int, b: int, width: nat)
    requires
        0 <= a < b,
    ensures
        0 <= worth(a, width) < worth(b, width),
{
    let unit = two_to(width) as int;
    powers_grow(0, width);
    let x = a % unit;
    let y = b % unit;
    let m = a / unit;
    let n = b / unit;
    assert(a == unit * m + x && 0 <= x < unit && m >= 0) by (nonlinear_arith)
        requires
            unit >= 1,
            a >= 0,
            x == a % unit,
            m == a / unit,
    ;
    assert(b == unit * n + y && 0 <= y < unit && n >= 0) by (nonlinear_arith)
        requires
            unit >= 1,
            b >= 0,
            y == b % unit,
            n == b / unit,
    ;
    assert(m <= n) by (nonlinear_arith)
        requires
            unit >= 1,
            unit * m + x < unit * n + y,
            0 <= x,
            y < unit,
    ;
    if m >= 1 {
        worth_is_a_step(unit, x, m as nat);
        assert(unit * two_to((m - 1) as nat) >= 0) by (nonlinear_arith)
            requires
                unit >= 1,
        ;
    }
    if n >= 1 {
        worth_is_a_step(unit, y, n as nat);
    }
    if m == n {
        assert(x < y);
        if m >= 1 {
            let power = two_to((m - 1) as nat) as int;
            powers_grow(0, (m - 1) as nat);
            assert((unit + x) * power < (unit + y) * power) by (nonlinear_arith)
                requires
                    x < y,
                    power >= 1,
            ;
        }
    } else {
        powers_grow(m as nat, (n - 1) as nat);
        let low = two_to(m as nat) as int;
        let high = two_to((n - 1) as nat) as int;
        assert(unit * low <= unit * high) by (nonlinear_arith)
            requires
                unit >= 1,
                low <= high,
        ;
        if m == 0 {
            assert(low == 1);
        }
    }
}

/// The number that a single-precision pattern stands for, in units of the smallest positive one.
pub open spec fn single_worth(bits: u32) -> int {
    if bits >= 0x8000_0000 {
        -worth(bits - 0x8000_0000, 23)
    } else {
        worth(bits as int, 23)
    }
}

/// The number that a double-precision pattern stands for, in units of the smallest positive one.
pub open spec fn double_worth(bits: u64) -> int {
    if bits >= 0x8000_0000_0000_0000 {
        -worth(bits - 0x8000_0000_0000_0000, 52)
    } else {
        worth(bits as int, 52)
    }
}

proof fn worth_of_zero(width: nat)
    ensures
        worth(0, width) == 0,
{
    powers_grow(0, width);
    let unit = two_to(width) as int;
    assert(0int % unit == 0 && 0int / unit == 0) by (nonlinear_arith)
        requires
            unit >= 1,
    ;
}

proof fn order_of_worths(a: int, b: int, width: nat)
    requires
        0 <= a,
        0 <= b,
    ensures
        worth(a, width) <= worth(b, width) <==> a <= b,
        worth(a, width) == worth(b, width) <==> a == b,
        worth(a, width) >= 0,
        worth(a, width) == 0 <==> a == 0,
        worth(b, width) >= 0,
        worth(b, width) == 0 <==> b == 0,
{
    worth_of_zero(width);
    if a < b {
        worth_grows(a, b, width);
    } else if b < a {
        worth_grows(b, a, width);
    }
    if a > 0 {
        worth_grows(0, a, width);
    }
    if b > 0 {
        worth_grows(0, b, width);
    }
}

/// Single-precision numbers are compared by what they stand for, and a pattern is finite exactly
/// where fewer than all of its eight exponent bits are set.
pub proof fn singles_are_compared_by_worth(a: Single, b: Single)
    ensures
        a.finite() <==> (a.bits % 0x8000_0000) / 0x80_0000 < 255,
        a.nan() ==> !a.at_most(b) && !b.at_most(a) && !a.equals(a),
        a.finite() && b.finite() ==> (a.at_most(b) <==> single_worth(a.bits) <= single_worth(
            b.bits,
        )),
        a.finite() && b.finite() ==> (a.equals(b) <==> single_worth(a.bits) == single_worth(
            b.bits,
        )),
{
    order_of_worths(magnitude32(a.bits), magnitude32(b.bits), 23);
}

/// Double-precision numbers are compared by what they stand for, and a pattern is finite exactly
/// where fewer than all of its eleven exponent bits are set.
pub proof fn doubles_are_compared_by_worth(a: Double, b: Double)
    ensures
        a.finite() <==> (a.bits % 0x8000_0000_0000_0000) / 0x10_0000_0000_0000 < 2047,
        a.nan() ==> !a.at_most(b) && !b.at_most(a) && !a.equals(a),
        a.finite() && b.finite() ==> (a.at_most(b) <==> double_worth(a.bits) <= double_worth(
            b.bits,
        )),
        a.finite() && b.finite() ==> (a.equals(b) <==> double_worth(a.bits) == double_worth(
            b.bits,
        )),
{
    order_of_worths(magnitude64(a.bits), magnitude64(b.bits), 52);
}

/// Finite numbers, infinities and what is no number are told apart by the exponent and the
/// fraction; the sign plays no part.
pub proof fn numbers_are_told_apart(a: Single, b: Double)
    ensures
        a.finite() <==> (a.bits % 0x8000_0000) / 0x80_0000 != 255,
        a.nan() <==> (a.bits % 0x8000_0000) / 0x80_0000 == 255 && a.bits % 0x80_0000 != 0,
        b.finite() <==> (b.bits % 0x8000_0000_0000_0000) / 0x10_0000_0000_0000 != 2047,
        b.nan() <==> (b.bits % 0x8000_0000_0000_0000) / 0x10_0000_0000_0000 == 2047 && b.bits
            % 0x10_0000_0000_0000 != 0,
{
}

} // verus!
