//! How much a resource matters next to the others of its site: a decimal
//! number between -1 and 1, kept in millionths.

use std::cmp::Ordering;
use vstd::prelude::*;
use vstd::std_specs::cmp::{PartialEqSpecImpl, PartialOrdSpecImpl};

use crate::attribute::Attribute;

verus! {

/// The number of millionths in one.
pub const SCALE: i32 = 1_000_000;

/// The lowest and the highest priority, in millionths.
pub const MIN_MILLIONTHS: i32 = -1_000_000;

pub const MAX_MILLIONTHS: i32 = 1_000_000;

/// The largest magnitude that is kept of a number, in millionths.
pub const SATURATION: i32 = 2_147_483_647;

/// Why a text is no decimal number.
#[derive(Debug, Clone, Copy, PartialEq, Eq, Structural)]
pub enum DecimalError {
    /// The text is empty.
    Empty,
    /// The text is not a sign, digits, and a point among or beside them.
    Invalid,
}

/// A decimal number as it is read: cut to millionths, and whether nothing
/// was cut off but zeros.
#[derive(Debug, Clone, Copy, PartialEq, Eq, Structural)]
pub struct Decimal {
    /// The number in millionths, cut towards zero.
    pub millionths: i32,
    /// Whether the number is a whole number of millionths.
    pub exact: bool,
}

/// The number lies outside of the priorities; it is kept in millionths.
#[derive(Debug, Clone, Copy, PartialEq, Eq, Structural)]
pub struct PriorityRangeError(pub i32);

/// Why a text is no priority.
#[derive(Debug, Clone, Copy, PartialEq, Eq, Structural)]
pub enum PriorityError {
    /// The text is no decimal number.
    ParseError(DecimalError),
    /// The text is a number that is no priority.
    RangeError(PriorityRangeError),
}

/// A priority: a number of millionths between `MIN_MILLIONTHS` and
/// `MAX_MILLIONTHS`.
#[derive(Debug, Clone, Copy, Eq, Ord)]
pub struct Priority {
    millionths: i32,
}

impl PartialEq for Priority {
    /// Two priorities are equal where their numbers are.
    fn eq(&self, other: &Self) -> (r: bool) {
        self.millionths == other.millionths
    }
}

impl PartialEqSpecImpl for Priority {
    open spec fn obeys_eq_spec() -> bool {
        true
    }

    open spec fn eq_spec(&self, other: &Self) -> bool {
        self@ == other@
    }
}

impl PartialOrd for Priority {
    /// Priorities are ordered as their numbers are.
    fn partial_cmp(&self, other: &Self) -> (r: Option<Ordering>) {
        if self.millionths < other.millionths {
            Some(Ordering::Less)
        } else if self.millionths > other.millionths {
            Some(Ordering::Greater)
        } else {
            Some(Ordering::Equal)
        }
    }
}

impl PartialOrdSpecImpl for Priority {
    open spec fn obeys_partial_cmp_spec() -> bool {
        true
    }

    open spec fn partial_cmp_spec(&self, other: &Self) -> Option<Ordering> {
        if self@ < other@ {
            Some(Ordering::Less)
        } else if self@ > other@ {
            Some(Ordering::Greater)
        } else {
            Some(Ordering::Equal)
        }
    }
}

impl View for Priority {
    type V = int;

    /// The priority in millionths.
    closed spec fn view(&self) -> int {
        self.millionths as int
    }
}

/// Whether a byte is an ASCII digit.
pub open spec fn is_digit(byte: u8) -> bool {
    0x30 <= byte <= 0x39
}

/// Where the run of digits that begins at `from` ends.
pub open spec fn digits_end(text: Seq<u8>, from: int) -> int
    decreases text.len() - from,
{
    if 0 <= from < text.len() && is_digit(text[from]) {
        digits_end(text, from + 1)
    } else {
        from
    }
}

/// The number that a run of digits writes in base ten.
pub open spec fn digits_value(digits: Seq<u8>) -> nat
    decreases digits.len(),
{
    if digits.len() == 0 {
        0
    } else {
        digits_value(digits.drop_last()) * 10 + (digits.last() - 0x30) as nat
    }
}

/// The powers of ten.
pub open spec fn pow10(exponent: nat) -> nat
    decreases exponent,
{
    if exponent == 0 {
        1
    } else {
        10 * pow10((exponent - 1) as nat)
    }
}

/// The millionths that the digits behind a point write; digits past the
/// sixth are dropped.
pub open spec fn fraction_millionths(digits: Seq<u8>) -> nat {
    if digits.len() >= 6 {
        digits_value(digits.subrange(0, 6))
    } else {
        digits_value(digits) * pow10((6 - digits.len()) as nat)
    }
}

/// Whether digits behind a point that are dropped are not all zeros.
pub open spec fn fraction_rest(digits: Seq<u8>) -> bool {
    digits.len() > 6 && digits_value(digits.subrange(6, digits.len() as int)) > 0
}

/// Whether the number that a text writes is a whole number of millionths:
/// no digit past the sixth behind the point is other than zero.
pub open spec fn spec_exact(text: Seq<u8>) -> bool {
    if text.len() == 0 {
        true
    } else {
        let start: int = if text[0] == 0x2B || text[0] == 0x2D {
            1
        } else {
            0
        };
        let point = digits_end(text, start);
        let fraction = if point < text.len() && text[point] == 0x2E {
            point + 1
        } else {
            point
        };
        let end = digits_end(text, fraction);
        !fraction_rest(text.subrange(fraction, end))
    }
}

/// The number that a text writes, in millionths and cut towards zero: an
/// optional sign, then digits, with a point before, among or behind them.
pub open spec fn spec_decimal(text: Seq<u8>) -> Result<int, DecimalError> {
    if text.len() == 0 {
        Err(DecimalError::Empty)
    } else {
        let start: int = if text[0] == 0x2B || text[0] == 0x2D {
            1
        } else {
            0
        };
        let point = digits_end(text, start);
        let fraction = if point < text.len() && text[point] == 0x2E {
            point + 1
        } else {
            point
        };
        let end = digits_end(text, fraction);
        if end != text.len() || (point - start) + (end - fraction) == 0 {
            Err(DecimalError::Invalid)
        } else {
            let magnitude = digits_value(text.subrange(start, point)) * SCALE + fraction_millionths(
                text.subrange(fraction, end),
            );
            Ok(
                if text[0] == 0x2D {
                    -magnitude
                } else {
                    magnitude as int
                },
            )
        }
    }
}

/// A number of millionths as it is kept: a magnitude past `SATURATION` is
/// kept as `SATURATION`.
pub open spec fn saturated(value: int) -> i32 {
    if value > SATURATION {
        SATURATION
    } else if value < -SATURATION {
        (-SATURATION) as i32
    } else {
        value as i32
    }
}

/// What is read of a text that writes a number.
pub open spec fn spec_read(text: Seq<u8>) -> Result<Decimal, DecimalError> {
    match spec_decimal(text) {
        Ok(value) => Ok(Decimal { millionths: saturated(value), exact: spec_exact(text) }),
        Err(error) => Err(error),
    }
}

/// The character of a digit.
pub open spec fn digit_char(digit: int) -> char {
    ((0x30 + digit) as u8) as char
}

/// The digits behind the point for `value` parts of ten times `scale`,
/// without the zeros at their end.
pub open spec fn fraction_text(value: nat, scale: nat) -> Seq<char>
    decreases scale,
{
    if value == 0 || scale == 0 {
        Seq::empty()
    } else {
        seq![digit_char(value as int / scale as int)] + fraction_text(value % scale, scale / 10)
    }
}

/// The text of a number of millionths between minus one and one: the sign
/// of a negative number, `0` or `1`, and the digits behind the point where
/// there are any.
pub open spec fn spec_render(millionths: int) -> Seq<char> {
    let magnitude = if millionths < 0 {
        -millionths
    } else {
        millionths
    };
    let sign = if millionths < 0 {
        seq!['-']
    } else {
        Seq::empty()
    };
    let whole = if magnitude >= SCALE {
        seq!['1']
    } else {
        seq!['0']
    };
    let fraction = magnitude % (SCALE as int);
    if fraction == 0 {
        sign + whole
    } else {
        sign + whole + seq!['.'] + fraction_text(fraction as nat, 100_000)
    }
}

/// The first powers of ten.
proof fn lemma_pow10()
    ensures
        pow10(0) == 1,
        pow10(1) == 10,
        pow10(2) == 100,
        pow10(3) == 1_000,
        pow10(4) == 10_000,
        pow10(5) == 100_000,
        pow10(6) == 1_000_000,
{
    reveal_with_fuel(pow10, 8);
}

/// The bytes of a text of ASCII characters.
pub open spec fn ascii_bytes(text: Seq<char>) -> Seq<u8> {
    Seq::new(text.len(), |i: int| text[i] as u8)
}

/// The powers of ten multiply as their exponents add.
proof fn lemma_pow10_adds(a: nat, b: nat)
    ensures
        pow10(a) * pow10(b) == pow10(a + b),
    decreases a,
{
    if a == 0 {
        assert(pow10(0) * pow10(b) == pow10(b)) by (nonlinear_arith)
            requires
                pow10(0) == 1,
        ;
    } else {
        lemma_pow10_adds((a - 1) as nat, b);
        assert(pow10(a) == 10 * pow10((a - 1) as nat));
        assert(pow10(a + b) == 10 * pow10((a - 1 + b) as nat));
        assert(10 * pow10((a - 1) as nat) * pow10(b) == 10 * (pow10((a - 1) as nat) * pow10(b)))
            by (nonlinear_arith);
    }
}

/// A run of digits that ends at `end` is scanned up to `end`.
proof fn lemma_digits_run(text: Seq<u8>, from: int, end: int)
    requires
        0 <= from <= end <= text.len(),
        forall|i: int| from <= i < end ==> is_digit(#[trigger] text[i]),
        end == text.len() || !is_digit(text[end]),
    ensures
        digits_end(text, from) == end,
    decreases end - from,
{
    if from < end {
        lemma_digits_run(text, from + 1, end);
    }
}

/// A digit before a run of digits counts by the power of ten of their
/// number.
proof fn lemma_digit_before(first: u8, rest: Seq<u8>)
    requires
        is_digit(first),
    ensures
        digits_value(seq![first] + rest) == (first - 0x30) * pow10(rest.len()) + digits_value(
            rest,
        ),
    decreases rest.len(),
{
    let all = seq![first] + rest;
    if rest.len() == 0 {
        assert(all.drop_last() =~= Seq::<u8>::empty());
        assert(digits_value(all.drop_last()) == 0);
        assert(pow10(0) == 1);
        assert((first - 0x30) * pow10(0) == first - 0x30) by (nonlinear_arith)
            requires
                pow10(0) == 1,
        ;
    } else {
        let shorter = rest.drop_last();
        assert(all.drop_last() =~= seq![first] + shorter);
        assert(all.last() == rest.last());
        lemma_digit_before(first, shorter);
        let weight = pow10(shorter.len());
        assert(pow10(rest.len()) == 10 * weight);
        assert(((first - 0x30) * weight + digits_value(shorter)) * 10 == (first - 0x30) * (10
            * weight) + digits_value(shorter) * 10) by (nonlinear_arith);
    }
}

/// What holds of the digits behind the point for a value of at most
/// `places` digits: they are digits, at most `places` of them, and with
/// zeros behind them they write the value.
proof fn lemma_fraction_text(value: nat, places: nat)
    requires
        1 <= places <= 6,
        value < pow10(places),
    ensures
        ({
            let text = fraction_text(value, pow10((places - 1) as nat));
            let bytes = ascii_bytes(text);
            &&& text.len() <= places
            &&& value > 0 ==> text.len() > 0
            &&& forall|i: int| 0 <= i < text.len() ==> is_digit(#[trigger] bytes[i])
            &&& forall|i: int| 0 <= i < text.len() ==> '\0' <= #[trigger] text[i] <= '\u{7f}'
            &&& digits_value(bytes) * pow10((places - text.len()) as nat) == value
        }),
    decreases places,
{
    lemma_pow10();
    let scale = pow10((places - 1) as nat);
    let text = fraction_text(value, scale);
    let bytes = ascii_bytes(text);
    assert(pow10(places) == 10 * scale);
    if value == 0 {
        assert(bytes =~= Seq::<u8>::empty());
        assert(digits_value(bytes) * pow10(places) == 0) by (nonlinear_arith)
            requires
                digits_value(bytes) == 0,
        ;
    } else {
        let digit = value / scale;
        let left = value % scale;
        assert(digit < 10 && left < scale && value == digit * scale + left) by (nonlinear_arith)
            requires
                digit == value / scale,
                left == value % scale,
                value < 10 * scale,
                scale > 0,
        ;
        let first = (0x30 + digit) as u8;
        assert(digit_char(digit as int) as u8 == first);
        if places == 1 {
            assert(left == 0);
            let tail = fraction_text(left, scale / 10);
            assert(tail =~= Seq::<char>::empty());
            assert(text =~= seq![digit_char(digit as int)]);
            assert(bytes =~= seq![first] + Seq::<u8>::empty());
            lemma_digit_before(first, Seq::<u8>::empty());
            assert(digits_value(Seq::<u8>::empty()) == 0);
            assert(digit * pow10(0) * pow10(0) == digit) by (nonlinear_arith)
                requires
                    pow10(0) == 1,
            ;
        } else {
            assert(scale / 10 == pow10((places - 2) as nat));
            let tail = fraction_text(left, scale / 10);
            let tail_bytes = ascii_bytes(tail);
            lemma_fraction_text(left, (places - 1) as nat);
            assert(text =~= seq![digit_char(digit as int)] + tail);
            assert(bytes =~= seq![first] + tail_bytes);
            lemma_digit_before(first, tail_bytes);
            let room = (places - 1 - tail.len()) as nat;
            lemma_pow10_adds(tail.len(), room);
            assert((places - text.len()) as nat == room);
            assert((digit * pow10(tail.len()) + digits_value(tail_bytes)) * pow10(room) == digit
                * (pow10(tail.len()) * pow10(room)) + digits_value(tail_bytes) * pow10(room))
                by (nonlinear_arith);
            assert forall|i: int| 0 <= i < text.len() implies is_digit(#[trigger] bytes[i]) by {
                if i > 0 {
                    assert(bytes[i] == tail_bytes[i - 1]);
                }
            }
            assert forall|i: int| 0 <= i < text.len() implies '\0' <= #[trigger] text[i]
                <= '\u{7f}' by {
                if i > 0 {
                    assert(text[i] == tail[i - 1]);
                }
            }
        }
    }
}

/// Every priority is read back from its own text.
pub proof fn lemma_render_round_trip(millionths: int)
    requires
        MIN_MILLIONTHS <= millionths <= MAX_MILLIONTHS,
    ensures
        spec_decimal(vstd::utf8::encode_utf8(spec_render(millionths))) == Ok::<int, DecimalError>(
            millionths,
        ),
        Priority::spec_parse(spec_render(millionths)) == Ok::<int, PriorityError>(millionths),
{
    lemma_pow10();
    let magnitude = if millionths < 0 {
        -millionths
    } else {
        millionths
    };
    let fraction = (magnitude % (SCALE as int)) as nat;
    let digits = fraction_text(fraction, 100_000);
    lemma_fraction_text(fraction, 6);
    let text = spec_render(millionths);
    let start: int = if millionths < 0 {
        1
    } else {
        0
    };
    let point = start + 1;
    assert(vstd::utf8::is_ascii_chars(text)) by {
        assert forall|i: int| 0 <= i < text.len() implies '\0' <= #[trigger] text[i]
            <= '\u{7f}' by {
            if i >= point + 1 {
                assert(text[i] == digits[i - point - 1]);
            }
        }
    }
    vstd::utf8::is_ascii_chars_encode_utf8(text);
    let bytes = vstd::utf8::encode_utf8(text);
    assert(bytes =~= ascii_bytes(text));
    assert(bytes.subrange(start, point) =~= seq![bytes[start]]);
    lemma_digit_before(bytes[start], Seq::<u8>::empty());
    assert(seq![bytes[start]] + Seq::<u8>::empty() =~= seq![bytes[start]]);
    assert(digits_value(Seq::<u8>::empty()) == 0);
    assert((bytes[start] - 0x30) * pow10(0) == bytes[start] - 0x30) by (nonlinear_arith)
        requires
            pow10(0) == 1,
    ;
    if fraction == 0 {
        assert(text.len() == point);
        lemma_digits_run(bytes, start, point);
        lemma_digits_run(bytes, point, point);
        assert(bytes.subrange(point, point) =~= Seq::<u8>::empty());
        assert(fraction_millionths(Seq::<u8>::empty()) == 0) by (nonlinear_arith)
            requires
                fraction_millionths(Seq::<u8>::empty()) == 0 * pow10(6),
        ;
    } else {
        let behind = point + 1;
        assert(text.len() == behind + digits.len());
        assert(bytes[point] == 0x2E);
        lemma_digits_run(bytes, start, point);
        assert forall|i: int| behind <= i < bytes.len() implies is_digit(#[trigger] bytes[i]) by {
            assert(bytes[i] == ascii_bytes(digits)[i - behind]);
        }
        lemma_digits_run(bytes, behind, bytes.len() as int);
        assert(bytes.subrange(behind, bytes.len() as int) =~= ascii_bytes(digits));
        if digits.len() >= 6 {
            assert(ascii_bytes(digits).subrange(0, 6) =~= ascii_bytes(digits));
            assert(digits_value(ascii_bytes(digits)) * pow10(0) == digits_value(
                ascii_bytes(digits),
            )) by (nonlinear_arith)
                requires
                    pow10(0) == 1,
            ;
        }
        assert(fraction_millionths(ascii_bytes(digits)) == fraction);
    }
}

/// The number of digits behind the point of a text that writes a number.
pub open spec fn spec_places(text: Seq<u8>) -> nat {
    if text.len() == 0 {
        0
    } else {
        let start: int = if text[0] == 0x2B || text[0] == 0x2D {
            1
        } else {
            0
        };
        let point = digits_end(text, start);
        let fraction = if point < text.len() && text[point] == 0x2E {
            point + 1
        } else {
            point
        };
        (digits_end(text, fraction) - fraction) as nat
    }
}

/// The number that a text writes, with all its digits, in parts of ten to
/// the power of `spec_places`.
pub open spec fn spec_parts(text: Seq<u8>) -> int {
    if text.len() == 0 {
        0
    } else {
        let start: int = if text[0] == 0x2B || text[0] == 0x2D {
            1
        } else {
            0
        };
        let point = digits_end(text, start);
        let fraction = if point < text.len() && text[point] == 0x2E {
            point + 1
        } else {
            point
        };
        let end = digits_end(text, fraction);
        let magnitude = digits_value(text.subrange(start, point)) * pow10((end - fraction) as nat)
            + digits_value(text.subrange(fraction, end));
        if text[0] == 0x2D {
            -magnitude
        } else {
            magnitude as int
        }
    }
}

/// The powers of ten are positive.
proof fn lemma_pow10_positive(exponent: nat)
    ensures
        pow10(exponent) > 0,
    decreases exponent,
{
    if exponent > 0 {
        lemma_pow10_positive((exponent - 1) as nat);
    }
}

/// A run of digits lies within the text and holds digits alone.
proof fn lemma_digits_end(text: Seq<u8>, from: int)
    requires
        0 <= from <= text.len(),
    ensures
        from <= digits_end(text, from) <= text.len(),
        forall|i: int| from <= i < digits_end(text, from) ==> is_digit(#[trigger] text[i]),
    decreases text.len() - from,
{
    if from < text.len() && is_digit(text[from]) {
        lemma_digits_end(text, from + 1);
    }
}

/// Digits write a number below the power of ten of their number.
proof fn lemma_digits_value_bound(digits: Seq<u8>)
    requires
        forall|i: int| 0 <= i < digits.len() ==> is_digit(#[trigger] digits[i]),
    ensures
        digits_value(digits) < pow10(digits.len()),
    decreases digits.len(),
{
    if digits.len() > 0 {
        let shorter = digits.drop_last();
        assert forall|i: int| 0 <= i < shorter.len() implies is_digit(#[trigger] shorter[i]) by {
            assert(shorter[i] == digits[i]);
        }
        lemma_digits_value_bound(shorter);
        assert(is_digit(digits[digits.len() - 1]));
        assert(pow10(digits.len()) == 10 * pow10(shorter.len()));
    }
}

/// Digits before digits count by the power of ten of the number of those
/// behind them.
proof fn lemma_digits_value_split(front: Seq<u8>, back: Seq<u8>)
    ensures
        digits_value(front + back) == digits_value(front) * pow10(back.len()) + digits_value(
            back,
        ),
    decreases back.len(),
{
    let all = front + back;
    if back.len() == 0 {
        assert(all =~= front);
        assert(digits_value(front) * pow10(0) == digits_value(front)) by (nonlinear_arith)
            requires
                pow10(0) == 1,
        ;
    } else {
        let shorter = back.drop_last();
        assert(all.drop_last() =~= front + shorter);
        assert(all.last() == back.last());
        lemma_digits_value_split(front, shorter);
        let weight = pow10(shorter.len());
        assert(pow10(back.len()) == 10 * weight);
        assert((digits_value(front) * weight + digits_value(shorter)) * 10 == digits_value(front)
            * (10 * weight) + digits_value(shorter) * 10) by (nonlinear_arith);
    }
}

/// The millionths that are kept of the digits behind a point, and what is
/// dropped, make up the number that all the digits write.
proof fn lemma_fraction_parts(digits: Seq<u8>)
    requires
        forall|i: int| 0 <= i < digits.len() ==> is_digit(#[trigger] digits[i]),
    ensures
        digits.len() <= 6 ==> fraction_millionths(digits) == digits_value(digits) * pow10(
            (6 - digits.len()) as nat,
        ) && !fraction_rest(digits),
        digits.len() > 6 ==> ({
            let dropped = digits_value(digits.subrange(6, digits.len() as int));
            &&& digits_value(digits) == fraction_millionths(digits) * pow10(
                (digits.len() - 6) as nat,
            ) + dropped
            &&& dropped < pow10((digits.len() - 6) as nat)
            &&& fraction_rest(digits) == (dropped > 0)
        }),
{
    lemma_pow10();
    if digits.len() == 6 {
        assert(digits.subrange(0, 6) =~= digits);
        assert(digits_value(digits) * pow10(0) == digits_value(digits)) by (nonlinear_arith)
            requires
                pow10(0) == 1,
        ;
    } else if digits.len() > 6 {
        let kept = digits.subrange(0, 6);
        let dropped = digits.subrange(6, digits.len() as int);
        assert(digits =~= kept + dropped);
        lemma_digits_value_split(kept, dropped);
        assert forall|i: int| 0 <= i < dropped.len() implies is_digit(#[trigger] dropped[i]) by {
            assert(dropped[i] == digits[i + 6]);
        }
        lemma_digits_value_bound(dropped);
    }
}

/// A text that writes a number is read as a priority exactly where the
/// number, with all its digits, lies between minus one and one.
pub proof fn lemma_parse_tests_the_whole_number(text: Seq<char>)
    requires
        spec_decimal(vstd::utf8::encode_utf8(text)) is Ok,
    ensures
        Priority::spec_parse(text) is Ok <==> -pow10(spec_places(vstd::utf8::encode_utf8(text)))
            <= spec_parts(vstd::utf8::encode_utf8(text)) <= pow10(
            spec_places(vstd::utf8::encode_utf8(text)),
        ),
{
    let bytes = vstd::utf8::encode_utf8(text);
    let start: int = if bytes[0] == 0x2B || bytes[0] == 0x2D {
        1
    } else {
        0
    };
    lemma_digits_end(bytes, start);
    let point = digits_end(bytes, start);
    let fraction = if point < bytes.len() && bytes[point] == 0x2E {
        point + 1
    } else {
        point
    };
    lemma_digits_end(bytes, fraction);
    let end = digits_end(bytes, fraction);
    let digits = bytes.subrange(fraction, end);
    let places = digits.len();
    let whole = digits_value(bytes.subrange(start, point));
    let kept = fraction_millionths(digits);
    let cut = whole * SCALE + kept;
    let parts = whole * pow10(places) + digits_value(digits);
    assert forall|i: int| 0 <= i < digits.len() implies is_digit(#[trigger] digits[i]) by {
        assert(digits[i] == bytes[fraction + i]);
    }
    lemma_fraction_parts(digits);
    lemma_pow10();
    lemma_pow10_positive(places);
    let bound = pow10(places);
    if places <= 6 {
        let room = pow10((6 - places) as nat);
        lemma_pow10_positive((6 - places) as nat);
        lemma_pow10_adds(places, (6 - places) as nat);
        assert(cut == parts * room) by (nonlinear_arith)
            requires
                cut == whole * 1_000_000 + digits_value(digits) * room,
                parts == whole * bound + digits_value(digits),
                bound * room == 1_000_000,
        ;
        assert((cut <= 1_000_000) == (parts <= bound)) by (nonlinear_arith)
            requires
                cut == parts * room,
                bound * room == 1_000_000,
                room > 0,
        ;
    } else {
        let more = pow10((places - 6) as nat);
        let dropped = digits_value(digits.subrange(6, places as int));
        lemma_pow10_positive((places - 6) as nat);
        lemma_pow10_adds(6, (places - 6) as nat);
        assert(parts == cut * more + dropped) by (nonlinear_arith)
            requires
                cut == whole * 1_000_000 + kept,
                parts == whole * bound + (kept * more + dropped),
                bound == 1_000_000 * more,
        ;
        assert((parts <= bound) == (cut < 1_000_000 || (cut == 1_000_000 && dropped == 0)))
            by (nonlinear_arith)
            requires
                parts == cut * more + dropped,
                bound == 1_000_000 * more,
                0 <= dropped < more,
                cut >= 0,
        ;
    }
}

/// The largest whole part that is told apart from the larger ones: a number
/// with this whole part lies past `SATURATION` already.
const WHOLE_CAP: i64 = 3_000;

/// Reads the digits of a whole part from `from` on.
fn scan_whole(text: &[u8], from: usize) -> (r: (usize, i64))
    requires
        from <= text@.len(),
    ensures
        r.0 == digits_end(text@, from as int),
        from <= r.0 <= text@.len(),
        r.1 == if digits_value(text@.subrange(from as int, r.0 as int)) < WHOLE_CAP {
            digits_value(text@.subrange(from as int, r.0 as int)) as int
        } else {
            WHOLE_CAP as int
        },
{
    let mut at: usize = from;
    let mut value: i64 = 0;
    assert(text@.subrange(from as int, from as int).len() == 0);
    while at < text.len() && 0x30 <= text[at] && text[at] <= 0x39
        invariant
            from <= at <= text@.len(),
            digits_end(text@, from as int) == digits_end(text@, at as int),
            0 <= value <= WHOLE_CAP,
            value == if digits_value(text@.subrange(from as int, at as int)) < WHOLE_CAP {
                digits_value(text@.subrange(from as int, at as int)) as int
            } else {
                WHOLE_CAP as int
            },
        decreases text@.len() - at,
    {
        let digit: i64 = (text[at] - 0x30) as i64;
        proof {
            let longer = text@.subrange(from as int, at + 1);
            assert(longer.drop_last() =~= text@.subrange(from as int, at as int));
            assert(longer.last() == text@[at as int]);
        }
        value = value * 10 + digit;
        if value > WHOLE_CAP {
            value = WHOLE_CAP;
        }
        at += 1;
    }
    (at, value)
}

/// Reads the digits behind a point from `from` on.
fn scan_fraction(text: &[u8], from: usize) -> (r: (usize, i64, bool))
    requires
        from <= text@.len(),
    ensures
        r.0 == digits_end(text@, from as int),
        from <= r.0 <= text@.len(),
        r.1 == fraction_millionths(text@.subrange(from as int, r.0 as int)),
        0 <= r.1 < SCALE,
        r.2 == fraction_rest(text@.subrange(from as int, r.0 as int)),
{
    let mut at: usize = from;
    let mut value: i64 = 0;
    let mut used: usize = 0;
    let mut rest = false;
    assert(text@.subrange(from as int, from as int).len() == 0);
    while at < text.len() && 0x30 <= text[at] && text[at] <= 0x39
        invariant
            from <= at <= text@.len(),
            digits_end(text@, from as int) == digits_end(text@, at as int),
            used <= 6,
            used == if at - from < 6 {
                at - from
            } else {
                6
            },
            value == digits_value(text@.subrange(from as int, from + used)),
            0 <= value < pow10(used as nat),
            rest == (at - from > 6 && digits_value(text@.subrange(from + 6, at as int)) > 0),
        decreases text@.len() - at,
    {
        if used < 6 {
            let digit: i64 = (text[at] - 0x30) as i64;
            proof {
                lemma_pow10();
                let longer = text@.subrange(from as int, at + 1);
                assert(longer.drop_last() =~= text@.subrange(from as int, at as int));
                assert(longer.last() == text@[at as int]);
            }
            value = value * 10 + digit;
            used += 1;
        } else {
            proof {
                let longer = text@.subrange(from + 6, at + 1);
                let shorter = text@.subrange(from + 6, at as int);
                assert(longer.drop_last() =~= shorter);
                assert(longer.last() == text@[at as int]);
                assert(digits_value(longer) == digits_value(shorter) * 10 + (text@[at as int]
                    - 0x30) as nat);
                if at - from == 6 {
                    assert(shorter.len() == 0);
                    assert(digits_value(shorter) == 0);
                }
            }
            if text[at] != 0x30 {
                rest = true;
            }
        }
        at += 1;
    }
    let ghost digits = text@.subrange(from as int, at as int);
    let ghost kept = value;
    let mut filled: usize = used;
    proof {
        lemma_pow10();
        assert(kept * pow10(0) == kept) by (nonlinear_arith)
            requires
                pow10(0) == 1,
        ;
    }
    assert(rest == fraction_rest(digits)) by {
        if digits.len() > 6 {
            assert(digits.subrange(6, digits.len() as int) =~= text@.subrange(from + 6, at as int));
        }
    }
    while filled < 6
        invariant
            from <= at <= text@.len(),
            digits == text@.subrange(from as int, at as int),
            used == if at - from < 6 {
                at - from
            } else {
                6
            },
            kept == digits_value(text@.subrange(from as int, from + used)),
            used <= filled <= 6,
            0 <= kept < pow10(used as nat),
            value == kept * pow10((filled - used) as nat),
            0 <= value < pow10(filled as nat),
        decreases 6 - filled,
    {
        proof {
            lemma_pow10();
            assert(pow10((filled + 1 - used) as nat) == 10 * pow10((filled - used) as nat));
            assert(kept * (10 * pow10((filled - used) as nat)) == 10 * (kept * pow10(
                (filled - used) as nat,
            ))) by (nonlinear_arith);
        }
        value = value * 10;
        filled += 1;
    }
    proof {
        lemma_pow10();
        if digits.len() >= 6 {
            assert(digits.subrange(0, 6) =~= text@.subrange(from as int, from + 6));
            assert(pow10(0) == 1);
        } else {
            assert(text@.subrange(from as int, from + used) =~= digits);
        }
        assert(value == fraction_millionths(digits));
    }
    (at, value, rest)
}

/// Reads a decimal number: an optional sign, then digits, with a point
/// before, among or behind them. The number is cut to millionths, and it is
/// told whether that left anything out.
pub fn parse_decimal(text: &[u8]) -> (r: Result<Decimal, DecimalError>)
    ensures
        r == spec_read(text@),
{
    if text.len() == 0 {
        return Err(DecimalError::Empty);
    }
    let negative = text[0] == 0x2D;
    let start: usize = if text[0] == 0x2B || text[0] == 0x2D {
        1
    } else {
        0
    };
    let (point, whole) = scan_whole(text, start);
    let fraction: usize = if point < text.len() && text[point] == 0x2E {
        point + 1
    } else {
        point
    };
    let (end, part, rest) = scan_fraction(text, fraction);
    if end != text.len() || (point - start) + (end - fraction) == 0 {
        return Err(DecimalError::Invalid);
    }
    let magnitude: i64 = whole * 1_000_000 + part;
    let kept: i32 = if magnitude > 2_147_483_647 {
        2_147_483_647
    } else {
        magnitude as i32
    };
    if negative {
        Ok(Decimal { millionths: -kept, exact: !rest })
    } else {
        Ok(Decimal { millionths: kept, exact: !rest })
    }
}

/// The text of one digit.
fn digit_text(digit: u32) -> (r: &'static str)
    requires
        digit < 10,
    ensures
        r@ == seq![digit_char(digit as int)],
{
    proof {
        reveal_strlit("0");
        reveal_strlit("1");
        reveal_strlit("2");
        reveal_strlit("3");
        reveal_strlit("4");
        reveal_strlit("5");
        reveal_strlit("6");
        reveal_strlit("7");
        reveal_strlit("8");
        reveal_strlit("9");
    }
    let r = if digit == 0 {
        "0"
    } else if digit == 1 {
        "1"
    } else if digit == 2 {
        "2"
    } else if digit == 3 {
        "3"
    } else if digit == 4 {
        "4"
    } else if digit == 5 {
        "5"
    } else if digit == 6 {
        "6"
    } else if digit == 7 {
        "7"
    } else if digit == 8 {
        "8"
    } else {
        "9"
    };
    assert(r@ =~= seq![digit_char(digit as int)]);
    r
}

impl Priority {
    #[verifier::type_invariant]
    spec fn in_range(self) -> bool {
        MIN_MILLIONTHS <= self.millionths <= MAX_MILLIONTHS
    }

    /// What `new` returns for a number of millionths.
    pub open spec fn spec_new(millionths: i32) -> Result<int, PriorityRangeError> {
        if MIN_MILLIONTHS <= millionths <= MAX_MILLIONTHS {
            Ok(millionths as int)
        } else {
            Err(PriorityRangeError(millionths))
        }
    }

    /// What `from_decimal` returns for a number as it was read. The number
    /// is a priority where it lies between minus one and one with all its
    /// digits: its millionths lie within the bounds, and on a bound nothing
    /// was cut off. The error holds the number in millionths, and one
    /// millionth past the bound where cutting brought the number onto it.
    pub open spec fn spec_from_decimal(decimal: Decimal) -> Result<int, PriorityRangeError> {
        if decimal.millionths == MAX_MILLIONTHS && !decimal.exact {
            Err(PriorityRangeError((MAX_MILLIONTHS + 1) as i32))
        } else if decimal.millionths == MIN_MILLIONTHS && !decimal.exact {
            Err(PriorityRangeError((MIN_MILLIONTHS - 1) as i32))
        } else {
            Self::spec_new(decimal.millionths)
        }
    }

    /// What `parse` returns for a text: the number that the text writes, cut
    /// to millionths, if the number is a priority.
    pub open spec fn spec_parse(text: Seq<char>) -> Result<int, PriorityError> {
        match spec_read(vstd::utf8::encode_utf8(text)) {
            Err(error) => Err(PriorityError::ParseError(error)),
            Ok(decimal) => match Self::spec_from_decimal(decimal) {
                Ok(millionths) => Ok(millionths),
                Err(error) => Err(PriorityError::RangeError(error)),
            },
        }
    }

    /// Creates the attribute from a number of millionths, if it lies
    /// between minus one and one.
    pub fn new(millionths: i32) -> (r: Result<Self, PriorityRangeError>)
        ensures
            match r {
                Ok(made) => Self::spec_new(millionths) == Ok::<int, PriorityRangeError>(made@),
                Err(error) => Self::spec_new(millionths) == Err::<int, PriorityRangeError>(error),
            },
    {
        if MIN_MILLIONTHS <= millionths && millionths <= MAX_MILLIONTHS {
            Ok(Priority { millionths })
        } else {
            Err(PriorityRangeError(millionths))
        }
    }

    /// Creates the attribute from a number as it was read, if the number
    /// lies between minus one and one.
    pub fn from_decimal(decimal: Decimal) -> (r: Result<Self, PriorityRangeError>)
        ensures
            match r {
                Ok(made) => Self::spec_from_decimal(decimal) == Ok::<int, PriorityRangeError>(
                    made@,
                ),
                Err(error) => Self::spec_from_decimal(decimal) == Err::<int, PriorityRangeError>(
                    error,
                ),
            },
    {
        if decimal.millionths == MAX_MILLIONTHS && !decimal.exact {
            Err(PriorityRangeError(MAX_MILLIONTHS + 1))
        } else if decimal.millionths == MIN_MILLIONTHS && !decimal.exact {
            Err(PriorityRangeError(MIN_MILLIONTHS - 1))
        } else {
            Self::new(decimal.millionths)
        }
    }

    /// The lowest priority: minus one.
    pub fn lowest() -> (r: Self)
        ensures
            r@ == MIN_MILLIONTHS,
    {
        Priority { millionths: MIN_MILLIONTHS }
    }

    /// The highest priority: one.
    pub fn highest() -> (r: Self)
        ensures
            r@ == MAX_MILLIONTHS,
    {
        Priority { millionths: MAX_MILLIONTHS }
    }

    /// The priority as a decimal number, without zeros at its end.
    pub fn to_string(&self) -> (r: String)
        ensures
            r@ == spec_render(self@),
    {
        proof {
            use_type_invariant(self);
        }
        let negative = self.millionths < 0;
        let magnitude: u32 = if negative {
            (-self.millionths) as u32
        } else {
            self.millionths as u32
        };
        let mut text = String::new();
        if negative {
            proof {
                reveal_strlit("-");
            }
            text.append("-");
        }
        if magnitude >= 1_000_000 {
            proof {
                reveal_strlit("1");
            }
            text.append("1");
        } else {
            proof {
                reveal_strlit("0");
            }
            text.append("0");
        }
        let fraction: u32 = magnitude % 1_000_000;
        if fraction != 0 {
            proof {
                reveal_strlit(".");
            }
            text.append(".");
            let ghost head = text@;
            let mut rest: u32 = fraction;
            let mut scale: u32 = 100_000;
            while rest != 0 && scale != 0
                invariant
                    scale == 100_000 || scale == 10_000 || scale == 1_000 || scale == 100 || scale
                        == 10 || scale == 1 || scale == 0,
                    scale > 0 ==> rest < scale * 10,
                    scale == 0 ==> rest == 0,
                    text@ + fraction_text(rest as nat, scale as nat) == head + fraction_text(
                        fraction as nat,
                        100_000,
                    ),
                decreases scale,
            {
                let digit: u32 = rest / scale;
                assert(digit < 10 && rest % scale < scale) by (nonlinear_arith)
                    requires
                        digit == rest / scale,
                        rest < scale * 10,
                        scale > 0,
                ;
                let ghost before = text@;
                text.append(digit_text(digit));
                proof {
                    assert(fraction_text(rest as nat, scale as nat) == seq![
                        digit_char(digit as int),
                    ] + fraction_text((rest % scale) as nat, (scale / 10) as nat));
                    assert(text@ + fraction_text((rest % scale) as nat, (scale / 10) as nat)
                        =~= before + fraction_text(rest as nat, scale as nat));
                }
                rest = rest % scale;
                scale = scale / 10;
            }
            assert(fraction_text(rest as nat, scale as nat) =~= Seq::<char>::empty());
            assert(text@ =~= head + fraction_text(fraction as nat, 100_000));
        }
        assert(text@ =~= spec_render(self@));
        text
    }
}

impl Priority {
    /// The priority as a decimal number, without zeros at its end.
    pub fn build(&self) -> (r: String)
        ensures
            r@ == spec_render(self@),
    {
        self.to_string()
    }
}

impl Attribute<i32> for Priority {
    type Error = PriorityError;

    /// Parses the attribute from a text that writes a decimal number: an
    /// optional sign, then digits, with a point before, among or behind
    /// them, and nothing else. An exponent, and the words that stand for
    /// no number or an unbounded one, are no part of this grammar. The
    /// number must lie between minus one and one with all its digits; the
    /// priority keeps it cut to millionths.
    fn parse(priority: &str) -> (r: Result<Self, PriorityError>)
        ensures
            match r {
                Ok(parsed) => Self::spec_parse(priority@) == Ok::<int, PriorityError>(parsed@),
                Err(error) => Self::spec_parse(priority@) == Err::<int, PriorityError>(error),
            },
    {
        match parse_decimal(priority.as_bytes()) {
            Err(error) => Err(PriorityError::ParseError(error)),
            Ok(decimal) => match Self::from_decimal(decimal) {
                Ok(made) => Ok(made),
                Err(error) => Err(PriorityError::RangeError(error)),
            },
        }
    }

    /// Returns the priority in millionths.
    fn underlying(&self) -> (r: i32)
        ensures
            r == self@,
            MIN_MILLIONTHS <= r <= MAX_MILLIONTHS,
    {
        proof {
            use_type_invariant(self);
        }
        self.millionths
    }
}

} // verus!
