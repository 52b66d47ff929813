//! Identifiers as decimal text, and back.

use vstd::prelude::*;
use vstd::string::*;

verus! {

/// Why a text is not the decimal form of a 64-bit integer.
#[derive(Debug, Clone, Copy, PartialEq, Eq, Structural)]
pub enum ParseFault {
    /// The text is empty.
    Empty,
    /// The text holds something else than an optional sign and digits, or no digit at all.
    InvalidDigit,
    /// The number is above the largest 64-bit integer.
    PosOverflow,
    /// The number is below the smallest 64-bit integer.
    NegOverflow,
}

pub open spec fn is_digit(c: char) -> bool {
    '0' <= c && c <= '9'
}

pub open spec fn digit_value(c: char) -> nat {
    (c as u32 - '0' as u32) as nat
}

pub open spec fn digit_char(d: nat) -> char {
    if d == 0 {
        '0'
    } else if d == 1 {
        '1'
    } else if d == 2 {
        '2'
    } else if d == 3 {
        '3'
    } else if d == 4 {
        '4'
    } else if d == 5 {
        '5'
    } else if d == 6 {
        '6'
    } else if d == 7 {
        '7'
    } else if d == 8 {
        '8'
    } else {
        '9'
    }
}

pub open spec fn all_digits(text: Seq<char>) -> bool {
    forall|i: int| 0 <= i < text.len() ==> is_digit(#[trigger] text[i])
}

/// The number that a run of digits writes, the last digit counting least.
pub open spec fn value_of(digits: Seq<char>) -> nat
    decreases digits.len(),
{
    if digits.len() == 0 {
        0
    } else {
        value_of(digits.drop_last()) * 10 + digit_value(digits.last())
    }
}

/// The digits of `n`, without leading zeros.
pub open spec fn digits_of(n: nat) -> Seq<char>
    decreases n,
{
    if n < 10 {
        seq![digit_char(n)]
    } else {
        digits_of(n / 10).push(digit_char(n % 10))
    }
}

/// The decimal form of `v`: a minus sign for a negative number, then its digits.
pub open spec fn decimal_of(v: int) -> Seq<char> {
    if v < 0 {
        seq!['-'] + digits_of((-v) as nat)
    } else {
        digits_of(v as nat)
    }
}

/// The digits of a text, its sign set aside.
pub open spec fn unsigned_part(text: Seq<char>) -> Seq<char> {
    if text.len() > 0 && (text[0] == '-' || text[0] == '+') {
        text.subrange(1, text.len() as int)
    } else {
        text
    }
}

/// What a text denotes as a 64-bit integer: an optional `+` or `-`, then one
/// digit or more, with a value in range.
pub open spec fn parsed(text: Seq<char>) -> Result<i64, ParseFault> {
    let digits = unsigned_part(text);
    if text.len() == 0 {
        Err(ParseFault::Empty)
    } else if digits.len() == 0 || !all_digits(digits) {
        Err(ParseFault::InvalidDigit)
    } else if text[0] == '-' {
        if value_of(digits) > 0x8000_0000_0000_0000 {
            Err(ParseFault::NegOverflow)
        } else {
            Ok((-(value_of(digits) as int)) as i64)
        }
    } else {
        if value_of(digits) > 0x7fff_ffff_ffff_ffff {
            Err(ParseFault::PosOverflow)
        } else {
            Ok(value_of(digits) as i64)
        }
    }
}

/// A longer run of digits writes no smaller number.
pub proof fn lemma_value_grows(digits: Seq<char>, c: char)
    ensures
        value_of(digits.push(c)) == value_of(digits) * 10 + digit_value(c),
        value_of(digits.push(c)) >= value_of(digits),
{
    assert(digits.push(c).drop_last() =~= digits);
}

/// The digits of a number are digits, and they write that number.
pub proof fn lemma_digits_of(n: nat)
    ensures
        digits_of(n).len() > 0,
        all_digits(digits_of(n)),
        value_of(digits_of(n)) == n,
    decreases n,
{
    if n < 10 {
        let one = seq![digit_char(n)];
        assert(one.drop_last() =~= Seq::<char>::empty());
        assert(value_of(one.drop_last()) == 0);
        assert(one.last() == digit_char(n));
        assert(digit_value(digit_char(n)) == n);
    } else {
        lemma_digits_of(n / 10);
        let front = digits_of(n / 10);
        lemma_value_grows(front, digit_char(n % 10));
        assert(digit_value(digit_char(n % 10)) == n % 10);
        assert forall|i: int| 0 <= i < front.push(digit_char(n % 10)).len() implies is_digit(
            #[trigger] front.push(digit_char(n % 10))[i],
        ) by {
            if i < front.len() {
                assert(is_digit(front[i]));
            }
        }
    }
}

/// Reading the decimal form of a number gives the number back.
pub proof fn lemma_decimal_round_trip(v: i64)
    ensures
        parsed(decimal_of(v as int)) == Ok::<i64, ParseFault>(v),
{
    let text = decimal_of(v as int);
    if v < 0 {
        let magnitude = (-(v as int)) as nat;
        lemma_digits_of(magnitude);
        assert(text.subrange(1, text.len() as int) =~= digits_of(magnitude));
        assert(text[0] == '-');
    } else {
        lemma_digits_of(v as nat);
        assert(is_digit(text[0]));
    }
}

/// The one-character text of a digit.
fn digit_text(d: u64) -> (text: &'static str)
    requires
        d < 10,
    ensures
        text@ == seq![digit_char(d as nat)],
{
    proof {
        reveal_strlit("0");
        reveal_strlit("1");
        reveal_strlit("2");
        reveal_strlit("3");
        reveal_strlit("4");
        reveal_strlit("5");
        reveal_strlit("6");
        reveal_strlit("7");
        reveal_strlit("8");
        reveal_strlit("9");
    }
    let text = if d == 0 {
        "0"
    } else if d == 1 {
        "1"
    } else if d == 2 {
        "2"
    } else if d == 3 {
        "3"
    } else if d == 4 {
        "4"
    } else if d == 5 {
        "5"
    } else if d == 6 {
        "6"
    } else if d == 7 {
        "7"
    } else if d == 8 {
        "8"
    } else {
        "9"
    };
    assert(text@ =~= seq![digit_char(d as nat)]);
    text
}

/// Appends the digits of `n` to `out`.
fn push_digits(out: &mut String, n: u64)
    ensures
        final(out)@ == old(out)@ + digits_of(n as nat),
    decreases n,
{
    if n >= 10 {
        push_digits(out, n / 10);
    }
    out.append(digit_text(n % 10));
    assert(final(out)@ =~= old(out)@ + digits_of(n as nat));
}

/// Writes `v` in decimal.
pub fn format_i64(v: i64) -> (text: String)
    ensures
        text@ == decimal_of(v as int),
        parsed(text@) == Ok::<i64, ParseFault>(v),
{
    let mut text = String::new();
    if v < 0 {
        proof {
            reveal_strlit("-");
        }
        text.append("-");
        let magnitude: u64 = (-(v + 1)) as u64 + 1;
        push_digits(&mut text, magnitude);
        assert(text@ =~= decimal_of(v as int));
    } else {
        push_digits(&mut text, v as u64);
        assert(text@ =~= decimal_of(v as int));
    }
    proof {
        lemma_decimal_round_trip(v);
    }
    text
}

/// Reads a 64-bit integer from its decimal text.
pub fn parse_i64(text: &str) -> (outcome: Result<i64, ParseFault>)
    ensures
        outcome == parsed(text@),
{
    if text.is_empty() {
        return Err(ParseFault::Empty);
    }
    let ghost digits = unsigned_part(text@);
    if !text.is_ascii() {
        proof {
            let i = choose|i: int| 0 <= i < text@.len() && !('\0' <= #[trigger] text@[i] <= '\u{7f}');
            if text@[0] == '-' || text@[0] == '+' {
                assert(digits[i - 1] == text@[i]);
            } else {
                assert(digits[i] == text@[i]);
            }
        }
        return Err(ParseFault::InvalidDigit);
    }
    let bytes = text.as_bytes();
    proof {
        vstd::utf8::is_ascii_chars_encode_utf8(text@);
    }
    let negative = bytes[0] == 45u8;
    let start: usize = if negative || bytes[0] == 43u8 {
        1
    } else {
        0
    };
    assert(digits =~= text@.subrange(start as int, text@.len() as int));
    if start == bytes.len() {
        return Err(ParseFault::InvalidDigit);
    }
    // The digits read so far, as a number, for as long as it is in range.
    let mut magnitude: u64 = 0;
    let mut overflowed = false;
    let mut i: usize = start;
    assert(text@.subrange(start as int, start as int) =~= Seq::<char>::empty());
    while i < bytes.len()
        invariant
            start <= i <= bytes.len(),
            bytes@.len() == text@.len(),
            forall|j: int| 0 <= j < text@.len() ==> text@[j] as u8 == #[trigger] bytes@[j],
            vstd::utf8::is_ascii_chars(text@),
            digits == unsigned_part(text@),
            digits == text@.subrange(start as int, text@.len() as int),
            all_digits(text@.subrange(start as int, i as int)),
            !overflowed ==> value_of(text@.subrange(start as int, i as int)) == magnitude
                && magnitude <= 0x8000_0000_0000_0000,
            overflowed ==> value_of(text@.subrange(start as int, i as int)) > 0x8000_0000_0000_0000,
        decreases bytes.len() - i,
    {
        let b = bytes[i];
        let ghost c = text@[i as int];
        let ghost done = text@.subrange(start as int, i as int);
        assert('\0' <= c <= '\u{7f}');
        if b < 48 || b > 57 {
            assert(digits[i - start] == c);
            assert(!is_digit(c));
            return Err(ParseFault::InvalidDigit);
        }
        let d = (b - 48) as u64;
        proof {
            assert(text@.subrange(start as int, i + 1) =~= done.push(c));
            lemma_value_grows(done, c);
            assert(digit_value(c) == d);
            assert forall|j: int| 0 <= j < done.push(c).len() implies is_digit(
                #[trigger] done.push(c)[j],
            ) by {
                if j < done.len() {
                    assert(is_digit(done[j]));
                }
            }
        }
        if !overflowed {
            if magnitude > (0x8000_0000_0000_0000u64 - d) / 10 {
                overflowed = true;
            } else {
                magnitude = magnitude * 10 + d;
            }
        }
        i += 1;
    }
    assert(text@.subrange(start as int, i as int) =~= digits);
    if negative {
        if overflowed {
            Err(ParseFault::NegOverflow)
        } else if magnitude == 0x8000_0000_0000_0000 {
            Ok(i64::MIN)
        } else {
            Ok(-(magnitude as i64))
        }
    } else {
        if overflowed || magnitude > 0x7fff_ffff_ffff_ffff {
            Err(ParseFault::PosOverflow)
        } else {
            Ok(magnitude as i64)
        }
    }
}

} // verus!
