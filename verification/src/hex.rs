//! Hexadecimal identifiers of sixteen bits, as USB vendor and product identifiers are written.

use vstd::prelude::*;

use crate::text::chars_of;

verus! {

/// Why a text is no hexadecimal identifier.
#[derive(Clone, Copy, Debug, PartialEq, Eq, Structural)]
pub enum HexError {
    /// The text is empty.
    Empty,
    /// A character is no hexadecimal digit, or a sign stands alone.
    InvalidDigit,
    /// The number does not fit in sixteen bits.
    TooLarge,
}

impl HexError {
    /// The text that tells the user what is wrong.
    pub fn message(self) -> (r: &'static str)
        ensures
            r@ == match self {
                HexError::Empty => "cannot parse integer from empty string"@,
                HexError::InvalidDigit => "invalid digit found in string"@,
                HexError::TooLarge => "number too large to fit in target type"@,
            },
    {
        match self {
            HexError::Empty => "cannot parse integer from empty string",
            HexError::InvalidDigit => "invalid digit found in string",
            HexError::TooLarge => "number too large to fit in target type",
        }
    }
}

/// The value of a hexadecimal digit of either case.
pub open spec fn hex_digit(c: char) -> Option<nat> {
    if '0' <= c <= '9' {
        Some((c as int - '0' as int) as nat)
    } else if 'a' <= c <= 'f' {
        Some((c as int - 'a' as int + 10) as nat)
    } else if 'A' <= c <= 'F' {
        Some((c as int - 'A' as int + 10) as nat)
    } else {
        None
    }
}

/// The number that digits stand for, read from the left; the first digit that does
/// not fit decides the error.
pub open spec fn hex_scan(digits: Seq<char>) -> Result<nat, HexError>
    decreases digits.len(),
{
    if digits.len() == 0 {
        Ok(0)
    } else {
        match (hex_scan(digits.drop_last()), hex_digit(digits.last())) {
            (Err(e), _) => Err(e),
            (Ok(_), None) => Err(HexError::InvalidDigit),
            (Ok(high), Some(low)) => if high * 16 + low <= u16::MAX {
                Ok(high * 16 + low)
            } else {
                Err(HexError::TooLarge)
            },
        }
    }
}

/// What stands behind an optional plus sign.
pub open spec fn without_plus(text: Seq<char>) -> Seq<char> {
    if text.len() > 0 && text[0] == '+' {
        text.skip(1)
    } else {
        text
    }
}

/// The reading of a text as a hexadecimal identifier: digits, with or without a plus
/// sign before them.
pub open spec fn hex_u16(text: Seq<char>) -> Result<nat, HexError> {
    if text.len() == 0 {
        Err(HexError::Empty)
    } else if without_plus(text).len() == 0 {
        Err(HexError::InvalidDigit)
    } else {
        hex_scan(without_plus(text))
    }
}

/// Whether every character is a hexadecimal digit.
pub open spec fn all_hex(digits: Seq<char>) -> bool {
    forall|i: int| 0 <= i < digits.len() ==> hex_digit(#[trigger] digits[i]) is Some
}

/// The number that hexadecimal digits stand for.
pub open spec fn hex_value(digits: Seq<char>) -> nat
    decreases digits.len(),
{
    if digits.len() == 0 {
        0
    } else {
        hex_value(digits.drop_last()) * 16 + hex_digit(digits.last())->0
    }
}

fn digit_value(c: char) -> (r: Option<u16>)
    ensures
        r is Some <==> hex_digit(c) is Some,
        r matches Some(d) ==> d == hex_digit(c)->0 && d < 16,
{
    if '0' <= c && c <= '9' {
        Some((c as u32 - '0' as u32) as u16)
    } else if 'a' <= c && c <= 'f' {
        Some((c as u32 - 'a' as u32 + 10) as u16)
    } else if 'A' <= c && c <= 'F' {
        Some((c as u32 - 'A' as u32 + 10) as u16)
    } else {
        None
    }
}

proof fn lemma_scan_error_stays(digits: Seq<char>, n: int, e: HexError)
    requires
        0 <= n <= digits.len(),
        hex_scan(digits.take(n)) == Err::<nat, HexError>(e),
    ensures
        hex_scan(digits) == Err::<nat, HexError>(e),
    decreases digits.len() - n,
{
    if n < digits.len() {
        assert(digits.take(n + 1).drop_last() =~= digits.take(n));
        lemma_scan_error_stays(digits, n + 1, e);
    } else {
        assert(digits.take(n) =~= digits);
    }
}

/// Reads a hexadecimal identifier.
pub fn parse_hex_u16(text: &str) -> (r: Result<u16, HexError>)
    ensures
        match r {
            Ok(value) => hex_u16(text@) == Ok::<nat, HexError>(value as nat),
            Err(e) => hex_u16(text@) == Err::<nat, HexError>(e),
        },
        r matches Ok(value) ==> value == hex_value(without_plus(text@)),
        r is Ok <==> {
            &&& without_plus(text@).len() > 0
            &&& all_hex(without_plus(text@))
            &&& hex_value(without_plus(text@)) <= 0xffff
        },
        r == Err::<u16, HexError>(HexError::Empty) <==> text@.len() == 0,
{
    proof {
        lemma_hex_u16_ok(text@);
        lemma_hex_error(text@);
    }
    let chars = chars_of(text);
    if chars.len() == 0 {
        return Err(HexError::Empty);
    }
    let start: usize = if chars[0] == '+' {
        1
    } else {
        0
    };
    let ghost digits = without_plus(text@);
    assert(digits =~= text@.skip(start as int));
    if start == chars.len() {
        return Err(HexError::InvalidDigit);
    }
    let mut value: u16 = 0;
    let mut i: usize = start;
    assert(digits.take(0) =~= Seq::<char>::empty());
    while i < chars.len()
        invariant
            chars@ == text@,
            start <= i <= chars.len(),
            text@.len() > 0,
            digits == without_plus(text@),
            digits.len() > 0,
            digits == text@.skip(start as int),
            hex_scan(digits.take(i - start)) == Ok::<nat, HexError>(value as nat),
        decreases chars.len() - i,
    {
        let ghost n = (i - start) as int;
        assert(digits.take(n + 1).drop_last() =~= digits.take(n));
        assert(digits.take(n + 1).last() == chars[i as int]);
        match digit_value(chars[i]) {
            None => {
                proof {
                    lemma_scan_error_stays(digits, n + 1, HexError::InvalidDigit);
                    lemma_hex_u16_ok(text@);
                }
                return Err(HexError::InvalidDigit);
            },
            Some(low) => {
                if value > 0x0fff {
                    proof {
                        lemma_scan_error_stays(digits, n + 1, HexError::TooLarge);
                        lemma_hex_u16_ok(text@);
                    }
                    return Err(HexError::TooLarge);
                }
                value = value * 16 + low;
            },
        }
        i = i + 1;
    }
    assert(digits.take(digits.len() as int) =~= digits);
    Ok(value)
}

/// A run of digits is read exactly when all of them are hexadecimal and their number
/// fits in sixteen bits, and what is read is that number.
pub proof fn lemma_hex_scan_ok(digits: Seq<char>)
    ensures
        hex_scan(digits) is Ok <==> all_hex(digits) && hex_value(digits) <= u16::MAX,
        hex_scan(digits) matches Ok(value) ==> value == hex_value(digits),
    decreases digits.len(),
{
    if digits.len() > 0 {
        let rest = digits.drop_last();
        lemma_hex_scan_ok(rest);
        if all_hex(digits) {
            assert forall|i: int| 0 <= i < rest.len() implies hex_digit(#[trigger] rest[i]) is Some by {
                assert(rest[i] == digits[i]);
            }
        } else if all_hex(rest) && hex_digit(digits.last()) is Some {
            assert forall|i: int| 0 <= i < digits.len() implies hex_digit(
                #[trigger] digits[i],
            ) is Some by {
                if i < rest.len() {
                    assert(rest[i] == digits[i]);
                }
            }
        }
    }
}

/// A text is a hexadecimal identifier exactly when digits stand in it, with or without
/// a plus sign before them, all of them hexadecimal, with a number of at most sixteen
/// bits; and that number is what is read. No other sign is accepted.
pub proof fn lemma_hex_u16_ok(text: Seq<char>)
    ensures
        hex_u16(text) is Ok <==> {
            &&& without_plus(text).len() > 0
            &&& all_hex(without_plus(text))
            &&& hex_value(without_plus(text)) <= u16::MAX
        },
        hex_u16(text) matches Ok(value) ==> value == hex_value(without_plus(text)),
{
    lemma_hex_scan_ok(without_plus(text));
}

/// The hexadecimal digits are the ten decimal ones and six letters of either case, and each
/// counts as much as its place among them.
pub proof fn lemma_hex_digit(c: char, v: nat)
    ensures
        hex_digit(c) == Some(v) <==> v < 16 && ("0123456789abcdef"@[v as int] == c
            || "0123456789ABCDEF"@[v as int] == c),
{
    reveal_strlit("0123456789abcdef");
    reveal_strlit("0123456789ABCDEF");
    if v < 16 {
        assert(v == 0 || v == 1 || v == 2 || v == 3 || v == 4 || v == 5 || v == 6 || v == 7 || v
            == 8 || v == 9 || v == 10 || v == 11 || v == 12 || v == 13 || v == 14 || v == 15);
    }
}

/// A further digit counts by itself, and makes what stands before it count sixteenfold.
pub proof fn lemma_hex_value_push(digits: Seq<char>, c: char, v: nat)
    requires
        hex_digit(c) == Some(v),
    ensures
        hex_value(digits.push(c)) == 16 * hex_value(digits) + v,
        hex_value(Seq::<char>::empty()) == 0,
{
    assert(digits.push(c).drop_last() =~= digits);
}

/// One plus sign before the digits makes no difference, and nothing else is taken away.
pub proof fn lemma_without_plus(text: Seq<char>)
    ensures
        without_plus(seq!['+'] + text) == text,
        text.len() == 0 || text[0] != '+' ==> without_plus(text) == text,
{
    assert((seq!['+'] + text).skip(1) =~= text);
}

/// The error of the first character that does not fit: all before it are digits whose
/// number fits; it is no digit itself, or with it the number does not fit any more.
proof fn lemma_scan_error(digits: Seq<char>) -> (n: int)
    requires
        hex_scan(digits) is Err,
    ensures
        0 <= n < digits.len(),
        all_hex(digits.take(n)),
        hex_value(digits.take(n)) <= 0xffff,
        hex_scan(digits)->Err_0 == HexError::InvalidDigit && hex_digit(digits[n]) is None
            || hex_scan(digits)->Err_0 == HexError::TooLarge && hex_digit(digits[n]) is Some
            && hex_value(digits.take(n + 1)) > 0xffff,
    decreases digits.len(),
{
    let rest = digits.drop_last();
    lemma_hex_scan_ok(rest);
    if hex_scan(rest) is Err {
        let n = lemma_scan_error(rest);
        assert(digits.take(n) =~= rest.take(n));
        assert(digits.take(n + 1) =~= rest.take(n + 1));
        n
    } else {
        let n = digits.len() - 1;
        assert(digits.take(n) =~= rest);
        assert(digits.take(n + 1) =~= digits);
        n
    }
}

/// What is wrong with a text that is no identifier: it is empty; a plus sign stands alone;
/// or the first character that does not fit in is no hexadecimal digit, or is one that
/// makes the number too large.
pub proof fn lemma_hex_error(text: Seq<char>)
    ensures
        hex_u16(text) == Err::<nat, HexError>(HexError::Empty) <==> text.len() == 0,
        text == seq!['+'] ==> hex_u16(text) == Err::<nat, HexError>(HexError::InvalidDigit),
        hex_u16(text) is Err && without_plus(text).len() > 0 ==> exists|n: int| {
            let digits = without_plus(text);
            &&& 0 <= n < digits.len()
            &&& #[trigger] all_hex(without_plus(text).take(n))
            &&& hex_value(digits.take(n)) <= 0xffff
            &&& {
                ||| hex_u16(text)->Err_0 == HexError::InvalidDigit && hex_digit(digits[n]) is None
                ||| hex_u16(text)->Err_0 == HexError::TooLarge && hex_digit(digits[n]) is Some
                    && hex_value(digits.take(n + 1)) > 0xffff
            }
        },
{
    let digits = without_plus(text);
    if digits.len() > 0 && hex_u16(text) is Err {
        let n = lemma_scan_error(digits);
        assert(all_hex(digits.take(n)));
    }
}

} // verus!
