//! Text helpers for the annotation of trace lines: hexadecimal numbers in
//! both directions, column padding and upper case.

use vstd::prelude::*;
use vstd::string::*;

verus! {

/// The upper-case form of a text that holds a character outside ASCII, as
/// `str::to_uppercase` of the standard library computes it from the Unicode
/// tables.
pub uninterp spec fn uppercase(text: Seq<char>) -> Seq<char>;

/// Every character of the text is an ASCII character.
pub open spec fn is_ascii_text(text: Seq<char>) -> bool {
    forall|i: int| 0 <= i < text.len() ==> (#[trigger] text[i]) <= '\x7f'
}

/// The capital of a small ASCII letter; any other character as it is.
pub open spec fn ascii_upper_char(c: char) -> char {
    if 'a' <= c <= 'z' {
        seq![
            'A', 'B', 'C', 'D', 'E', 'F', 'G', 'H', 'I', 'J', 'K', 'L', 'M', 'N', 'O', 'P', 'Q',
            'R', 'S', 'T', 'U', 'V', 'W', 'X', 'Y', 'Z',
        ][c as int - 'a' as int]
    } else {
        c
    }
}

/// The text with every small ASCII letter replaced by its capital.
pub open spec fn ascii_uppercase(text: Seq<char>) -> Seq<char> {
    Seq::new(text.len(), |i: int| ascii_upper_char(text[i]))
}

/// The upper-case form of a text: for ASCII text the small letters become
/// capitals and nothing else changes; for other text it is what the Unicode
/// tables give.
pub open spec fn upper_case(text: Seq<char>) -> Seq<char> {
    if is_ascii_text(text) {
        ascii_uppercase(text)
    } else {
        uppercase(text)
    }
}

/// Calls `str::to_uppercase`. Of a text of ASCII characters alone the
/// contract claims that the letters `a` to `z` come back as `A` to `Z` and
/// every other character as it is, as the standard library documents of
/// ASCII letters. Of any other text it claims only that the result is that
/// function's result, which depends on the characters of the text alone.
#[verifier::external_body]
pub(crate) fn to_uppercase(text: &str) -> (r: String)
    ensures
        is_ascii_text(text@) ==> r@ == ascii_uppercase(text@),
        !is_ascii_text(text@) ==> r@ == uppercase(text@),
{
    text.to_uppercase()
}

/// The upper-case form of ASCII text is as long as the text and holds no
/// small ASCII letter.
pub proof fn ascii_uppercase_has_no_small_letter(text: Seq<char>)
    ensures
        ascii_uppercase(text).len() == text.len(),
        forall|i: int|
            0 <= i < text.len() ==> !('a' <= (#[trigger] ascii_uppercase(text)[i]) <= 'z'),
{
    assert forall|i: int| 0 <= i < text.len() implies !('a' <= (#[trigger] ascii_uppercase(
        text,
    )[i]) <= 'z') by {
        let c = text[i];
        if 'a' <= c <= 'z' {
            let k = c as int - 'a' as int;
            assert(0 <= k < 26);
            assert('A' <= ascii_upper_char(c) <= 'Z');
        }
    }
}

/// The value of a hexadecimal digit in either case; `None` for any other
/// character.
pub open spec fn hex_digit_value(c: char) -> Option<nat> {
    if '0' <= c <= '9' {
        Some((c as nat - '0' as nat) as nat)
    } else if 'a' <= c <= 'f' {
        Some((c as nat - 'a' as nat + 10) as nat)
    } else if 'A' <= c <= 'F' {
        Some((c as nat - 'A' as nat + 10) as nat)
    } else {
        None
    }
}

/// Every character of the text is a hexadecimal digit.
pub open spec fn all_hex_digits(text: Seq<char>) -> bool {
    forall|i: int| 0 <= i < text.len() ==> hex_digit_value(#[trigger] text[i]) is Some
}

/// The number that the digits of the text denote in base 16, most
/// significant digit first.
pub open spec fn hex_number(text: Seq<char>) -> nat
    decreases text.len(),
{
    if text.len() == 0 {
        0
    } else {
        match hex_digit_value(text.last()) {
            Some(d) => hex_number(text.drop_last()) * 16 + d,
            None => hex_number(text.drop_last()) * 16,
        }
    }
}

/// The digits of a number as it is written: the text without the plus sign
/// that may stand first.
pub open spec fn unsigned_digits(text: Seq<char>) -> Seq<char> {
    if text.len() > 0 && text[0] == '+' {
        text.subrange(1, text.len() as int)
    } else {
        text
    }
}

/// The number that a text denotes in base 16: the text is one or more
/// hexadecimal digits, in either case, with or without a plus sign before
/// them. Any other text denotes no number.
pub open spec fn hex_value(text: Seq<char>) -> Option<nat> {
    let digits = unsigned_digits(text);
    if digits.len() > 0 && all_hex_digits(digits) {
        Some(hex_number(digits))
    } else {
        None
    }
}

/// What parsing a text as a hexadecimal 64-bit number gives: the number it
/// denotes, when it denotes one that is at most `u64::MAX`.
pub open spec fn parse_hex_spec(text: Seq<char>) -> Option<u64> {
    match hex_value(text) {
        Some(value) => if value <= u64::MAX {
            Some(value as u64)
        } else {
            None
        },
        None => None,
    }
}

/// The value of one hexadecimal digit.
pub fn hex_digit(c: char) -> (r: Option<u8>)
    ensures
        r is Some <==> hex_digit_value(c) is Some,
        r is Some ==> r->Some_0 as nat == hex_digit_value(c)->Some_0,
        r is Some ==> r->Some_0 < 16,
{
    let code: u32 = c as u32;
    if '0' <= c && c <= '9' {
        Some((code - 0x30) as u8)
    } else if 'a' <= c && c <= 'f' {
        Some((code - 0x61 + 10) as u8)
    } else if 'A' <= c && c <= 'F' {
        Some((code - 0x41 + 10) as u8)
    } else {
        None
    }
}

/// A number does not shrink when more digits follow.
pub proof fn hex_number_grows(text: Seq<char>, k: int)
    requires
        0 <= k <= text.len(),
    ensures
        hex_number(text.take(k)) <= hex_number(text),
    decreases text.len(),
{
    if k == text.len() {
        assert(text.take(k) =~= text);
    } else {
        assert(text.drop_last().take(k) =~= text.take(k));
        hex_number_grows(text.drop_last(), k);
    }
}

/// Sixteen to the power of `n`.
pub open spec fn sixteen_to(n: nat) -> nat
    decreases n,
{
    if n == 0 {
        1
    } else {
        16 * sixteen_to((n - 1) as nat)
    }
}

/// A number of `n` digits is below sixteen to the power of `n`.
pub proof fn hex_number_is_below_power(text: Seq<char>)
    ensures
        hex_number(text) < sixteen_to(text.len()),
    decreases text.len(),
{
    if text.len() > 0 {
        hex_number_is_below_power(text.drop_last());
    }
}

/// The powers of sixteen do not fall.
pub proof fn sixteen_to_grows(n: nat, m: nat)
    requires
        n <= m,
    ensures
        sixteen_to(n) <= sixteen_to(m),
    decreases m,
{
    if n < m {
        sixteen_to_grows(n, (m - 1) as nat);
    }
}

/// One to sixteen hexadecimal digits always parse: they denote a number that
/// fits 64 bits.
pub proof fn sixteen_digits_always_parse(digits: Seq<char>)
    requires
        0 < digits.len() <= 16,
        all_hex_digits(digits),
    ensures
        hex_value(digits) == Some(hex_number(digits)),
        hex_number(digits) <= u64::MAX,
        parse_hex_spec(digits) == Some(hex_number(digits) as u64),
{
    assert(hex_digit_value(digits[0]) is Some);
    assert(unsigned_digits(digits) == digits);
    hex_number_is_below_power(digits);
    sixteen_to_grows(digits.len(), 16);
    assert(sixteen_to(16) == 0x1_0000_0000_0000_0000) by {
        reveal_with_fuel(sixteen_to, 17);
    }
}

/// Parses a hexadecimal number of at most 64 bits: one or more digits, in
/// either case, with or without a plus sign before them. Any other text, and
/// a number above `u64::MAX`, gives `None`.
pub fn parse_hex_u64(text: &str) -> (r: Option<u64>)
    ensures
        r == parse_hex_spec(text@),
{
    let len: usize = text.unicode_len();
    let start: usize = if len > 0 && text.get_char(0) == '+' {
        1
    } else {
        0
    };
    let digits = text.substring_char(start, len);
    assert(digits@ =~= unsigned_digits(text@));
    let n: usize = len - start;
    if n == 0 {
        return None;
    }
    let mut value: u64 = 0;
    let mut i: usize = 0;
    while i < n
        invariant
            0 <= i <= n,
            n == digits@.len(),
            digits@ == unsigned_digits(text@),
            all_hex_digits(digits@.take(i as int)),
            value as nat == hex_number(digits@.take(i as int)),
        decreases n - i,
    {
        let ghost next = digits@.take(i as int + 1);
        proof {
            assert(next.drop_last() =~= digits@.take(i as int));
            assert(next.last() == digits@[i as int]);
        }
        match hex_digit(digits.get_char(i)) {
            None => {
                return None;
            },
            Some(d) => {
                if value > (u64::MAX - d as u64) / 16 {
                    proof {
                        assert(hex_number(next) > u64::MAX);
                        hex_number_grows(digits@, i as int + 1);
                    }
                    return None;
                }
                value = value * 16 + d as u64;
                proof {
                    assert forall|j: int| 0 <= j < next.len() implies hex_digit_value(
                        #[trigger] next[j],
                    ) is Some by {
                        if j < i {
                            assert(next[j] == digits@.take(i as int)[j]);
                        }
                    }
                }
            },
        }
        i += 1;
    }
    proof {
        assert(digits@.take(n as int) =~= digits@);
    }
    Some(value)
}

/// The lower 32 bits of a 64-bit number.
pub open spec fn low_word(value: u64) -> u32 {
    (value % 0x1_0000_0000) as u32
}

/// Keeps the lower 32 bits of a 64-bit number and drops the rest.
pub fn lower_32_bits(value: u64) -> (r: u32)
    ensures
        r == low_word(value),
        r == value & 0xFFFF_FFFF,
{
    assert(value & 0xFFFF_FFFF == value % 0x1_0000_0000) by (bit_vector);
    (value & 0xFFFF_FFFF) as u32
}

/// The digit, in lower case, for a value below 16.
pub open spec fn hex_digit_char(value: nat) -> char {
    seq![
        '0', '1', '2', '3', '4', '5', '6', '7', '8', '9', 'a', 'b', 'c', 'd', 'e', 'f',
    ][value as int]
}

/// The last `count` hexadecimal digits of `value`, most significant first,
/// with leading zeros.
pub open spec fn hex_digits(value: nat, count: nat) -> Seq<char>
    decreases count,
{
    if count == 0 {
        Seq::empty()
    } else {
        hex_digits(value / 16, (count - 1) as nat).push(hex_digit_char(value % 16))
    }
}

/// Asking for `count` digits gives `count` digits.
pub proof fn hex_digits_have_their_count(value: nat, count: nat)
    ensures
        hex_digits(value, count).len() == count,
    decreases count,
{
    if count > 0 {
        hex_digits_have_their_count(value / 16, (count - 1) as nat);
    }
}

/// An address as it is printed: `0x` and eight lower-case hexadecimal digits.
pub open spec fn address_text(address: u32) -> Seq<char> {
    seq!['0', 'x'] + hex_digits(address as nat, 8)
}

/// The digit for a value below 16, as a text of one character.
fn digit_text(value: u32) -> (r: &'static str)
    requires
        value < 16,
    ensures
        r@ == seq![hex_digit_char(value as nat)],
{
    proof {
        reveal_strlit("0");
        reveal_strlit("1");
        reveal_strlit("2");
        reveal_strlit("3");
        reveal_strlit("4");
        reveal_strlit("5");
        reveal_strlit("6");
        reveal_strlit("7");
        reveal_strlit("8");
        reveal_strlit("9");
        reveal_strlit("a");
        reveal_strlit("b");
        reveal_strlit("c");
        reveal_strlit("d");
        reveal_strlit("e");
        reveal_strlit("f");
    }
    let r = match value {
        0 => "0",
        1 => "1",
        2 => "2",
        3 => "3",
        4 => "4",
        5 => "5",
        6 => "6",
        7 => "7",
        8 => "8",
        9 => "9",
        10 => "a",
        11 => "b",
        12 => "c",
        13 => "d",
        14 => "e",
        _ => "f",
    };
    assert(r@ =~= seq![hex_digit_char(value as nat)]);
    r
}

/// Appends the last `count` hexadecimal digits of `value` to `out`.
fn append_hex_digits(out: &mut String, value: u32, count: u32)
    ensures
        final(out)@ == old(out)@ + hex_digits(value as nat, count as nat),
    decreases count,
{
    if count > 0 {
        append_hex_digits(out, value / 16, count - 1);
        out.append(digit_text(value % 16));
        assert(final(out)@ =~= old(out)@ + hex_digits(value as nat, count as nat));
    } else {
        assert(final(out)@ =~= old(out)@ + hex_digits(value as nat, count as nat));
    }
}

/// Renders an address as `0x` and eight lower-case hexadecimal digits.
pub fn format_address(address: u32) -> (r: String)
    ensures
        r@ == address_text(address),
{
    proof {
        reveal_strlit("0x");
    }
    let mut out = String::from_str("0x");
    append_hex_digits(&mut out, address, 8);
    assert(out@ =~= address_text(address));
    out
}

/// A text of `count` spaces.
pub open spec fn spaces(count: nat) -> Seq<char> {
    Seq::new(count, |i: int| ' ')
}

/// The text, followed by as many spaces as it is shorter than `width`
/// characters; a text of `width` characters or more is left as it is.
pub open spec fn padded(text: Seq<char>, width: nat) -> Seq<char> {
    if text.len() >= width {
        text
    } else {
        text + spaces((width - text.len()) as nat)
    }
}

/// Left-aligns a text in a column of `width` characters.
pub fn pad_right(text: &str, width: usize) -> (r: String)
    ensures
        r@ == padded(text@, width as nat),
{
    let n: usize = text.unicode_len();
    let mut out = String::from_str(text);
    let mut i: usize = n;
    proof {
        reveal_strlit(" ");
        assert(out@ =~= text@ + spaces(0));
    }
    while i < width
        invariant
            n == text@.len(),
            n <= i,
            i <= width || i == n,
            out@ == text@ + spaces((i - n) as nat),
            " "@ == seq![' '],
        decreases width - i,
    {
        out.append(" ");
        i += 1;
        assert(out@ =~= text@ + spaces((i - n) as nat));
    }
    assert(out@ =~= padded(text@, width as nat));
    out
}

} // verus!
