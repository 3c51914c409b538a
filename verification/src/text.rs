//! Text: characters, numbers in words of digits, and octets that are read as UTF-8.
use crate::octets::same_octets;
use vstd::prelude::*;

verus! {

/// `String::push`: appends one character.
pub assume_specification[ std::string::String::push ](text: &mut std::string::String, c: char)
    ensures
        final(text)@ == old(text)@.push(c),
;

/// What `String::from_utf8_lossy` makes of octets.
pub uninterp spec fn utf8_lossy(octets: Seq<u8>) -> Seq<char>;

/// `String::from_utf8_lossy`: reads UTF-8 as it stands. Other octets are replaced, in a way
/// that depends on nothing but the octets; how is left to the name.
#[verifier::external_body]
pub(crate) fn lossy_text(octets: &[u8]) -> (text: String)
    ensures
        text@ == utf8_lossy(octets@),
        vstd::utf8::valid_utf8(octets@) ==> text@ == vstd::utf8::decode_utf8(octets@),
{
    String::from_utf8_lossy(octets).to_string()
}

/// `std::str::from_utf8`: the text whose UTF-8 encoding the octets are, where they are one.
#[verifier::external_body]
pub(crate) fn utf8_text(octets: &[u8]) -> (text: Option<&str>)
    ensures
        text is Some <==> vstd::utf8::valid_utf8(octets@),
        text matches Some(text) ==> text@ == vstd::utf8::decode_utf8(octets@),
{
    std::str::from_utf8(octets).ok()
}

/// The decimal digits of a number, without leading zeros.
pub open spec fn decimal(n: nat) -> Seq<char>
    decreases n,
{
    if n < 10 {
        seq![(0x30 + n) as char]
    } else {
        decimal(n / 10).push((0x30 + n % 10) as char)
    }
}

/// Decimal digits are digits.
pub proof fn decimal_is_digits(n: nat)
    ensures
        decimal(n).len() > 0,
        n >= 10 ==> decimal(n).len() > 1,
        forall|i: int| 0 <= i < decimal(n).len() ==> '0' <= #[trigger] decimal(n)[i] <= '9',
    decreases n,
{
    if n >= 10 {
        decimal_is_digits(n / 10);
    }
}

/// Decimal digits tell the number.
pub proof fn decimal_tells_the_number(m: nat, n: nat)
    requires
        decimal(m) == decimal(n),
    ensures
        m == n,
    decreases m,
{
    decimal_is_digits(m);
    decimal_is_digits(n);
    assert(decimal(m).last() == (0x30 + m % 10) as char);
    assert(decimal(n).last() == (0x30 + n % 10) as char);
    if m >= 10 && n >= 10 {
        assert(decimal(m).drop_last() =~= decimal(m / 10));
        assert(decimal(n).drop_last() =~= decimal(n / 10));
        decimal_tells_the_number(m / 10, n / 10);
    }
}

/// Appends the decimal digits of `n`.
pub(crate) fn push_decimal(text: &mut String, n: u64)
    ensures
        final(text)@ == old(text)@ + decimal(n as nat),
    decreases n,
{
    if n >= 10 {
        push_decimal(text, n / 10);
    }
    text.push((0x30u8 + (n % 10) as u8) as char);
    assert(text@ =~= old(text)@ + decimal(n as nat));
}

/// The upper-case hexadecimal digit of a number below 16.
pub open spec fn hex_digit(n: u8) -> char {
    if n < 10 {
        (0x30 + n) as char
    } else {
        (0x41 + n - 10) as char
    }
}

/// Appends the upper-case hexadecimal digit of `n`.
pub(crate) fn push_hex_digit(text: &mut String, n: u8)
    requires
        n < 16,
    ensures
        final(text)@ == old(text)@.push(hex_digit(n)),
{
    if n < 10 {
        text.push((0x30 + n) as char);
    } else {
        text.push((0x41 + (n - 10)) as char);
    }
}

/// The characters of a text.
pub(crate) fn chars_of(text: &str) -> (chars: Vec<char>)
    ensures
        chars@ == text@,
{
    let mut chars: Vec<char> = Vec::new();
    for c in it: text.chars()
        invariant
            chars@ == it.seq().take(it.index()),
            it.seq() == text@,
    {
        chars.push(c);
        assert(it.seq().take(it.index() + 1) =~= it.seq().take(it.index()).push(c));
    }
    assert(text@.take(text@.len() as int) =~= text@);
    chars
}

/// Whether two texts are the same.
pub(crate) fn same_text(a: &str, b: &str) -> (same: bool)
    ensures
        same == (a@ == b@),
{
    let same = same_octets(a.as_bytes(), b.as_bytes());
    proof {
        vstd::utf8::encode_utf8_decode_utf8(a@);
        vstd::utf8::encode_utf8_decode_utf8(b@);
    }
    same
}

/// Whether a text holds a character.
pub(crate) fn holds_char(text: &str, wanted: char) -> (found: bool)
    ensures
        found == text@.contains(wanted),
{
    let chars = chars_of(text);
    let mut i: usize = 0;
    while i < chars.len()
        invariant
            chars@ == text@,
            i <= chars@.len(),
            forall|j: int| 0 <= j < i ==> chars@[j] != wanted,
        decreases chars@.len() - i,
    {
        if chars[i] == wanted {
            return true;
        }
        i += 1;
    }
    false
}

/// Texts with a mark between each two of them.
pub open spec fn joined(parts: Seq<Seq<char>>, mark: char) -> Seq<char>
    decreases parts.len(),
{
    if parts.len() == 0 {
        Seq::empty()
    } else if parts.len() == 1 {
        parts[0]
    } else {
        parts[0] + seq![mark] + joined(parts.drop_first(), mark)
    }
}

/// The number that decimal digits stand for.
pub open spec fn number_in(digits: Seq<char>) -> int
    decreases digits.len(),
{
    if digits.len() == 0 {
        0
    } else {
        10 * number_in(digits.drop_last()) + (digits.last() as int - '0' as int)
    }
}

/// The decimal digits of a number stand for it, and do not start with a zero, but for zero.
pub proof fn decimal_stands_for_the_number(n: nat)
    ensures
        number_in(decimal(n)) == n,
        decimal(n).len() > 0,
        n > 0 ==> decimal(n)[0] != '0',
        n == 0 ==> decimal(n) == seq!['0'],
        forall|i: int| 0 <= i < decimal(n).len() ==> '0' <= #[trigger] decimal(n)[i] <= '9',
    decreases n,
{
    decimal_is_digits(n);
    if n < 10 {
        assert(decimal(n).drop_last() =~= Seq::empty());
        assert(decimal(n).last() as int == 0x30 + n);
        assert(number_in(decimal(n).drop_last()) == 0);
    } else {
        decimal_stands_for_the_number(n / 10);
        assert(decimal(n).drop_last() =~= decimal(n / 10));
        assert(decimal(n).last() as int == 0x30 + n % 10);
    }
}

/// A hexadecimal digit is one of `0` to `9`, or one of `A` to `F` from ten on.
pub proof fn hex_digits_stand_for_numbers(n: u8)
    requires
        n < 16,
    ensures
        n < 10 ==> hex_digit(n) as int == '0' as int + n,
        n >= 10 ==> hex_digit(n) as int == 'A' as int + n - 10,
{
}

} // verus!
