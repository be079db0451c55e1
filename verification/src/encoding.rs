//! Hexadecimal and decimal notation.

use hex::FromHexError;
use vstd::prelude::*;

verus! {

/// Why a text is not hexadecimal.
#[verifier::external_type_specification]
#[verifier::external_body]
pub struct ExFromHexError(FromHexError);

/// The lower-case hexadecimal digit of `n`, for `n` below 16.
pub open spec fn hex_digit(n: int) -> char {
    if n < 10 {
        (48 + n) as char
    } else {
        (87 + n) as char
    }
}

/// Two lower-case hexadecimal digits for each byte, the high half first.
pub open spec fn hex_encoded(bytes: Seq<u8>) -> Seq<char> {
    Seq::new(
        2 * bytes.len(),
        |i: int|
            if i % 2 == 0 {
                hex_digit(bytes[i / 2] as int / 16)
            } else {
                hex_digit(bytes[i / 2] as int % 16)
            },
    )
}

/// The value of a hexadecimal digit of either case.
pub open spec fn hex_value(c: char) -> Option<int> {
    if '0' <= c <= '9' {
        Some(c as int - 48)
    } else if 'a' <= c <= 'f' {
        Some(c as int - 87)
    } else if 'A' <= c <= 'F' {
        Some(c as int - 55)
    } else {
        None
    }
}

/// The bytes that a text of hexadecimal digits stands for: `None` if it holds anything but
/// digits or an odd number of them.
pub open spec fn hex_decoded(text: Seq<char>) -> Option<Seq<u8>> {
    if text.len() % 2 == 0 && (forall|i: int|
        0 <= i < text.len() ==> hex_value(#[trigger] text[i]) is Some) {
        Some(
            Seq::new(
                text.len() / 2,
                |i: int| (16 * hex_value(text[2 * i])->0 + hex_value(text[2 * i + 1])->0) as u8,
            ),
        )
    } else {
        None
    }
}

/// Calls `hex::encode`, which writes each byte as two lower-case digits. The text has to fit in
/// a string, which holds at most `isize::MAX` bytes.
#[verifier::external_body]
pub(crate) fn hex_encode(bytes: &[u8]) -> (r: String)
    requires
        2 * bytes@.len() <= isize::MAX,
    ensures
        r@ == hex_encoded(bytes@),
{
    hex::encode(bytes)
}

/// Calls `hex::decode`, which takes digits of either case and fails on anything else and on an
/// odd number of digits.
#[verifier::external_body]
pub(crate) fn hex_decode(text: &str) -> (r: Result<Vec<u8>, FromHexError>)
    ensures
        r is Ok <==> hex_decoded(text@) is Some,
        r matches Ok(bytes) ==> hex_decoded(text@) == Some(bytes@),
{
    hex::decode(text)
}

/// Decoding undoes encoding.
pub proof fn hex_round_trip(bytes: Seq<u8>)
    ensures
        hex_decoded(hex_encoded(bytes)) == Some(bytes),
{
    let text = hex_encoded(bytes);
    assert forall|i: int| 0 <= i < text.len() implies hex_value(#[trigger] text[i]) is Some by {
        let b = bytes[i / 2] as int;
        assert(0 <= b / 16 < 16 && 0 <= b % 16 < 16);
    }
    let back = hex_decoded(text)->0;
    assert forall|i: int| 0 <= i < bytes.len() implies back[i] == bytes[i] by {
        let b = bytes[i] as int;
        assert((2 * i) / 2 == i && (2 * i + 1) / 2 == i);
        assert((2 * i) % 2 == 0 && (2 * i + 1) % 2 == 1);
        assert(hex_value(text[2 * i]) == Some(b / 16));
        assert(hex_value(text[2 * i + 1]) == Some(b % 16));
        assert(16 * (b / 16) + b % 16 == b);
    }
    assert(back =~= bytes);
}

/// Different bytes have different hexadecimal texts.
pub proof fn hex_is_injective(a: Seq<u8>, b: Seq<u8>)
    ensures
        hex_encoded(a) == hex_encoded(b) ==> a == b,
{
    hex_round_trip(a);
    hex_round_trip(b);
}

/// `n` in decimal notation, without leading zeros.
pub open spec fn decimal(n: nat) -> Seq<char>
    decreases n,
{
    if n < 10 {
        seq![(48 + n) as char]
    } else {
        decimal(n / 10).push((48 + n % 10) as char)
    }
}

/// Calls `u64::to_string`: the number in decimal notation.
#[verifier::external_body]
pub(crate) fn decimal_text(n: u64) -> (r: String)
    ensures
        r@ == decimal(n as nat),
{
    n.to_string()
}

/// One or more decimal digits.
pub open spec fn is_digits(s: Seq<char>) -> bool {
    s.len() > 0 && (forall|i: int| 0 <= i < s.len() ==> '0' <= #[trigger] s[i] <= '9')
}

/// The number that a text of decimal digits stands for.
pub open spec fn digits_value(s: Seq<char>) -> int
    decreases s.len(),
{
    if s.len() == 0 {
        0
    } else {
        10 * digits_value(s.drop_last()) + (s.last() as int - 48)
    }
}

/// An optional `+` and decimal digits whose value fits in 64 bits; anything else is `None`.
pub open spec fn parsed_u64(s: Seq<char>) -> Option<u64> {
    let digits = if s.len() > 0 && s[0] == '+' {
        s.drop_first()
    } else {
        s
    };
    if is_digits(digits) && digits_value(digits) <= u64::MAX {
        Some(digits_value(digits) as u64)
    } else {
        None
    }
}

/// Calls `str::parse` for `u64`: an optional `+` followed by decimal digits only, with an error
/// on anything else and on a value that does not fit.
#[verifier::external_body]
pub(crate) fn parse_u64(s: &str) -> (r: Option<u64>)
    ensures
        r == parsed_u64(s@),
{
    s.parse::<u64>().ok()
}

/// Reading back a number in decimal notation gives the number.
pub proof fn decimal_round_trip(n: u64)
    ensures
        parsed_u64(decimal(n as nat)) == Some(n),
{
    decimal_digits(n as nat);
    assert(decimal(n as nat)[0] != '+');
}

proof fn decimal_digits(n: nat)
    ensures
        is_digits(decimal(n)),
        digits_value(decimal(n)) == n,
    decreases n,
{
    reveal_with_fuel(digits_value, 2);
    if n < 10 {
        assert(decimal(n).drop_last() =~= Seq::<char>::empty());
    } else {
        decimal_digits(n / 10);
        let s = decimal(n);
        assert(s.drop_last() =~= decimal(n / 10));
        assert forall|i: int| 0 <= i < s.len() implies '0' <= #[trigger] s[i] <= '9' by {
            if i < s.len() - 1 {
                assert(s[i] == decimal(n / 10)[i]);
            }
        }
    }
}

} // verus!
