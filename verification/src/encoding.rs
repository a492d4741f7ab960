//! Text forms used by the ledger: lowercase hexadecimal for byte strings and
//! decimal for counters.

use vstd::prelude::*;
use vstd::utf8::{encode_utf8, is_ascii_chars, is_ascii_chars_encode_utf8};

verus! {

/// ASCII code of the lowercase hexadecimal digit that stands for `v`, for `v`
/// below 16.
pub open spec fn hex_digit(v: int) -> u8 {
    if v < 10 {
        (48 + v) as u8
    } else {
        (87 + v) as u8
    }
}

/// Lowercase hexadecimal form of `data` as ASCII bytes: two digits per
/// byte, the high half first.
pub open spec fn hex_ascii(data: Seq<u8>) -> Seq<u8> {
    Seq::new(
        2 * data.len(),
        |i: int|
            if i % 2 == 0 {
                hex_digit(data[i / 2] as int / 16)
            } else {
                hex_digit(data[i / 2] as int % 16)
            },
    )
}

/// Lowercase hexadecimal form of `data` as characters.
pub open spec fn hex_text(data: Seq<u8>) -> Seq<char> {
    Seq::new(2 * data.len(), |i: int| hex_ascii(data)[i] as char)
}

/// Value of a hexadecimal digit in either case, or -1 for any other character.
pub open spec fn hex_value(c: char) -> int {
    if '0' <= c <= '9' {
        c as int - 48
    } else if 'a' <= c <= 'f' {
        c as int - 87
    } else if 'A' <= c <= 'F' {
        c as int - 55
    } else {
        -1
    }
}

/// Whether `text` is an even number of hexadecimal digits.
pub open spec fn is_hex_text(text: Seq<char>) -> bool {
    &&& text.len() % 2 == 0
    &&& forall|i: int| 0 <= i < text.len() ==> hex_value(#[trigger] text[i]) >= 0
}

/// The bytes that hexadecimal `text` stands for: one byte per pair of digits.
pub open spec fn hex_bytes(text: Seq<char>) -> Seq<u8> {
    Seq::new(
        text.len() / 2,
        |i: int| (16 * hex_value(text[2 * i]) + hex_value(text[2 * i + 1])) as u8,
    )
}

/// Decimal form of `n` as ASCII digits, most significant first, without
/// leading zeros; zero is the single digit `0`.
pub open spec fn decimal_ascii(n: nat) -> Seq<u8>
    decreases n,
{
    if n < 10 {
        seq![(48 + n) as u8]
    } else {
        decimal_ascii(n / 10).push((48 + n % 10) as u8)
    }
}

/// Decimal form of `n` as characters.
pub open spec fn decimal_text(n: nat) -> Seq<char> {
    Seq::new(decimal_ascii(n).len(), |i: int| decimal_ascii(n)[i] as char)
}

/// `hex::FromHexError`: why text is not hexadecimal. Its contents are not
/// looked into.
#[verifier::external_type_specification]
#[verifier::external_body]
pub struct ExFromHexError(hex::FromHexError);

/// Calls `hex::encode`. Trusted: the string holds two lowercase digits for
/// each byte of `data`, in order, the high half of the byte first.
#[verifier::external_body]
pub(crate) fn hex_encode(data: &[u8]) -> (text: String)
    ensures
        text@ == hex_text(data@),
{
    hex::encode(data)
}

/// Calls `hex::decode`. Trusted: it succeeds exactly on an even number of
/// hexadecimal digits (either case), and then each pair of digits gives one
/// byte, the first digit being the high half.
#[verifier::external_body]
pub(crate) fn hex_decode(text: &str) -> (decoded: Result<Vec<u8>, hex::FromHexError>)
    ensures
        decoded.is_ok() <==> is_hex_text(text@),
        decoded matches Ok(bytes) ==> bytes@ == hex_bytes(text@),
{
    hex::decode(text)
}

/// Calls `FromHexError`'s `Display`: the decoder's own account of the error.
#[verifier::external_body]
pub(crate) fn hex_error_text(err: &hex::FromHexError) -> (text: String) {
    err.to_string()
}

/// Hexadecimal text is ASCII, so its UTF-8 encoding is `hex_ascii`.
pub proof fn lemma_hex_text_utf8(data: Seq<u8>)
    ensures
        is_ascii_chars(hex_text(data)),
        encode_utf8(hex_text(data)) == hex_ascii(data),
{
    let text = hex_text(data);
    assert forall|i: int| 0 <= i < text.len() implies '\0' <= #[trigger] text[i] <= '\u{7f}' by {
        lemma_hex_ascii_index(data, i);
    }
    is_ascii_chars_encode_utf8(text);
    assert forall|i: int| 0 <= i < text.len() implies encode_utf8(text)[i] == hex_ascii(data)[i] by {
        lemma_hex_ascii_index(data, i);
        assert(text[i] as u8 == encode_utf8(text)[i]);
    }
    assert(encode_utf8(text) =~= hex_ascii(data));
}

/// Each byte of `hex_ascii` is a lowercase hexadecimal digit.
pub proof fn lemma_hex_ascii_index(data: Seq<u8>, i: int)
    requires
        0 <= i < 2 * data.len(),
    ensures
        48 <= hex_ascii(data)[i] <= 57 || 97 <= hex_ascii(data)[i] <= 102,
        hex_text(data)[i] as u8 == hex_ascii(data)[i],
        hex_value(hex_text(data)[i]) == if i % 2 == 0 {
            data[i / 2] as int / 16
        } else {
            data[i / 2] as int % 16
        },
{
    let b = data[i / 2] as int;
    assert(0 <= b / 16 < 16 && 0 <= b % 16 < 16);
}

/// Decoding the hexadecimal form of `data` gives `data` back.
pub proof fn lemma_hex_round_trip(data: Seq<u8>)
    ensures
        is_hex_text(hex_text(data)),
        hex_bytes(hex_text(data)) == data,
{
    let text = hex_text(data);
    assert forall|i: int| 0 <= i < text.len() implies hex_value(#[trigger] text[i]) >= 0 by {
        lemma_hex_ascii_index(data, i);
    }
    assert forall|i: int| 0 <= i < data.len() implies hex_bytes(text)[i] == data[i] by {
        lemma_hex_ascii_index(data, 2 * i);
        lemma_hex_ascii_index(data, 2 * i + 1);
        let b = data[i] as int;
        assert((2 * i) / 2 == i && (2 * i + 1) / 2 == i);
        assert(16 * (b / 16) + b % 16 == b);
    }
    assert(hex_bytes(text) =~= data);
}

/// Decimal form of `n` without its last digit written yet: nothing for zero,
/// else the decimal form of `n`.
pub open spec fn decimal_head(n: nat) -> Seq<u8> {
    if n == 0 {
        Seq::empty()
    } else {
        decimal_ascii(n)
    }
}

/// A number is its head without the last digit, then the last digit.
pub proof fn lemma_decimal_split(n: nat)
    ensures
        decimal_ascii(n) == decimal_head(n / 10).push((48 + n % 10) as u8),
{
    if n < 10 {
        assert(n / 10 == 0 && n % 10 == n);
        assert(decimal_ascii(n) =~= Seq::<u8>::empty().push((48 + n % 10) as u8));
    }
}

/// The decimal form of a number is one or more of the digits `0` to `9`.
pub proof fn lemma_decimal_digits(n: nat)
    ensures
        decimal_ascii(n).len() >= 1,
        forall|i: int| 0 <= i < decimal_ascii(n).len() ==> 48 <= #[trigger] decimal_ascii(n)[i] <= 57,
    decreases n,
{
    if n >= 10 {
        lemma_decimal_digits(n / 10);
    }
}

/// Appends the decimal form of `n` to `buf`.
pub fn push_decimal(buf: &mut Vec<u8>, n: u64)
    ensures
        final(buf)@ == old(buf)@ + decimal_ascii(n as nat),
{
    let ghost start = buf@;
    // Digits come out least significant first; they are appended in reverse.
    let mut digits: Vec<u8> = Vec::new();
    let mut rest: u64 = n;
    digits.push(48 + (rest % 10) as u8);
    rest = rest / 10;
    proof {
        lemma_decimal_split(n as nat);
        assert(decimal_ascii(n as nat) =~= decimal_head(rest as nat) + digits@.reverse());
    }
    while rest > 0
        invariant
            decimal_ascii(n as nat) == decimal_head(rest as nat) + digits@.reverse(),
        decreases rest,
    {
        let ghost before = digits@;
        proof {
            lemma_decimal_split(rest as nat);
        }
        digits.push(48 + (rest % 10) as u8);
        rest = rest / 10;
        proof {
            assert(digits@.reverse() =~= seq![digits@.last()] + before.reverse());
            assert(decimal_ascii(n as nat) =~= decimal_head(rest as nat) + digits@.reverse());
        }
    }
    let mut i: usize = digits.len();
    while i > 0
        invariant
            i <= digits.len(),
            buf@ == start + digits@.reverse().subrange(0, digits.len() - i),
        decreases i,
    {
        i -= 1;
        buf.push(digits[i]);
        proof {
            let r = digits@.reverse();
            let k = digits.len() - i;
            assert(r.subrange(0, k) =~= r.subrange(0, k - 1).push(digits@[i as int]));
            assert(buf@ =~= start + r.subrange(0, k));
        }
    }
    proof {
        assert(digits@.reverse().subrange(0, digits.len() as int) =~= digits@.reverse());
    }
}

} // verus!
