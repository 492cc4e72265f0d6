//! Byte-level helpers shared by the scanner, the printer and the interpreter:
//! ASCII text and unsigned decimal numerals.

use vstd::prelude::*;

verus! {

/// True when every byte is an ASCII byte.
pub open spec fn is_ascii_bytes(bytes: Seq<u8>) -> bool {
    forall|i: int| 0 <= i < bytes.len() ==> bytes[i] < 128
}

/// The characters that a sequence of ASCII bytes stands for, one per byte.
pub open spec fn ascii_chars(bytes: Seq<u8>) -> Seq<char> {
    Seq::new(bytes.len(), |i: int| bytes[i] as char)
}

/// `String::from_utf8` of the standard library, with its error dropped.
///
/// The contract claims what the documentation of that function says: the
/// conversion succeeds exactly on well-formed UTF-8, and the string then holds
/// the characters that the bytes encode.
#[verifier::external_body]
fn string_from_utf8(bytes: Vec<u8>) -> (res: Option<String>)
    ensures
        res is Some <==> vstd::utf8::valid_utf8(bytes@),
        res matches Some(s) ==> s@ == vstd::utf8::decode_utf8(bytes@),
{
    String::from_utf8(bytes).ok()
}

/// ASCII bytes are well-formed UTF-8 and decode to one character per byte.
pub proof fn lemma_ascii_is_utf8(bytes: Seq<u8>)
    requires
        is_ascii_bytes(bytes),
    ensures
        vstd::utf8::valid_utf8(bytes),
        vstd::utf8::decode_utf8(bytes) == ascii_chars(bytes),
{
    let chars = ascii_chars(bytes);
    assert forall|i: int| 0 <= i < chars.len() implies (chars[i] as nat) < 128 && chars[i] as u8
        == bytes[i] by {
        let b = bytes[i];
        assert(b < 128);
        assert((b as char) as u8 == b);
    }
    assert(vstd::utf8::is_ascii_chars(chars));
    vstd::utf8::is_ascii_chars_encode_utf8(chars);
    assert(vstd::utf8::encode_utf8(chars) =~= bytes);
    vstd::utf8::encode_utf8_valid_utf8(chars);
    vstd::utf8::encode_utf8_decode_utf8(chars);
}

/// The string made of the given ASCII bytes.
pub fn ascii_string(bytes: Vec<u8>) -> (s: String)
    requires
        is_ascii_bytes(bytes@),
    ensures
        s@ == ascii_chars(bytes@),
{
    proof {
        lemma_ascii_is_utf8(bytes@);
    }
    match string_from_utf8(bytes) {
        Some(s) => s,
        None => String::new(),
    }
}

/// True for the bytes `0` to `9`.
pub open spec fn is_digit(b: u8) -> bool {
    48 <= b <= 57
}

/// True when every byte is a decimal digit.
pub open spec fn all_digits(bytes: Seq<u8>) -> bool {
    forall|i: int| 0 <= i < bytes.len() ==> is_digit(#[trigger] bytes[i])
}

/// The number that a run of decimal digits denotes, most significant digit first.
pub open spec fn decimal_value(digits: Seq<u8>) -> nat
    decreases digits.len(),
{
    if digits.len() == 0 {
        0
    } else {
        decimal_value(digits.drop_last()) * 10 + (digits.last() - 48) as nat
    }
}

/// What a numeral denotes as a 32-bit value: a non-empty run of digits whose
/// value fits, and nothing otherwise.
pub open spec fn parse_decimal(digits: Seq<u8>) -> Option<u32> {
    if digits.len() > 0 && all_digits(digits) && decimal_value(digits) <= u32::MAX {
        Some(decimal_value(digits) as u32)
    } else {
        None
    }
}

/// What a numeral with an optional leading `+` denotes.
pub open spec fn parse_unsigned(text: Seq<u8>) -> Option<u32> {
    if text.len() > 0 && text[0] == 43 {
        parse_decimal(text.skip(1))
    } else {
        parse_decimal(text)
    }
}

/// A prefix of a run of digits denotes no more than the whole run.
pub proof fn lemma_decimal_prefix(digits: Seq<u8>, k: int)
    requires
        0 <= k <= digits.len(),
        all_digits(digits),
    ensures
        decimal_value(digits.take(k)) <= decimal_value(digits),
    decreases digits.len(),
{
    if k == digits.len() {
        assert(digits.take(k) =~= digits);
    } else {
        assert(digits.drop_last().take(k) =~= digits.take(k));
        assert(is_digit(digits[digits.len() - 1]));
        lemma_decimal_prefix(digits.drop_last(), k);
    }
}

/// Reads the bytes from index `from` on as a decimal numeral.
pub fn parse_digits(bytes: &Vec<u8>, from: usize) -> (res: Option<u32>)
    requires
        from <= bytes.len(),
    ensures
        res == parse_decimal(bytes@.skip(from as int)),
{
    let ghost digits = bytes@.skip(from as int);
    let n: usize = bytes.len();
    if from == n {
        return None;
    }
    let mut acc: u32 = 0;
    let mut i: usize = from;
    while i < n
        invariant
            from <= i <= n,
            n == bytes.len(),
            digits == bytes@.skip(from as int),
            all_digits(digits.take(i - from)),
            decimal_value(digits.take(i - from)) == acc,
        decreases n - i,
    {
        let b: u8 = bytes[i];
        assert(digits[i - from] == b);
        if b < 48 || b > 57 {
            return None;
        }
        let d: u32 = (b - 48) as u32;
        proof {
            assert(digits.take(i - from + 1).drop_last() =~= digits.take(i - from));
            assert(decimal_value(digits.take(i - from + 1)) == acc * 10 + d);
            assert forall|j: int| 0 <= j < i - from + 1 implies is_digit(
                #[trigger] digits.take(i - from + 1)[j],
            ) by {
                if j < i - from {
                    assert(digits.take(i - from)[j] == digits[j]);
                }
            }
        }
        if acc > (u32::MAX - d) / 10 {
            proof {
                if all_digits(digits) {
                    lemma_decimal_prefix(digits, i - from + 1);
                }
            }
            return None;
        }
        acc = acc * 10 + d;
        i = i + 1;
    }
    assert(digits.take(n - from) =~= digits);
    Some(acc)
}

/// Reads a whole text as a decimal numeral that an optional `+` may precede.
pub fn parse_number(text: &Vec<u8>) -> (res: Option<u32>)
    ensures
        res == parse_unsigned(text@),
{
    if text.len() > 0 && text[0] == 43 {
        parse_digits(text, 1)
    } else {
        assert(text@.skip(0) =~= text@);
        parse_digits(text, 0)
    }
}

/// The decimal numeral of a number, without leading zeros.
pub open spec fn decimal_digits(n: nat) -> Seq<u8>
    decreases n,
{
    if n < 10 {
        seq![(48 + n) as u8]
    } else {
        decimal_digits(n / 10).push((48 + n % 10) as u8)
    }
}

/// A numeral is made of digits, and reading it gives the number back.
pub proof fn lemma_decimal_round_trip(n: nat)
    ensures
        decimal_digits(n).len() > 0,
        all_digits(decimal_digits(n)),
        decimal_value(decimal_digits(n)) == n,
    decreases n,
{
    if n < 10 {
        assert(decimal_digits(n).drop_last() =~= Seq::<u8>::empty());
        assert(decimal_value(Seq::<u8>::empty()) == 0);
    } else {
        lemma_decimal_round_trip(n / 10);
        assert(decimal_digits(n).drop_last() =~= decimal_digits(n / 10));
    }
}

/// Appends the decimal numeral of `n` to `out`.
pub fn push_decimal(n: u32, out: &mut Vec<u8>)
    ensures
        final(out)@ == old(out)@ + decimal_digits(n as nat),
    decreases n,
{
    if n < 10 {
        out.push(48 + n as u8);
        assert(final(out)@ =~= old(out)@ + decimal_digits(n as nat));
    } else {
        push_decimal(n / 10, out);
        out.push(48 + (n % 10) as u8);
        assert(final(out)@ =~= old(out)@ + decimal_digits(n as nat));
    }
}

/// The decimal numeral of `n` as a string.
pub fn decimal_string(n: u32) -> (s: String)
    ensures
        s@ == ascii_chars(decimal_digits(n as nat)),
{
    let mut digits: Vec<u8> = Vec::new();
    push_decimal(n, &mut digits);
    proof {
        lemma_decimal_round_trip(n as nat);
        assert(digits@ =~= decimal_digits(n as nat));
    }
    ascii_string(digits)
}

/// The given texts in order, with a comma between each two.
pub open spec fn join_comma(items: Seq<Seq<char>>) -> Seq<char>
    decreases items.len(),
{
    if items.len() == 0 {
        Seq::empty()
    } else if items.len() == 1 {
        items[0]
    } else {
        join_comma(items.drop_last()) + ","@ + items.last()
    }
}

/// The given texts as a list: in square brackets, with a comma between each two.
pub open spec fn bracketed(items: Seq<Seq<char>>) -> Seq<char> {
    "["@ + join_comma(items) + "]"@
}

} // verus!
