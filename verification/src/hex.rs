//! Lowercase hexadecimal text for byte strings.

use vstd::prelude::*;

verus! {

/// The lowercase hexadecimal digit that stands for `v`, for `v` below sixteen.
pub open spec fn hex_digit(v: u8) -> char {
    if v < 10 {
        ((0x30 + v) as u8) as char
    } else {
        ((0x57 + v) as u8) as char
    }
}

/// Whether `c` is one of `0`-`9` or `a`-`f`.
pub open spec fn is_lower_hex(c: char) -> bool {
    ('0' <= c <= '9') || ('a' <= c <= 'f')
}

/// The value that the lowercase hexadecimal digit `c` stands for.
pub open spec fn hex_value(c: char) -> u8 {
    if c <= '9' {
        (c as u8 - 0x30) as u8
    } else {
        (c as u8 - 0x57) as u8
    }
}

/// The lowercase hexadecimal text of `data`: two digits for each byte, the
/// high half first.
pub open spec fn to_hex_lower(data: Seq<u8>) -> Seq<char> {
    Seq::new(
        2 * data.len(),
        |i: int|
            if i % 2 == 0 {
                hex_digit(data[i / 2] / 16)
            } else {
                hex_digit(data[i / 2] % 16)
            },
    )
}

/// Every digit of a hexadecimal text is a lowercase hexadecimal digit, and the
/// text is twice as long as the bytes it stands for.
pub proof fn lemma_hex_shape(data: Seq<u8>)
    ensures
        to_hex_lower(data).len() == 2 * data.len(),
        forall|i: int| 0 <= i < 2 * data.len() ==> is_lower_hex(#[trigger] to_hex_lower(data)[i]),
{
}

/// Two byte strings with the same hexadecimal text are the same byte string.
pub proof fn lemma_hex_injective(a: Seq<u8>, b: Seq<u8>)
    requires
        to_hex_lower(a) == to_hex_lower(b),
    ensures
        a == b,
{
    assert(to_hex_lower(a).len() == 2 * a.len());
    assert(to_hex_lower(b).len() == 2 * b.len());
    assert forall|k: int| 0 <= k < a.len() implies a[k] == b[k] by {
        let hi_a = to_hex_lower(a)[2 * k];
        let lo_a = to_hex_lower(a)[2 * k + 1];
        let hi_b = to_hex_lower(b)[2 * k];
        let lo_b = to_hex_lower(b)[2 * k + 1];
        assert(hi_a == hex_digit(a[k] / 16));
        assert(lo_a == hex_digit(a[k] % 16));
        assert(hi_b == hex_digit(b[k] / 16));
        assert(lo_b == hex_digit(b[k] % 16));
        assert(hex_value(hex_digit(a[k] / 16)) == a[k] / 16);
        assert(hex_value(hex_digit(b[k] / 16)) == b[k] / 16);
        assert(hex_value(hex_digit(a[k] % 16)) == a[k] % 16);
        assert(hex_value(hex_digit(b[k] % 16)) == b[k] % 16);
    }
    assert(a =~= b);
}

/// `String::push` appends one character to the text.
pub assume_specification[ String::push ](text: &mut String, c: char)
    ensures
        final(text)@ == old(text)@.push(c),
;

/// The lowercase hexadecimal digit that stands for `v`.
pub fn digit_of(v: u8) -> (c: char)
    requires
        v < 16,
    ensures
        c == hex_digit(v),
        is_lower_hex(c),
{
    if v < 10 {
        (0x30 + v) as char
    } else {
        (0x57 + v) as char
    }
}

/// Writes `data` as lowercase hexadecimal digits, two for each byte.
pub fn encode_hex_lower(data: &[u8]) -> (text: String)
    ensures
        text@ == to_hex_lower(data@),
        text@.len() == 2 * data@.len(),
        forall|i: int| 0 <= i < text@.len() ==> is_lower_hex(#[trigger] text@[i]),
{
    let mut text = String::new();
    let mut i: usize = 0;
    while i < data.len()
        invariant
            i <= data.len(),
            text@.len() == 2 * i,
            forall|j: int| 0 <= j < 2 * i ==> text@[j] == #[trigger] to_hex_lower(data@)[j],
        decreases data.len() - i,
    {
        let byte: u8 = data[i];
        text.push(digit_of(byte / 16));
        text.push(digit_of(byte % 16));
        i = i + 1;
    }
    assert(text@ =~= to_hex_lower(data@));
    text
}

} // verus!
