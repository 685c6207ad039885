//! The JSON text of the credential's header and claims, as bytes. The form is
//! the compact one: no white space, members in a fixed order, numbers in
//! decimal, strings with the short escapes.

use crate::hex::{digit_of, hex_digit};
use vstd::prelude::*;

verus! {

/// The byte `"`, which opens and closes a JSON string.
pub const QUOTE: u8 = 0x22;

/// The byte `\`, which starts an escape inside a JSON string.
pub const BACKSLASH: u8 = 0x5c;

/// The byte `0`, the first of the decimal digits.
pub const ZERO: u8 = 0x30;

/// The byte `9`, the last of the decimal digits.
pub const NINE: u8 = 0x39;

/// The space, the first byte that is no control character.
pub const SPACE: u8 = 0x20;

/// The backspace, escaped as `\b`.
pub const BACKSPACE: u8 = 0x08;

/// The tab, escaped as `\t`.
pub const TAB: u8 = 0x09;

/// The line feed, escaped as `\n`.
pub const LINE_FEED: u8 = 0x0a;

/// The form feed, escaped as `\f`.
pub const FORM_FEED: u8 = 0x0c;

/// The carriage return, escaped as `\r`.
pub const CARRIAGE_RETURN: u8 = 0x0d;

/// The letter `b`.
pub const LETTER_B: u8 = 0x62;

/// The letter `t`.
pub const LETTER_T: u8 = 0x74;

/// The letter `n`.
pub const LETTER_N: u8 = 0x6e;

/// The letter `f`.
pub const LETTER_F: u8 = 0x66;

/// The letter `r`.
pub const LETTER_R: u8 = 0x72;

/// The letter `u`, which comes before the four hexadecimal digits of a long
/// escape.
pub const LETTER_U: u8 = 0x75;

/// The decimal digit for `d`, for `d` below ten.
pub open spec fn decimal_digit(d: nat) -> u8 {
    (ZERO + d) as u8
}

/// The decimal text of `n`, without leading zeros.
pub open spec fn decimal(n: nat) -> Seq<u8>
    decreases n,
{
    if n < 10 {
        seq![decimal_digit(n)]
    } else {
        decimal(n / 10).push(decimal_digit(n % 10))
    }
}

/// Whether `b` is a decimal digit.
pub open spec fn is_decimal_digit(b: u8) -> bool {
    ZERO <= b <= NINE
}

/// What stands for the byte `b` inside a JSON string: the quote and the
/// backslash come after a backslash, five control characters have an escape
/// of a letter, the other control characters are written `\u00` and two
/// hexadecimal digits, and every other byte stands for itself.
pub open spec fn escape_byte(b: u8) -> Seq<u8> {
    if b == QUOTE {
        seq![BACKSLASH, QUOTE]
    } else if b == BACKSLASH {
        seq![BACKSLASH, BACKSLASH]
    } else if b == BACKSPACE {
        seq![BACKSLASH, LETTER_B]
    } else if b == TAB {
        seq![BACKSLASH, LETTER_T]
    } else if b == LINE_FEED {
        seq![BACKSLASH, LETTER_N]
    } else if b == FORM_FEED {
        seq![BACKSLASH, LETTER_F]
    } else if b == CARRIAGE_RETURN {
        seq![BACKSLASH, LETTER_R]
    } else if b < SPACE {
        seq![
            BACKSLASH,
            LETTER_U,
            ZERO,
            ZERO,
            hex_digit(b / 16) as u8,
            hex_digit(b % 16) as u8,
        ]
    } else {
        seq![b]
    }
}

/// The bytes of `text` with each one escaped: the inside of a JSON string.
pub open spec fn escape(text: Seq<u8>) -> Seq<u8>
    decreases text.len(),
{
    if text.len() == 0 {
        Seq::<u8>::empty()
    } else {
        escape(text.drop_last()) + escape_byte(text.last())
    }
}

/// The JSON string that holds `text`.
pub open spec fn json_string(text: Seq<u8>) -> Seq<u8> {
    seq![QUOTE] + escape(text) + seq![QUOTE]
}

/// Appends the decimal text of `n`.
pub fn push_decimal(out: &mut Vec<u8>, n: u64)
    ensures
        final(out)@ == old(out)@ + decimal(n as nat),
    decreases n,
{
    if n >= 10 {
        push_decimal(out, n / 10);
    }
    let digit: u8 = (n % 10) as u8;
    out.push(ZERO + digit);
    assert(out@ =~= old(out)@ + decimal(n as nat));
}

/// Appends what stands for `b` inside a JSON string.
fn push_escaped_byte(out: &mut Vec<u8>, b: u8)
    ensures
        final(out)@ == old(out)@ + escape_byte(b),
{
    if b == QUOTE {
        out.push(BACKSLASH);
        out.push(QUOTE);
    } else if b == BACKSLASH {
        out.push(BACKSLASH);
        out.push(BACKSLASH);
    } else if b == BACKSPACE {
        out.push(BACKSLASH);
        out.push(LETTER_B);
    } else if b == TAB {
        out.push(BACKSLASH);
        out.push(LETTER_T);
    } else if b == LINE_FEED {
        out.push(BACKSLASH);
        out.push(LETTER_N);
    } else if b == FORM_FEED {
        out.push(BACKSLASH);
        out.push(LETTER_F);
    } else if b == CARRIAGE_RETURN {
        out.push(BACKSLASH);
        out.push(LETTER_R);
    } else if b < SPACE {
        out.push(BACKSLASH);
        out.push(LETTER_U);
        out.push(ZERO);
        out.push(ZERO);
        out.push(digit_of(b / 16) as u8);
        out.push(digit_of(b % 16) as u8);
    } else {
        out.push(b);
    }
    assert(out@ =~= old(out)@ + escape_byte(b));
}

/// Appends the JSON string that holds `text`.
pub fn push_json_string(out: &mut Vec<u8>, text: &[u8])
    ensures
        final(out)@ == old(out)@ + json_string(text@),
{
    out.push(QUOTE);
    let mut i: usize = 0;
    while i < text.len()
        invariant
            i <= text.len(),
            out@ == old(out)@ + seq![QUOTE] + escape(text@.take(i as int)),
        decreases text.len() - i,
    {
        push_escaped_byte(out, text[i]);
        assert(text@.take(i + 1).drop_last() =~= text@.take(i as int));
        i = i + 1;
    }
    assert(text@.take(i as int) =~= text@);
    out.push(QUOTE);
    assert(out@ =~= old(out)@ + json_string(text@));
}


/// The number that a decimal text stands for.
pub open spec fn decimal_value(digits: Seq<u8>) -> nat
    decreases digits.len(),
{
    if digits.len() == 0 {
        0
    } else {
        (decimal_value(digits.drop_last()) * 10 + (digits.last() - ZERO)) as nat
    }
}

/// The decimal text of a number is not empty and holds digits only.
pub proof fn lemma_decimal_digits(n: nat)
    ensures
        decimal(n).len() >= 1,
        forall|i: int| 0 <= i < decimal(n).len() ==> is_decimal_digit(#[trigger] decimal(n)[i]),
    decreases n,
{
    if n >= 10 {
        lemma_decimal_digits(n / 10);
    }
}

/// The decimal text of a number stands for that number.
pub proof fn lemma_decimal_value(n: nat)
    ensures
        decimal_value(decimal(n)) == n,
    decreases n,
{
    if n < 10 {
        assert(decimal(n).drop_last() =~= Seq::<u8>::empty());
        assert(decimal_value(Seq::<u8>::empty()) == 0);
        assert(decimal(n).last() == decimal_digit(n));
    } else {
        lemma_decimal_value(n / 10);
        assert(decimal(n).drop_last() =~= decimal(n / 10));
        assert(decimal(n).last() == decimal_digit(n % 10));
    }
}

/// Two numbers with the same decimal text are the same number.
pub proof fn lemma_decimal_injective(a: nat, b: nat)
    requires
        decimal(a) == decimal(b),
    ensures
        a == b,
{
    lemma_decimal_value(a);
    lemma_decimal_value(b);
}

/// Ten to the power of `k`.
pub open spec fn power_of_ten(k: nat) -> nat
    decreases k,
{
    if k == 0 {
        1
    } else {
        10 * power_of_ten((k - 1) as nat)
    }
}

/// A number below ten to the power of `k` has a decimal text of at most `k`
/// digits.
pub proof fn lemma_decimal_len(n: nat, k: nat)
    requires
        k >= 1,
        n < power_of_ten(k),
    ensures
        decimal(n).len() <= k,
    decreases k,
{
    if n >= 10 {
        assert(power_of_ten(1) == 10) by {
            assert(power_of_ten(0) == 1);
        }
        lemma_decimal_len(n / 10, (k - 1) as nat);
    }
}

/// The decimal text of a number of 64 bits has at most 20 digits, and that
/// of a number of 32 bits at most 10.
pub proof fn lemma_decimal_len_of_integers(n: nat)
    ensures
        n <= u64::MAX ==> decimal(n).len() <= 20,
        n <= u32::MAX ==> decimal(n).len() <= 10,
{
    assert(power_of_ten(10) == 10_000_000_000) by {
        reveal_with_fuel(power_of_ten, 11);
    }
    assert(power_of_ten(20) == 100_000_000_000_000_000_000) by {
        reveal_with_fuel(power_of_ten, 21);
    }
    if n <= u64::MAX {
        lemma_decimal_len(n, 20);
    }
    if n <= u32::MAX {
        lemma_decimal_len(n, 10);
    }
}

/// The escaped form of a text is no shorter than the text and at most six
/// times as long.
pub proof fn lemma_escape_len(text: Seq<u8>)
    ensures
        text.len() <= escape(text).len() <= 6 * text.len(),
    decreases text.len(),
{
    if text.len() > 0 {
        lemma_escape_len(text.drop_last());
    }
}

/// A text that ends in digits splits in one way only into the digits at its
/// end and what comes before them, where that ends in something else than a
/// digit.
pub proof fn lemma_digits_at_end(before: Seq<u8>, digits: Seq<u8>, other: Seq<u8>, others: Seq<u8>)
    requires
        before + digits == other + others,
        before.len() > 0 && !is_decimal_digit(before.last()),
        other.len() > 0 && !is_decimal_digit(other.last()),
        forall|i: int| 0 <= i < digits.len() ==> is_decimal_digit(#[trigger] digits[i]),
        forall|i: int| 0 <= i < others.len() ==> is_decimal_digit(#[trigger] others[i]),
    ensures
        before == other,
        digits == others,
{
    let text = before + digits;
    assert(text.len() == before.len() + digits.len());
    assert(text.len() == other.len() + others.len());
    if before.len() > other.len() {
        let k = before.len() - 1;
        assert(text[k] == before.last());
        assert((other + others)[k] == others[k - other.len()]);
    } else if before.len() < other.len() {
        let k = other.len() - 1;
        assert((other + others)[k] == other.last());
        assert(text[k] == digits[k - before.len()]);
    }
    assert(before =~= text.subrange(0, before.len() as int));
    assert(other =~= (other + others).subrange(0, other.len() as int));
    assert(digits =~= text.subrange(before.len() as int, text.len() as int));
    assert(others =~= (other + others).subrange(other.len() as int, text.len() as int));
}

/// Two texts that are equal after the same text is put behind each are equal.
pub proof fn lemma_same_end(first: Seq<u8>, second: Seq<u8>, end: Seq<u8>)
    requires
        first + end == second + end,
    ensures
        first == second,
{
    assert((first + end).len() == first.len() + end.len());
    assert((second + end).len() == second.len() + end.len());
    assert(first =~= (first + end).subrange(0, first.len() as int));
    assert(second =~= (second + end).subrange(0, second.len() as int));
}

/// Two texts that are equal after the same text is put before each are equal.
pub proof fn lemma_same_start(start: Seq<u8>, first: Seq<u8>, second: Seq<u8>)
    requires
        start + first == start + second,
    ensures
        first == second,
{
    assert((start + first).len() == start.len() + first.len());
    assert((start + second).len() == start.len() + second.len());
    assert(first =~= (start + first).subrange(start.len() as int, (start + first).len() as int));
    assert(second =~= (start + second).subrange(
        start.len() as int,
        (start + second).len() as int,
    ));
}

/// Escaping goes byte by byte: the escaped form of two texts put together is
/// their escaped forms put together.
pub proof fn lemma_escape_concat(first: Seq<u8>, second: Seq<u8>)
    ensures
        escape(first + second) == escape(first) + escape(second),
    decreases second.len(),
{
    if second.len() == 0 {
        assert(first + second =~= first);
        assert(escape(first) + escape(second) =~= escape(first));
    } else {
        lemma_escape_concat(first, second.drop_last());
        assert((first + second).drop_last() =~= first + second.drop_last());
        assert((first + second).last() == second.last());
        assert(escape(first + second) =~= escape(first) + escape(second));
    }
}

/// The escaped form of a text starts with the escaped form of its first
/// byte.
pub proof fn lemma_escape_first(text: Seq<u8>)
    requires
        text.len() > 0,
    ensures
        escape(text) == escape_byte(text[0]) + escape(text.skip(1)),
{
    assert(text =~= seq![text[0]] + text.skip(1));
    lemma_escape_concat(seq![text[0]], text.skip(1));
    assert(seq![text[0]].drop_last() =~= Seq::<u8>::empty());
    assert(escape(Seq::<u8>::empty()) =~= Seq::<u8>::empty());
    assert(escape(seq![text[0]]) =~= escape_byte(text[0]));
}

/// What stands for a byte tells which byte it is, whatever text follows: no
/// escaped form is the start of another.
pub proof fn lemma_escape_byte_prefix_free(a: u8, rest_a: Seq<u8>, b: u8, rest_b: Seq<u8>)
    requires
        escape_byte(a) + rest_a == escape_byte(b) + rest_b,
    ensures
        a == b,
{
    let text = escape_byte(a) + rest_a;
    let other = escape_byte(b) + rest_b;
    assert(text[0] == escape_byte(a)[0]);
    assert(other[0] == escape_byte(b)[0]);
    if escape_byte(a)[0] == BACKSLASH {
        assert(escape_byte(a).len() >= 2);
        assert(escape_byte(b).len() >= 2);
        assert(text[1] == escape_byte(a)[1]);
        assert(other[1] == escape_byte(b)[1]);
        if escape_byte(a)[1] == LETTER_U {
            assert(escape_byte(a).len() == 6);
            assert(escape_byte(b).len() == 6);
            assert(text[4] == escape_byte(a)[4]);
            assert(other[4] == escape_byte(b)[4]);
            assert(text[5] == escape_byte(a)[5]);
            assert(other[5] == escape_byte(b)[5]);
            assert(hex_digit(a / 16) as u8 == hex_digit(b / 16) as u8);
            assert(hex_digit(a % 16) as u8 == hex_digit(b % 16) as u8);
        }
    }
}

/// Two texts with the same escaped form are the same text.
pub proof fn lemma_escape_injective(first: Seq<u8>, second: Seq<u8>)
    requires
        escape(first) == escape(second),
    ensures
        first == second,
    decreases first.len(),
{
    if first.len() == 0 {
        if second.len() > 0 {
            lemma_escape_first(second);
            assert(escape_byte(second[0]).len() >= 1);
        }
        assert(first =~= second);
    } else {
        lemma_escape_first(first);
        if second.len() == 0 {
            assert(escape_byte(first[0]).len() >= 1);
        } else {
            lemma_escape_first(second);
            lemma_escape_byte_prefix_free(
                first[0],
                escape(first.skip(1)),
                second[0],
                escape(second.skip(1)),
            );
            lemma_same_start(escape_byte(first[0]), escape(first.skip(1)), escape(second.skip(1)));
            lemma_escape_injective(first.skip(1), second.skip(1));
            assert(first =~= seq![first[0]] + first.skip(1));
            assert(second =~= seq![second[0]] + second.skip(1));
        }
    }
}

/// Two texts that make the same JSON string are the same text.
pub proof fn lemma_json_string_injective(first: Seq<u8>, second: Seq<u8>)
    requires
        json_string(first) == json_string(second),
    ensures
        first == second,
{
    lemma_same_end(seq![QUOTE] + escape(first), seq![QUOTE] + escape(second), seq![QUOTE]);
    lemma_same_start(seq![QUOTE], escape(first), escape(second));
    lemma_escape_injective(first, second);
}

} // verus!
