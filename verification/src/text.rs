//! Text forms of addresses for debug output.
use vstd::prelude::*;

verus! {

/// The lowercase hexadecimal digit for a value below 16.
pub open spec fn hex_digit(d: nat) -> char {
    if d < 10 {
        ((d + 48) as u8) as char
    } else {
        ((d + 87) as u8) as char
    }
}

/// The lowercase hexadecimal digits of `x`, without leading zeros (a single `0` for zero).
pub open spec fn hex_digits(x: nat) -> Seq<char>
    decreases x,
{
    if x < 16 {
        seq![hex_digit(x)]
    } else {
        hex_digits(x / 16).push(hex_digit(x % 16))
    }
}

/// `x` as `{:#x}` writes it: `0x` followed by its lowercase hexadecimal digits.
pub open spec fn hex_text(x: u64) -> Seq<char> {
    seq!['0', 'x'] + hex_digits(x as nat)
}

/// `c` is a lowercase hexadecimal digit: `0` to `9` or `a` to `f`.
pub open spec fn is_hex_char(c: char) -> bool {
    ('0' <= c && c <= '9') || ('a' <= c && c <= 'f')
}

/// The value of a lowercase hexadecimal digit character.
pub open spec fn hex_char_value(c: char) -> nat {
    if '0' <= c && c <= '9' {
        (c as int - '0' as int) as nat
    } else {
        (c as int - 'a' as int + 10) as nat
    }
}

/// The number that a sequence of hexadecimal digits reads as, most significant digit first.
pub open spec fn hex_value(s: Seq<char>) -> nat
    decreases s.len(),
{
    if s.len() == 0 {
        0
    } else {
        hex_value(s.drop_last()) * 16 + hex_char_value(s.last())
    }
}

/// `s` is a hexadecimal numeral as `{:x}` writes one: at least one digit, only lowercase
/// hexadecimal digits, and no leading zero unless the numeral is `0` itself.
pub open spec fn is_hex_numeral(s: Seq<char>) -> bool {
    &&& s.len() >= 1
    &&& forall|i: int| 0 <= i < s.len() ==> is_hex_char(#[trigger] s[i])
    &&& (s.len() > 1 ==> s[0] != '0')
}

proof fn lemma_hex_digit(d: nat)
    requires
        d < 16,
    ensures
        is_hex_char(hex_digit(d)),
        hex_char_value(hex_digit(d)) == d,
        hex_digit(d) == '0' <==> d == 0,
{
    if d < 10 {
        assert(hex_digit(d) as int == d + 48);
    } else {
        assert(hex_digit(d) as int == d + 87);
    }
}

/// The digits of `x` form a hexadecimal numeral that reads back as `x`.
pub proof fn lemma_hex_digits_read_back(x: nat)
    ensures
        is_hex_numeral(hex_digits(x)),
        hex_value(hex_digits(x)) == x,
        x > 0 ==> hex_digits(x)[0] != '0',
    decreases x,
{
    if x < 16 {
        lemma_hex_digit(x);
        let s = hex_digits(x);
        assert(s.drop_last() =~= Seq::<char>::empty());
        assert(hex_value(Seq::<char>::empty()) == 0);
    } else {
        lemma_hex_digits_read_back(x / 16);
        lemma_hex_digit(x % 16);
        let h = hex_digits(x / 16);
        let s = hex_digits(x);
        assert(s == h.push(hex_digit(x % 16)));
        assert(s.drop_last() =~= h);
        assert(s[0] == h[0]);
        assert forall|i: int| 0 <= i < s.len() implies is_hex_char(#[trigger] s[i]) by {
            if i < h.len() {
                assert(s[i] == h[i]);
            }
        }
    }
}

/// Calls `format!("{:#x}", x)`.
///
/// The standard library documents `LowerHex` with the alternate flag `#` as writing the
/// prefix `0x` and then the value in lowercase hexadecimal digits, with no leading zeros.
#[verifier::external_body]
pub(crate) fn hex_string(x: u64) -> (r: String)
    ensures
        r@ == hex_text(x),
{
    format!("{:#x}", x)
}

} // verus!
