//! Identifiers: 128-bit values, drawn and printed by the `uuid` crate.

use vstd::prelude::*;
use crate::text::digit_char;

verus! {

/// The lower-case hexadecimal digit for a value below sixteen.
pub open spec fn hex_digit(d: nat) -> char {
    if d < 10 {
        digit_char(d)
    } else if d == 10 {
        'a'
    } else if d == 11 {
        'b'
    } else if d == 12 {
        'c'
    } else if d == 13 {
        'd'
    } else if d == 14 {
        'e'
    } else {
        'f'
    }
}

/// The last `width` hexadecimal digits of `n`, most significant first.
pub open spec fn hex(n: nat, width: nat) -> Seq<char>
    decreases width,
{
    if width == 0 {
        Seq::empty()
    } else {
        hex(n / 16, (width - 1) as nat).push(hex_digit(n % 16))
    }
}

/// An identifier as 32 hexadecimal digits.
pub open spec fn simple_text(id: u128) -> Seq<char> {
    hex(id as nat, 32)
}

/// An identifier in the usual grouped form: 8, 4, 4, 4 and 12 hexadecimal
/// digits, with hyphens between the groups.
pub open spec fn hyphenated_text(id: u128) -> Seq<char> {
    let s = simple_text(id);
    s.subrange(0, 8) + seq!['-'] + s.subrange(8, 12) + seq!['-'] + s.subrange(12, 16) + seq!['-']
        + s.subrange(16, 20) + seq!['-'] + s.subrange(20, 32)
}

/// `uuid::Uuid::new_v4`: a random identifier, as its 128-bit value. Nothing
/// is claimed of the value drawn.
#[verifier::external_body]
pub(crate) fn fresh_id() -> (id: u128) {
    uuid::Uuid::new_v4().as_u128()
}

/// `uuid::fmt::Simple`, printed: the 32 lower-case hexadecimal digits of the
/// identifier's big-endian value.
#[verifier::external_body]
fn print_simple(id: u128) -> (s: String)
    ensures
        s@ == simple_text(id),
{
    uuid::Uuid::from_u128(id).simple().to_string()
}

/// `uuid::Uuid`, printed: the same digits in groups of 8, 4, 4, 4 and 12,
/// hyphens between them.
#[verifier::external_body]
fn print_hyphenated(id: u128) -> (s: String)
    ensures
        s@ == hyphenated_text(id),
{
    uuid::Uuid::from_u128(id).to_string()
}

/// The identifier as 32 hexadecimal digits.
pub fn to_simple(id: u128) -> (s: String)
    ensures
        s@ == simple_text(id),
{
    print_simple(id)
}

/// The identifier in its grouped, hyphenated form.
pub fn to_hyphenated(id: u128) -> (s: String)
    ensures
        s@ == hyphenated_text(id),
{
    print_hyphenated(id)
}

/// Sixteen to the power of `width`.
pub open spec fn pow16(width: nat) -> nat
    decreases width,
{
    if width == 0 {
        1
    } else {
        16 * pow16((width - 1) as nat)
    }
}

/// Numbers that fit into `width` hexadecimal digits and print alike are
/// the same number.
pub proof fn lemma_hex_injective(a: nat, b: nat, width: nat)
    requires
        a < pow16(width),
        b < pow16(width),
        hex(a, width) == hex(b, width),
    ensures
        a == b,
    decreases width,
{
    if width > 0 {
        let x = hex(a / 16, (width - 1) as nat);
        let y = hex(b / 16, (width - 1) as nat);
        assert(hex(a, width).last() == hex_digit(a % 16));
        assert(hex(b, width).last() == hex_digit(b % 16));
        assert(hex(a, width).drop_last() =~= x);
        assert(hex(b, width).drop_last() =~= y);
        lemma_hex_injective(a / 16, b / 16, (width - 1) as nat);
    }
}

/// Identifiers that print alike are the same identifier, in either form.
pub proof fn lemma_identifier_text_injective(a: u128, b: u128)
    ensures
        simple_text(a) == simple_text(b) ==> a == b,
        hyphenated_text(a) == hyphenated_text(b) ==> a == b,
{
    assert(pow16(32) == 0x1_0000_0000_0000_0000_0000_0000_0000_0000) by {
        reveal_with_fuel(pow16, 33);
    }
    if simple_text(a) == simple_text(b) {
        lemma_hex_injective(a as nat, b as nat, 32);
    }
    if hyphenated_text(a) == hyphenated_text(b) {
        lemma_hex_len(a as nat, 32);
        lemma_hex_len(b as nat, 32);
        let s = simple_text(a);
        let t = simple_text(b);
        let ha = hyphenated_text(a);
        let hb = hyphenated_text(b);
        assert forall|i: int| 0 <= i < 32 implies s[i] == t[i] by {
            let j = if i < 8 {
                i
            } else if i < 12 {
                i + 1
            } else if i < 16 {
                i + 2
            } else if i < 20 {
                i + 3
            } else {
                i + 4
            };
            assert(ha[j] == s[i]);
            assert(hb[j] == t[i]);
        }
        assert(s =~= t);
        lemma_hex_injective(a as nat, b as nat, 32);
    }
}

/// The hexadecimal form has as many digits as were asked for.
pub proof fn lemma_hex_len(n: nat, width: nat)
    ensures
        hex(n, width).len() == width,
    decreases width,
{
    if width > 0 {
        lemma_hex_len(n / 16, (width - 1) as nat);
    }
}

} // verus!
