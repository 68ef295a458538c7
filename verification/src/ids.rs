//! Correlation ids.
//!
//! A correlation id is a 128-bit value supplied by the caller.  On the
//! wire and in the buffer record it appears in the canonical hyphenated
//! lowercase hexadecimal form, eight-four-four-four-twelve digits.  The
//! rendering is fully pinned down here; the uuid crate computes it.

use vstd::prelude::*;
use vstd::arithmetic::power::pow;
use crate::digits::digit_char_spec;
use crate::digits::is_digit;

verus! {

/// The lowercase hexadecimal character for one digit value.
pub open spec fn hex_char_spec(d: int) -> char {
    if d < 10 {
        digit_char_spec(d)
    } else if d == 10 {
        'a'
    } else if d == 11 {
        'b'
    } else if d == 12 {
        'c'
    } else if d == 13 {
        'd'
    } else if d == 14 {
        'e'
    } else {
        'f'
    }
}

pub open spec fn is_hex_lower(c: char) -> bool {
    is_digit(c) || (97 <= c as int <= 102)
}

/// The `i`-th hexadecimal digit value of an id, most significant first.
pub open spec fn uuid_nibble(id: u128, i: int) -> int {
    ((id as int) / pow(16, (31 - i) as nat)) % 16
}

/// The thirty-two hexadecimal digits of an id, most significant first.
pub open spec fn uuid_hex_digits(id: u128) -> Seq<char> {
    Seq::new(32, |i: int| hex_char_spec(uuid_nibble(id, i)))
}

/// The canonical hyphenated lowercase rendering of a correlation id.
pub open spec fn uuid_str_of(id: u128) -> Seq<char> {
    let h = uuid_hex_digits(id);
    h.subrange(0, 8) + seq!['-'] + h.subrange(8, 12) + seq!['-'] + h.subrange(12, 16)
        + seq!['-'] + h.subrange(16, 20) + seq!['-'] + h.subrange(20, 32)
}

/// The canonical rendering is thirty-six characters, each a lowercase
/// hexadecimal digit or a hyphen.
pub proof fn lemma_uuid_str_chars(id: u128)
    ensures
        uuid_str_of(id).len() == 36,
        forall|i: int|
            0 <= i < 36 ==> (#[trigger] uuid_str_of(id)[i] == '-' || is_hex_lower(
                uuid_str_of(id)[i],
            )),
{
    let h = uuid_hex_digits(id);
    assert forall|i: int| 0 <= i < 32 implies h[i] == '-' || is_hex_lower(#[trigger] h[i]) by {
        vstd::arithmetic::power::lemma_pow_positive(16, (31 - i) as nat);
        let d = uuid_nibble(id, i);
        assert(0 <= d < 16);
        assert(is_hex_lower(hex_char_spec(d)));
    }
    let s = uuid_str_of(id);
    assert(s.len() == 36);
    assert forall|i: int| 0 <= i < 36 implies #[trigger] s[i] == '-' || is_hex_lower(s[i]) by {
        if i == 8 || i == 13 || i == 18 || i == 23 {
            assert(s[i] == '-');
        } else if i < 8 {
            assert(s[i] == h[i]);
        } else if i < 13 {
            assert(s[i] == h[i - 1]);
        } else if i < 18 {
            assert(s[i] == h[i - 2]);
        } else if i < 23 {
            assert(s[i] == h[i - 3]);
        } else {
            assert(s[i] == h[i - 4]);
        }
    }
}

/// Relies on the uuid crate: `Uuid::from_u128` builds the UUID whose
/// big-endian byte value is the given integer, and `Display` renders it
/// in hyphenated lowercase hexadecimal form.
#[verifier::external_body]
pub fn format_uuid(id: u128) -> (r: String)
    ensures
        r@ == uuid_str_of(id),
{
    uuid::Uuid::from_u128(id).to_string()
}

/// Relies on the uuid crate: `Uuid::parse_str` accepts the hyphenated
/// rendering and `as_u128` reads the bytes back as a big-endian integer,
/// so every canonically rendered id parses back to itself.
#[verifier::external_body]
pub fn parse_uuid(s: &str) -> (r: Option<u128>)
    ensures
        forall|id: u128| s@ == uuid_str_of(id) ==> r == Some(id),
{
    match uuid::Uuid::parse_str(s) {
        Ok(u) => Some(u.as_u128()),
        Err(_) => None,
    }
}

} // verus!
