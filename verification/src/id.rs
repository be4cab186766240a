//! Random identifiers in the forms that the draft files use.
use vstd::prelude::*;

use crate::text::{chars_of, string_of};

verus! {

/// A lower-case hexadecimal digit.
pub open spec fn is_lower_hex(c: char) -> bool {
    ('0' <= c <= '9') || ('a' <= c <= 'f')
}

/// An upper-case hexadecimal digit.
pub open spec fn is_upper_hex(c: char) -> bool {
    ('0' <= c <= '9') || ('A' <= c <= 'F')
}

/// Where the hyphenated form of a UUID has its dashes.
pub open spec fn is_dash_position(i: int) -> bool {
    i == 8 || i == 13 || i == 18 || i == 23
}

/// Whether `c` is the variant digit of an RFC 4122 UUID: 8, 9, a or b
/// (either case).
pub open spec fn is_variant_digit(c: char) -> bool {
    c == '8' || c == '9' || c == 'a' || c == 'b' || c == 'A' || c == 'B'
}

/// `Uuid::new_v4` written with `Uuid::simple` and `Display`: a fresh random
/// version-4 UUID as 32 lower-case hexadecimal digits without dashes. The
/// version digit (position 12) is `4` and the variant digit (position 16)
/// is one of 8, 9, a, b, as `new_v4` masks them in; which the other digits
/// are is not stated.
#[verifier::external_body]
fn new_v4_simple_text() -> (r: String)
    ensures
        r@.len() == 32,
        forall|i: int| 0 <= i < 32 ==> is_lower_hex(#[trigger] r@[i]),
        r@[12] == '4',
        is_variant_digit(r@[16]),
{
    uuid::Uuid::new_v4().simple().to_string()
}

/// `Uuid::new_v4` written with `Display`: a fresh random version-4 UUID in
/// the hyphenated form, 8-4-4-4-12 lower-case hexadecimal digits separated
/// by dashes. The version digit (position 14) is `4` and the variant digit
/// (position 19) is one of 8, 9, a, b; which the other digits are is not
/// stated.
#[verifier::external_body]
fn new_v4_hyphenated_text() -> (r: String)
    ensures
        r@.len() == 36,
        forall|i: int|
            0 <= i < 36 ==> if is_dash_position(i) {
                #[trigger] r@[i] == '-'
            } else {
                is_lower_hex(r@[i])
            },
        r@[14] == '4',
        is_variant_digit(r@[19]),
{
    uuid::Uuid::new_v4().to_string()
}

/// A fresh random identifier: a version-4 UUID as 32 lower-case
/// hexadecimal digits, with the version digit `4` at position 12 and a
/// variant digit 8, 9, a or b at position 16.
pub fn hex_id() -> (r: String)
    ensures
        r@.len() == 32,
        forall|i: int| 0 <= i < 32 ==> is_lower_hex(#[trigger] r@[i]),
        r@[12] == '4',
        is_variant_digit(r@[16]),
{
    new_v4_simple_text()
}

/// `c` in upper case when it is an ASCII letter.
pub open spec fn ascii_upper(c: char) -> char {
    if 'a' <= c <= 'z' {
        ((c as u32) - 32) as char
    } else {
        c
    }
}

fn upper_char(c: char) -> (r: char)
    ensures
        r == ascii_upper(c),
{
    if 'a' <= c && c <= 'z' {
        let b: u8 = (c as u8) - 32;
        b as char
    } else {
        c
    }
}

/// A fresh random GUID in upper case: a version-4 UUID as 8-4-4-4-12
/// hexadecimal digits, with the version digit `4` at position 14 and a
/// variant digit 8, 9, A or B at position 19.
pub fn upper_guid() -> (r: String)
    ensures
        r@.len() == 36,
        forall|i: int|
            0 <= i < 36 ==> if is_dash_position(i) {
                #[trigger] r@[i] == '-'
            } else {
                is_upper_hex(r@[i])
            },
        r@[14] == '4',
        r@[19] == '8' || r@[19] == '9' || r@[19] == 'A' || r@[19] == 'B',
{
    let lower = new_v4_hyphenated_text();
    let v = chars_of(lower.as_str());
    let mut up: Vec<char> = Vec::new();
    let mut i: usize = 0;
    while i < v.len()
        invariant
            0 <= i <= v.len(),
            v@ == lower@,
            up@.len() == i,
            forall|j: int| 0 <= j < i ==> #[trigger] up@[j] == ascii_upper(v@[j]),
        decreases v.len() - i,
    {
        up.push(upper_char(v[i]));
        i = i + 1;
    }
    let r = string_of(&up);
    assert forall|i: int| 0 <= i < 36 implies if is_dash_position(i) {
        #[trigger] r@[i] == '-'
    } else {
        is_upper_hex(r@[i])
    } by {
        assert(r@[i] == ascii_upper(lower@[i]));
    }
    assert(r@[14] == ascii_upper(lower@[14]));
    assert(r@[19] == ascii_upper(lower@[19]));
    r
}

} // verus!
