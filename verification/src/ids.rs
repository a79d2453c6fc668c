//! Random identifiers.

use vstd::prelude::*;

verus! {

/// Whether a character is a lowercase hexadecimal digit.
pub open spec fn lower_hex(c: char) -> bool {
    ('0' <= c && c <= '9') || ('a' <= c && c <= 'f')
}

/// Whether a text is a version 4 UUID in its hyphenated lowercase form:
/// 36 characters, `-` at positions 8, 13, 18 and 23, lowercase hex digits
/// elsewhere, the version digit `4` at position 14 and the variant digit
/// (`8`, `9`, `a` or `b`) at position 19.
pub open spec fn uuid_v4_text(s: Seq<char>) -> bool {
    &&& s.len() == 36
    &&& forall|i: int|
        0 <= i < 36 ==> if i == 8 || i == 13 || i == 18 || i == 23 {
            #[trigger] s[i] == '-'
        } else {
            lower_hex(s[i])
        }
    &&& s[14] == '4'
    &&& (s[19] == '8' || s[19] == '9' || s[19] == 'a' || s[19] == 'b')
}

/// A fresh random UUID (version 4) in its hyphenated text form
/// (`uuid::Uuid::new_v4().to_string()`): random bits with the version and
/// variant bits set, written as lowercase hex in groups of 8, 4, 4, 4
/// and 12. Which UUID comes out is random.
#[verifier::external_body]
pub(crate) fn new_uuid_string() -> (r: String)
    ensures
        uuid_v4_text(r@),
{
    uuid::Uuid::new_v4().to_string()
}

} // verus!
