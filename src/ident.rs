use vstd::prelude::*;

verus! {

/// Number of characters in a hyphenated UUID.
pub const ID_LEN: usize = 36;

/// A lowercase hexadecimal digit.
pub open spec fn is_lower_hex(c: char) -> bool {
    ('0' <= c && c <= '9') || ('a' <= c && c <= 'f')
}

/// A version-4 UUID in the hyphenated form: 32 lowercase hexadecimal digits
/// in groups of 8, 4, 4, 4 and 12, the version digit `4` opening the third.
pub open spec fn hyphenated_v4(s: Seq<char>) -> bool {
    &&& s.len() == ID_LEN
    &&& forall|i: int|
        0 <= i < ID_LEN ==> if i == 8 || i == 13 || i == 18 || i == 23 {
            #[trigger] s[i] == '-'
        } else if i == 14 {
            s[i] == '4'
        } else {
            is_lower_hex(s[i])
        }
}

/// Relies on `uuid::Uuid::new_v4` and its `Display`: a random version-4 UUID,
/// written in the lowercase hyphenated form.
#[verifier::external_body]
pub(crate) fn fresh_id() -> (r: String)
    ensures
        hyphenated_v4(r@),
{
    uuid::Uuid::new_v4().to_string()
}

} // verus!
