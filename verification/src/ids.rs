//! Ids of operations.

use vstd::prelude::*;

verus! {

/// Whether `c` is a hexadecimal digit in lower case.
pub open spec fn is_lower_hex(c: char) -> bool {
    '0' <= c <= '9' || 'a' <= c <= 'f'
}

/// Whether `s` is the text of a random UUID: 36 characters, hyphens in the four
/// places, the version 4, one of the four variant digits, and hexadecimal
/// digits in lower case elsewhere.
pub open spec fn is_uuid_v4_text(s: Seq<char>) -> bool {
    &&& s.len() == 36
    &&& forall|i: int|
        0 <= i < 36 ==> if i == 8 || i == 13 || i == 18 || i == 23 {
            #[trigger] s[i] == '-'
        } else {
            is_lower_hex(s[i])
        }
    &&& s[14] == '4'
    &&& s[19] == '8' || s[19] == '9' || s[19] == 'a' || s[19] == 'b'
}

/// `text` is the text of an id that was drawn at random.
pub uninterp spec fn uuid_drawn(text: Seq<char>) -> bool;

/// `uuid::Uuid::new_v4`, as text. The contract claims that the id was drawn, and
/// the form that every such id has; which id it is rests on chance. The call
/// panics if the system has no random numbers to give.
#[verifier::external_body]
fn random_uuid() -> (res: String)
    ensures
        uuid_drawn(res@),
        is_uuid_v4_text(res@),
{
    uuid::Uuid::new_v4().to_string()
}

/// Generate a new random UUID v4 operation ID.
pub fn new_operation_id() -> (res: String)
    ensures
        uuid_drawn(res@),
        is_uuid_v4_text(res@),
{
    random_uuid()
}

} // verus!
