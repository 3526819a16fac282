//! Identifiers that are made up.

use vstd::prelude::*;

verus! {

/// Whether a text is a UUID in its hyphenated form: hexadecimal digits, small letters among
/// them, in groups of 8, 4, 4, 4 and 12.
pub open spec fn is_hyphenated_uuid(text: Seq<char>) -> bool {
    &&& text.len() == 36
    &&& forall|i: int|
        0 <= i < 36 ==> if i == 8 || i == 13 || i == 18 || i == 23 {
            #[trigger] text[i] == '-'
        } else {
            '0' <= text[i] <= '9' || 'a' <= text[i] <= 'f'
        }
}

/// Calls `uuid::Uuid::new_v4` and writes the UUID in its hyphenated form. Nothing more is
/// promised of the text: it is random.
#[verifier::external_body]
pub(crate) fn new_uuid() -> (id: String)
    ensures
        is_hyphenated_uuid(id@),
{
    uuid::Uuid::new_v4().to_string()
}

} // verus!
