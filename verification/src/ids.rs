//! Identifiers of files, shards and devices: random, 128 bits, written as text.

use vstd::prelude::*;
use vstd::utf8::{encode_utf8, is_ascii_chars, is_ascii_chars_encode_utf8};

verus! {

/// A lower-case hexadecimal digit.
pub open spec fn is_lower_hex(c: char) -> bool {
    ('0' <= c <= '9') || ('a' <= c <= 'f')
}

/// The hyphenated form of a UUID: 36 characters, hyphens after the 8th, 12th, 16th and
/// 20th hexadecimal digit.
pub open spec fn is_hyphenated_uuid(id: Seq<char>) -> bool {
    &&& id.len() == 36
    &&& forall|i: int|
        0 <= i < 36 ==> if i == 8 || i == 13 || i == 18 || i == 23 {
            #[trigger] id[i] == '-'
        } else {
            is_lower_hex(id[i])
        }
}

/// Calls `Uuid::new_v4` of the crate uuid and writes the result with `to_string`.
///
/// The contract claims the shape of the text, and nothing of which identifier it is.
#[verifier::external_body]
fn uuid_v4_text() -> (id: String)
    ensures
        is_hyphenated_uuid(id@),
{
    uuid::Uuid::new_v4().to_string()
}

/// Mints a fresh identifier.
pub fn fresh_id() -> (id: String)
    ensures
        is_hyphenated_uuid(id@),
{
    uuid_v4_text()
}

/// On the wire an identifier takes 36 bytes, one for each of its characters.
pub proof fn lemma_uuid_bytes(id: Seq<char>)
    requires
        is_hyphenated_uuid(id),
    ensures
        encode_utf8(id).len() == 36,
        forall|i: int| 0 <= i < 36 ==> #[trigger] encode_utf8(id)[i] == id[i] as u8,
        forall|i: int|
            0 <= i < 36 ==> {
                let byte = #[trigger] encode_utf8(id)[i];
                byte == 45 || (48 <= byte <= 57) || (97 <= byte <= 102)
            },
{
    assert(is_ascii_chars(id)) by {
        assert forall|i: int| 0 <= i < id.len() implies '\0' <= #[trigger] id[i] <= '\u{7f}' by {
            if i == 8 || i == 13 || i == 18 || i == 23 {
                assert(id[i] == '-');
            } else {
                assert(is_lower_hex(id[i]));
            }
        }
    }
    is_ascii_chars_encode_utf8(id);
    assert forall|i: int| 0 <= i < 36 implies {
        let byte = #[trigger] encode_utf8(id)[i];
        byte == 45 || (48 <= byte <= 57) || (97 <= byte <= 102)
    } by {
        assert(encode_utf8(id)[i] == id[i] as u8);
        if i == 8 || i == 13 || i == 18 || i == 23 {
            assert(id[i] == '-');
        } else {
            assert(is_lower_hex(id[i]));
        }
    }
}

} // verus!
