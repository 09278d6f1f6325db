//! Generated identifiers and timestamps.

use vstd::prelude::*;

use crate::session_store;
use crate::text;

verus! {

/// A lower-case hexadecimal digit.
pub open spec fn is_hex_digit(c: char) -> bool {
    '0' <= c <= '9' || 'a' <= c <= 'f'
}

/// The text form of a random UUID: five groups of hexadecimal digits, with the version and
/// the variant at their places.
pub open spec fn is_uuid(id: Seq<char>) -> bool {
    &&& id.len() == 36
    &&& forall|i: int|
        0 <= i < 36 ==> if i == 8 || i == 13 || i == 18 || i == 23 {
            #[trigger] id[i] == '-'
        } else {
            is_hex_digit(id[i])
        }
    &&& id[14] == '4'
    &&& id[19] == '8' || id[19] == '9' || id[19] == 'a' || id[19] == 'b'
}

/// Generates an identifier.
///
/// Calls `uuid::Uuid::new_v4` and formats what it returns with `to_string`. Which
/// identifier comes out is chance; the contract claims its form.
#[verifier::external_body]
pub(crate) fn new_id() -> (r: String)
    ensures
        is_uuid(r@),
{
    uuid::Uuid::new_v4().to_string()
}

/// A point in time, in seconds and milliseconds since the epoch.
pub open spec fn timestamp(secs: nat, millis: nat) -> Seq<char> {
    text::decimal(secs) + "."@ + text::decimal3(millis) + "Z"@
}

/// Formats a point in time as seconds and milliseconds since the epoch.
pub fn now_epoch_millis(secs: u64, millis: u32) -> (r: String)
    requires
        millis < 1000,
    ensures
        r@ == timestamp(secs as nat, millis as nat),
{
    let mut r = text::format_u64(secs);
    r.push_str(".");
    r.push_str(&text::format_three_digits(millis));
    r.push_str("Z");
    r
}

proof fn lemma_ascii_byte_len(s: Seq<char>)
    requires
        forall|i: int| 0 <= i < s.len() ==> (#[trigger] s[i] as u32) < 0x80,
    ensures
        text::byte_len(s) == s.len(),
    decreases s.len(),
{
    text::lemma_byte_len(s);
    if s.len() > 0 {
        let rest = s.skip(1);
        assert forall|i: int| 0 <= i < rest.len() implies (#[trigger] rest[i] as u32) < 0x80 by {
            assert(rest[i] == s[i + 1]);
        }
        lemma_ascii_byte_len(rest);
    }
}

/// A generated identifier is accepted as a session identifier.
pub proof fn law_generated_id_names_a_session(id: Seq<char>)
    requires
        is_uuid(id),
    ensures
        session_store::id_fault(id) is None,
{
    reveal_strlit("..");
    assert forall|i: int| 0 <= i < id.len() implies (#[trigger] id[i] as u32) < 0x80 && id[i] != '/'
        && id[i] != '\\' && id[i] != '.' && !session_store::is_control(id[i]) by {
        if !(i == 8 || i == 13 || i == 18 || i == 23) {
            assert(is_hex_digit(id[i]));
        }
    }
    lemma_ascii_byte_len(id);
    if text::contains_text(id, ".."@) {
        let i = choose|i: int| text::occurs_at(id, ".."@, i);
        assert(id.subrange(i, i + 2)[0] == id[i]);
        assert(".."@[0] == '.');
    }
}

} // verus!
