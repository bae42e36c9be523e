//! Identifiers: random request identifiers and the per-result identifiers
//! derived from them.

use vstd::prelude::*;
use crate::text::{decimal, push_decimal};

verus! {

/// Whether `c` is a lower-case hexadecimal digit.
pub open spec fn is_lower_hex(c: char) -> bool {
    ('0' <= c && c <= '9') || ('a' <= c && c <= 'f')
}

/// The textual shape of a random (version 4) UUID in hyphenated lower-case
/// form, such as `67e55044-10b1-426f-9247-bb680e5fe0c8`: 36 characters,
/// hyphens at positions 8, 13, 18 and 23, lower-case hex digits elsewhere,
/// the version digit `4` at position 14 and a variant digit in `8..=b` at
/// position 19.
pub open spec fn is_uuid_v4_text(s: Seq<char>) -> bool {
    &&& s.len() == 36
    &&& forall|i: int|
        0 <= i < 36 ==> if i == 8 || i == 13 || i == 18 || i == 23 {
            #[trigger] s[i] == '-'
        } else {
            is_lower_hex(s[i])
        }
    &&& s[14] == '4'
    &&& (s[19] == '8' || s[19] == '9' || s[19] == 'a' || s[19] == 'b')
}

/// Calls `uuid::Uuid::new_v4` and renders the result with its `Display`
/// impl. The value is random: the contract states only the shape that every
/// such rendering has (the hyphenated lower-case form that `Display` writes,
/// with the version and variant bits that `new_v4` sets).
#[verifier::external_body]
pub(crate) fn uuid_v4_text() -> (s: String)
    ensures
        is_uuid_v4_text(s@),
{
    uuid::Uuid::new_v4().to_string()
}

/// The identifier of the result at `index` of a request: the request
/// identifier, the source tag and the index in decimal, as in
/// `<request>-url-0` or `<request>-file-3`.
pub open spec fn result_id(request_id: Seq<char>, source: Seq<char>, index: nat) -> Seq<char> {
    request_id + source + decimal(index)
}

/// The source tag of results that come from URLs.
pub open spec fn url_source() -> Seq<char> {
    "-url-"@
}

/// The source tag of results that come from uploaded files.
pub open spec fn file_source() -> Seq<char> {
    "-file-"@
}

/// Builds `request_id + source + decimal(index)`.
pub fn make_result_id(request_id: &str, source: &str, index: usize) -> (id: String)
    ensures
        id@ == result_id(request_id@, source@, index as nat),
{
    let mut id = String::from_str(request_id);
    id.append(source);
    push_decimal(&mut id, index as u128);
    proof {
        assert(id@ =~= result_id(request_id@, source@, index as nat));
    }
    id
}

/// Within one request and one source, distinct indices give distinct
/// result identifiers.
pub proof fn lemma_result_ids_distinct(request_id: Seq<char>, source: Seq<char>, i: nat, j: nat)
    requires
        i != j,
    ensures
        result_id(request_id, source, i) != result_id(request_id, source, j),
{
    let p = request_id + source;
    if result_id(request_id, source, i) == result_id(request_id, source, j) {
        assert(result_id(request_id, source, i).subrange(p.len() as int, result_id(request_id, source, i).len() as int) =~= decimal(i));
        assert(result_id(request_id, source, j).subrange(p.len() as int, result_id(request_id, source, j).len() as int) =~= decimal(j));
        crate::text::lemma_decimal_injective(i, j);
    }
}

} // verus!
