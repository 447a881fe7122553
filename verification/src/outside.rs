//! The calls this library makes into other crates. Each function here is
//! believed by the verifier on the strength of its contract alone.

use crate::models::UtcDateTime;
use crate::proto::OrderRequestItem;
use itertools::Itertools;
use sqlx::types::chrono::Utc;
use vstd::prelude::*;

verus! {

/// Whether `c` is a digit of lower-case hexadecimal notation.
pub open spec fn is_lower_hex(c: char) -> bool {
    ('0' <= c && c <= '9') || ('a' <= c && c <= 'f')
}

/// Whether `text` has the shape of a random (version 4) UUID in its
/// hyphenated lower-case form: 36 characters in groups of 8, 4, 4, 4 and 12
/// hexadecimal digits with a hyphen between the groups, the third group
/// starting with the version, `4`, and the fourth with a digit of the
/// variant, `8`, `9`, `a` or `b`.
pub open spec fn is_random_uuid_text(text: Seq<char>) -> bool {
    &&& text.len() == 36
    &&& forall|i: int|
        0 <= i < 36 ==> if i == 8 || i == 13 || i == 18 || i == 23 {
            #[trigger] text[i] == '-'
        } else {
            is_lower_hex(text[i])
        }
    &&& text[14] == '4'
    &&& (text[19] == '8' || text[19] == '9' || text[19] == 'a' || text[19] == 'b')
}

/// The texts of `parts` one after another, with `sep` between each two.
pub open spec fn joined(parts: Seq<Seq<char>>, sep: Seq<char>) -> Seq<char>
    decreases parts.len(),
{
    if parts.len() == 0 {
        Seq::empty()
    } else if parts.len() == 1 {
        parts[0]
    } else {
        joined(parts.drop_last(), sep) + sep + parts.last()
    }
}

/// The SKU codes of the lines of a request, in the order of the lines.
pub open spec fn sku_codes_of(items: Seq<OrderRequestItem>) -> Seq<Seq<char>> {
    Seq::new(items.len(), |i: int| items[i].sku_code@)
}

/// Calls `itertools::Itertools::sorted` on the identifiers and collects what
/// it yields. That method sorts with the standard stable sort, so the result
/// holds the same identifiers, each as often as before, in ascending order.
#[verifier::external_body]
pub(crate) fn sorted_ascending(ids: Vec<i64>) -> (sorted: Vec<i64>)
    ensures
        sorted@.to_multiset() == ids@.to_multiset(),
        forall|i: int, j: int| 0 <= i <= j < sorted.len() ==> sorted[i] <= sorted[j],
{
    ids.into_iter().sorted().collect()
}

/// Calls `itertools::Itertools::join` on the SKU codes of the lines. That
/// method writes the first element, then for each further element the
/// separator and the element; of no elements it makes the empty text.
#[verifier::external_body]
pub(crate) fn join_sku_codes(items: &Vec<OrderRequestItem>, sep: &str) -> (text: String)
    ensures
        text@ == joined(sku_codes_of(items@), sep@),
{
    items.iter().map(|item| &item.sku_code).join(sep)
}

/// Calls `uuid::Uuid::new_v4` and writes the identifier out with
/// `to_string`. The identifier is drawn at random, so nothing is claimed of
/// which one comes back, only of its written form: the hyphenated lower-case
/// form of a version 4 identifier. (Where the operating system has no random
/// bytes to give, the call panics.)
#[verifier::external_body]
pub(crate) fn random_uuid_text() -> (text: String)
    ensures
        is_random_uuid_text(text@),
{
    uuid::Uuid::new_v4().to_string()
}

/// Calls `chrono::Utc::now`, by the name under which sqlx hands chrono on,
/// and reads the instant with `timestamp` and `timestamp_subsec_nanos`. The
/// instant is the reading of the system clock, so nothing is claimed of
/// which one comes back, only that its nanoseconds stay within the second:
/// the clock does not report leap seconds. (On a machine whose clock stands
/// before the Unix epoch the call panics.)
#[verifier::external_body]
pub(crate) fn utc_now() -> (now: UtcDateTime)
    ensures
        now.nanos < 1_000_000_000,
{
    let now = Utc::now();
    UtcDateTime { seconds: now.timestamp(), nanos: now.timestamp_subsec_nanos() }
}

} // verus!
