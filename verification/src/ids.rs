use vstd::prelude::*;
use vstd::arithmetic::power2::pow2;

verus! {

/// The lower-case hexadecimal digit of `d`.
pub open spec fn hex_lower(d: int) -> char {
    if d < 10 {
        (d + 48) as char
    } else {
        (d + 87) as char
    }
}

/// The `k`-th hexadecimal digit of `id`, counted from the most significant.
pub open spec fn uuid_digit(id: u128, k: int) -> char {
    hex_lower((id as int / pow2((4 * (31 - k)) as nat) as int) % 16)
}

/// The digits `from..to` of `id`.
pub open spec fn uuid_digits(id: u128, from: int, to: int) -> Seq<char> {
    Seq::new((to - from) as nat, |i: int| uuid_digit(id, from + i))
}

/// The hyphenated lower-case text of a UUID: its 32 hexadecimal digits,
/// most significant first, in groups of 8, 4, 4, 4 and 12.
pub open spec fn uuid_text(id: u128) -> Seq<char> {
    uuid_digits(id, 0, 8) + seq!['-'] + uuid_digits(id, 8, 12) + seq!['-'] + uuid_digits(id, 12, 16)
        + seq!['-'] + uuid_digits(id, 16, 20) + seq!['-'] + uuid_digits(id, 20, 32)
}

/// Writes a UUID given by its 128-bit value (wraps
/// `uuid::Uuid::from_u128(id).to_string()`). The contract states the
/// crate's `Display`: the hyphenated lower-case form of the big-endian bytes.
#[verifier::external_body]
pub(crate) fn uuid_string(id: u128) -> (r: String)
    ensures
        r@ == uuid_text(id),
{
    uuid::Uuid::from_u128(id).to_string()
}

/// The 128-bit value of the UUID that `uuid::Uuid::parse_str` reads from
/// `text`, or `None` where it reads none.
pub uninterp spec fn parsed_uuid(text: Seq<char>) -> Option<u128>;

/// Reads a UUID (wraps `text.parse::<uuid::Uuid>()`, which is
/// `uuid::Uuid::parse_str`). The contract names the result, and claims that
/// the hyphenated text the crate writes for a UUID reads back as that UUID;
/// the other accepted forms (simple, braced, URN, upper-case digits) are not
/// written out here.
#[verifier::external_body]
pub(crate) fn parse_uuid(text: &str) -> (r: Option<u128>)
    ensures
        r == parsed_uuid(text@),
        forall|id: u128| text@ == #[trigger] uuid_text(id) ==> r == Some(id),
{
    text.parse::<uuid::Uuid>().ok().map(|u| u.as_u128())
}

} // verus!
