//! Peer and transfer identities: random version 4 UUIDs, their canonical
//! text and its parsing, all through the `uuid` crate.
use vstd::prelude::*;
use vstd::arithmetic::power::pow;

verus! {

/// The `i`-th hexadecimal digit (0 = most significant) of a 128-bit value.
pub open spec fn nibble(v: u128, i: int) -> int {
    (v as int / pow(16, (31 - i) as nat)) % 16
}

/// Lower-case hexadecimal digit for a value below 16.
pub open spec fn hex_digit(d: int) -> char {
    if d < 10 {
        (d + 48) as char
    } else {
        (d + 87) as char
    }
}

/// Whether position `k` of the hyphenated text is a hyphen.
pub open spec fn is_hyphen_slot(k: int) -> bool {
    k == 8 || k == 13 || k == 18 || k == 23
}

/// How many hyphens precede position `k` of the hyphenated text.
pub open spec fn hyphens_before(k: int) -> int {
    if k <= 8 {
        0
    } else if k <= 13 {
        1
    } else if k <= 18 {
        2
    } else if k <= 23 {
        3
    } else {
        4
    }
}

/// The canonical text of a UUID: 32 lower-case hexadecimal digits, most
/// significant first, in groups of 8-4-4-4-12 joined by hyphens.
pub open spec fn uuid_text(v: u128) -> Seq<char> {
    Seq::new(
        36,
        |k: int|
            if is_hyphen_slot(k) {
                '-'
            } else {
                hex_digit(nibble(v, k - hyphens_before(k)))
            },
    )
}

/// A version 4 (random) UUID of the RFC 4122 variant: the version digit is 4
/// and the two top bits of the ninth byte are `10`.
pub open spec fn is_v4(v: u128) -> bool {
    &&& nibble(v, 12) == 4
    &&& (v as int / pow(2, 62)) % 4 == 2
}

/// What `uuid::Uuid::parse_str` makes of a text: the value of the UUID it
/// denotes, or `None` where it reports an error.
pub uninterp spec fn uuid_parsed(text: Seq<char>) -> Option<u128>;

/// Calls `uuid::Uuid::new_v4`. Trusted: the source sets the version digit to
/// 4 and the variant bits to `10` over random bits; nothing more is claimed,
/// as the rest is random.
#[verifier::external_body]
pub(crate) fn random_v4() -> (v: u128)
    ensures
        is_v4(v),
{
    uuid::Uuid::new_v4().as_u128()
}

/// Calls `Uuid::to_string` (its `Display`). Trusted: the source formats the
/// sixteen bytes as lower-case hexadecimal in the hyphenated 8-4-4-4-12 form.
#[verifier::external_body]
pub(crate) fn uuid_string(v: u128) -> (s: String)
    ensures
        s@ == uuid_text(v),
{
    uuid::Uuid::from_u128(v).to_string()
}

/// Calls `uuid::Uuid::parse_str`. Trusted: its result is named by
/// `uuid_parsed`; beside that it is claimed, as the parser's hyphenated branch
/// shows, that the canonical text of a UUID parses back to that UUID. The
/// other accepted forms (simple, braced, URN, upper case) are left unsaid.
#[verifier::external_body]
pub(crate) fn parse_uuid(text: &str) -> (r: Option<u128>)
    ensures
        r == uuid_parsed(text@),
        forall|v: u128| #[trigger] uuid_text(v) == text@ ==> r == Some(v),
{
    match uuid::Uuid::parse_str(text) {
        Ok(u) => Some(u.as_u128()),
        Err(_) => None,
    }
}

/// The first eight characters of a UUID's canonical text.
pub open spec fn short_text(v: u128) -> Seq<char> {
    uuid_text(v).subrange(0, 8)
}

/// The canonical text of a UUID.
pub fn id_text(v: u128) -> (s: String)
    ensures
        s@ == uuid_text(v),
{
    uuid_string(v)
}

/// The short form of an identity that FLOW shows and advertises: the first
/// eight characters of its canonical text.
pub fn short_id(v: u128) -> (s: String)
    ensures
        s@ == short_text(v),
{
    let full = uuid_string(v);
    assert(full@.len() == 36);
    let head = full.as_str().substring_char(0, 8);
    String::from_str(head)
}

} // verus!
