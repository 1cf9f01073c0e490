use vstd::prelude::*;
use vstd::arithmetic::power2::pow2;
use crate::error::RepoError;

verus! {

/// The sixteen lower-case hexadecimal digits, by value.
pub open spec fn hex_digits() -> Seq<char> {
    seq!['0', '1', '2', '3', '4', '5', '6', '7', '8', '9', 'a', 'b', 'c', 'd', 'e', 'f']
}

/// Positions of the four hyphens in the canonical text of an identifier.
pub open spec fn is_hyphen_pos(i: int) -> bool {
    i == 8 || i == 13 || i == 18 || i == 23
}

/// Which of the 32 hex digits stands at text position `i` (not a hyphen).
pub open spec fn digit_index(i: int) -> int {
    i - (if i > 8 { 1int } else { 0 }) - (if i > 13 { 1int } else { 0 })
        - (if i > 18 { 1int } else { 0 }) - (if i > 23 { 1int } else { 0 })
}

/// The `j`-th four-bit digit of `v`, counting from the most significant.
pub open spec fn nibble(v: u128, j: int) -> int {
    (v as int / pow2((4 * (31 - j)) as nat) as int) % 16
}

/// Canonical text of an identifier: 32 lower-case hex digits, most significant
/// first, in groups of 8-4-4-4-12 separated by hyphens.
pub open spec fn uuid_text(v: u128) -> Seq<char> {
    Seq::new(
        36,
        |i: int|
            if is_hyphen_pos(i) {
                '-'
            } else {
                hex_digits()[nibble(v, digit_index(i))]
            },
    )
}

/// What uuid's parser makes of a text: the identifier, or `None` when the text is
/// in none of the forms it accepts.
pub uninterp spec fn uuid_parse(s: Seq<char>) -> Option<u128>;

/// Relies on uuid::Uuid::parse_str and Uuid::as_u128: the parse depends on the
/// text alone, the hyphenated form that the crate writes parses back to its value,
/// and a text of any length but 32, 36 or 45 is refused.
#[verifier::external_body]
pub(crate) fn parse_id(s: &str) -> (r: Option<u128>)
    ensures
        r == uuid_parse(s@),
        forall|v: u128| s@ == #[trigger] uuid_text(v) ==> r == Some(v),
        s@.len() != 32 && s@.len() != 36 && s@.len() != 45 ==> r is None,
{
    match uuid::Uuid::parse_str(s) {
        Ok(u) => Some(u.as_u128()),
        Err(_) => None,
    }
}

/// Relies on uuid::Uuid::from_u128 and the hyphenated lower-case writer behind
/// Uuid::to_hyphenated: the canonical text of the value.
#[verifier::external_body]
pub(crate) fn format_id(v: u128) -> (r: String)
    ensures
        r@ == uuid_text(v),
{
    uuid::Uuid::from_u128(v).to_hyphenated().to_string()
}

/// The identifier whose canonical text is `s`, if `s` is the canonical text of one.
pub open spec fn canonical_id(s: Seq<char>) -> Option<u128> {
    if exists|v: u128| s == #[trigger] uuid_text(v) {
        Some(choose|v: u128| s == #[trigger] uuid_text(v))
    } else {
        None
    }
}

/// Parses the canonical text of a post identifier (lower-case, hyphenated). Any
/// other text, the other forms that uuid reads included, fails with
/// `InvalidArgument`.
pub fn parse_post_id(s: &str) -> (r: Result<u128, RepoError>)
    ensures
        r == match canonical_id(s@) {
            Some(v) => Ok::<u128, RepoError>(v),
            None => Err::<u128, RepoError>(RepoError::InvalidArgument),
        },
        forall|v: u128| s@ == #[trigger] uuid_text(v) ==> r == Ok::<u128, RepoError>(v),
{
    let v = match parse_id(s) {
        Some(v) => v,
        None => return Err(RepoError::InvalidArgument),
    };
    let text = format_id(v);
    let given = s.to_owned();
    if text == given {
        proof {
            let w = choose|w: u128| s@ == #[trigger] uuid_text(w);
            assert(s@ == uuid_text(w));
        }
        Ok(v)
    } else {
        assert(forall|w: u128| s@ != #[trigger] uuid_text(w));
        Err(RepoError::InvalidArgument)
    }
}

} // verus!
