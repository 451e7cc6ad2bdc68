//! Random ids.

use vstd::prelude::*;
use vstd::arithmetic::power::pow;
use crate::digits::{hex, lemma_hex_tells_lower_part};

verus! {

/// Whether a 128-bit id has the marks of a random one: version four, and the
/// variant that the version belongs to.
pub open spec fn is_random_id(id: u128) -> bool {
    &&& (id / 0x1000_0000_0000_0000_0000) % 0x10 == 4
    &&& (id / 0x4000_0000_0000_0000) % 4 == 2
}

/// An id in its hyphenated form: thirty-two lower-case hexadecimal digits in groups
/// of eight, four, four, four and twelve.
pub open spec fn hyphenated(id: u128) -> Seq<char> {
    hex((id / 0x1_0000_0000_0000_0000_0000_0000) as nat, 8) + "-"@ + hex(
        (id / 0x1_0000_0000_0000_0000_0000) as nat,
        4,
    ) + "-"@ + hex((id / 0x1_0000_0000_0000_0000) as nat, 4) + "-"@ + hex(
        (id / 0x1_0000_0000_0000) as nat,
        4,
    ) + "-"@ + hex(id as nat, 12)
}

proof fn lemma_groups_are_equal(a: u128, b: u128)
    requires
        hyphenated(a) == hyphenated(b),
    ensures
        (a / 0x1_0000_0000_0000_0000_0000_0000) % 0x1_0000_0000 == (b
            / 0x1_0000_0000_0000_0000_0000_0000) % 0x1_0000_0000,
        (a / 0x1_0000_0000_0000_0000_0000) % 0x1_0000 == (b / 0x1_0000_0000_0000_0000_0000)
            % 0x1_0000,
        (a / 0x1_0000_0000_0000_0000) % 0x1_0000 == (b / 0x1_0000_0000_0000_0000) % 0x1_0000,
        (a / 0x1_0000_0000_0000) % 0x1_0000 == (b / 0x1_0000_0000_0000) % 0x1_0000,
        a % 0x1_0000_0000_0000 == b % 0x1_0000_0000_0000,
{
    reveal_strlit("-");
    let (a0, b0) = (
        (a / 0x1_0000_0000_0000_0000_0000_0000) as nat,
        (b / 0x1_0000_0000_0000_0000_0000_0000) as nat,
    );
    let (a1, b1) = (
        (a / 0x1_0000_0000_0000_0000_0000) as nat,
        (b / 0x1_0000_0000_0000_0000_0000) as nat,
    );
    let (a2, b2) = ((a / 0x1_0000_0000_0000_0000) as nat, (b / 0x1_0000_0000_0000_0000) as nat);
    let (a3, b3) = ((a / 0x1_0000_0000_0000) as nat, (b / 0x1_0000_0000_0000) as nat);
    lemma_hex_tells_lower_part(a0, b0, 8);
    lemma_hex_tells_lower_part(b0, a0, 8);
    lemma_hex_tells_lower_part(a1, b1, 4);
    lemma_hex_tells_lower_part(b1, a1, 4);
    lemma_hex_tells_lower_part(a2, b2, 4);
    lemma_hex_tells_lower_part(b2, a2, 4);
    lemma_hex_tells_lower_part(a3, b3, 4);
    lemma_hex_tells_lower_part(b3, a3, 4);
    lemma_hex_tells_lower_part(a as nat, b as nat, 12);
    lemma_hex_tells_lower_part(b as nat, a as nat, 12);
    assert(hyphenated(a).subrange(0, 8) =~= hex(a0, 8));
    assert(hyphenated(b).subrange(0, 8) =~= hex(b0, 8));
    assert(hyphenated(a).subrange(9, 13) =~= hex(a1, 4));
    assert(hyphenated(b).subrange(9, 13) =~= hex(b1, 4));
    assert(hyphenated(a).subrange(14, 18) =~= hex(a2, 4));
    assert(hyphenated(b).subrange(14, 18) =~= hex(b2, 4));
    assert(hyphenated(a).subrange(19, 23) =~= hex(a3, 4));
    assert(hyphenated(b).subrange(19, 23) =~= hex(b3, 4));
    assert(hyphenated(a).subrange(24, 36) =~= hex(a as nat, 12));
    assert(hyphenated(b).subrange(24, 36) =~= hex(b as nat, 12));
    assert(pow(16, 4) == 0x1_0000 && pow(16, 8) == 0x1_0000_0000 && pow(16, 12)
        == 0x1_0000_0000_0000) by {
        reveal_with_fuel(pow, 13);
    }
}

/// Two ids have two hyphenated forms.
pub proof fn law_ids_have_their_own_text(a: u128, b: u128)
    requires
        hyphenated(a) == hyphenated(b),
    ensures
        a == b,
{
    lemma_groups_are_equal(a, b);
    let (a3, b3) = (a / 0x1_0000_0000_0000, b / 0x1_0000_0000_0000);
    let (a2, b2) = (a3 / 0x1_0000, b3 / 0x1_0000);
    let (a1, b1) = (a2 / 0x1_0000, b2 / 0x1_0000);
    let (a0, b0) = (a1 / 0x1_0000, b1 / 0x1_0000);
    assert(a2 == a / 0x1_0000_0000_0000_0000 && b2 == b / 0x1_0000_0000_0000_0000);
    assert(a1 == a / 0x1_0000_0000_0000_0000_0000 && b1 == b / 0x1_0000_0000_0000_0000_0000);
    assert(a0 == a / 0x1_0000_0000_0000_0000_0000_0000);
    assert(b0 == b / 0x1_0000_0000_0000_0000_0000_0000);
    assert(a0 < 0x1_0000_0000 && b0 < 0x1_0000_0000);
    assert(a0 == b0);
    assert(a1 == b1);
    assert(a2 == b2);
    assert(a3 == b3);
}

/// Whether a text is the hyphenated form of a random id.
pub open spec fn is_id_text(text: Seq<char>) -> bool {
    exists|id: u128| #[trigger] is_random_id(id) && text == hyphenated(id)
}

/// `uuid::Uuid::new_v4`, taken as a number by `as_u128`: a random id. Nothing is said
/// of which one it is, only that it has the version and variant bits of a random id.
#[verifier::external_body]
pub(crate) fn random_id() -> (r: u128)
    ensures
        is_random_id(r),
{
    uuid::Uuid::new_v4().as_u128()
}

/// The id that a text gives, or what is said of a text that gives none.
pub uninterp spec fn parsed_id(text: Seq<char>) -> Result<u128, Seq<char>>;

/// `uuid::Uuid::parse_str`, the id taken as a number by `as_u128`, the error as its text.
/// It is a function of the text alone and goes by the name `parsed_id`.
#[verifier::external_body]
pub(crate) fn parse_id(text: &str) -> (r: Result<u128, String>)
    ensures
        match r {
            Ok(id) => parsed_id(text@) == Ok::<u128, Seq<char>>(id),
            Err(error) => parsed_id(text@) == Err::<u128, Seq<char>>(error@),
        },
{
    match uuid::Uuid::parse_str(text) {
        Ok(id) => Ok(id.as_u128()),
        Err(error) => Err(error.to_string()),
    }
}

/// The `Display` form of `uuid::Uuid`: the hyphenated form of the id, which parses back
/// to the same id.
#[verifier::external_body]
pub(crate) fn id_text(id: u128) -> (r: String)
    ensures
        r@ == hyphenated(id),
        parsed_id(r@) is Ok,
        parsed_id(r@)->Ok_0 == id,
{
    uuid::Uuid::from_u128(id).to_string()
}

/// The hyphenated form of a new random id.
pub fn new_id() -> (r: String)
    ensures
        is_id_text(r@),
{
    id_text(random_id())
}

} // verus!
