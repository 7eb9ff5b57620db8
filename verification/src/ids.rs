//! Random identifiers from the `nanoid` crate.
use vstd::prelude::*;

verus! {

/// The bytes of nanoid's default alphabet `alphabet::SAFE`: `_`, `-`,
/// digits and ASCII letters.
pub open spec fn is_nanoid_byte(b: u8) -> bool {
    b == 95 || b == 45 || (48 <= b <= 57) || (97 <= b <= 122) || (65 <= b <= 90)
}

/// `nanoid::format(rngs::default, &alphabet::SAFE, 21)`, which is what
/// `nanoid!()` expands to, taken as its UTF-8 bytes. The source builds the
/// id one alphabet character at a time until it is 21 bytes long; which
/// characters come out depends on the random generator, so nothing more is
/// stated.
#[verifier::external_body]
pub(crate) fn generate_nanoid() -> (id: Vec<u8>)
    ensures
        id@.len() == 21,
        forall|i: int| 0 <= i < id@.len() ==> is_nanoid_byte(#[trigger] id@[i]),
{
    nanoid::format(nanoid::rngs::default, &nanoid::alphabet::SAFE, 21).into_bytes()
}

} // verus!
