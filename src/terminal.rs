//! What the library takes from bracket-lib: dice rolls for map generation and
//! the code page 437 encoding of glyphs.

use vstd::prelude::*;

verus! {

#[verifier::external_type_specification]
#[verifier::external_body]
pub struct ExRandomNumberGenerator(bracket_lib::prelude::RandomNumberGenerator);

/// What `bracket_lib::prelude::to_cp437` returns for a character.
pub uninterp spec fn cp437_of(c: char) -> u16;

/// Relies on `RandomNumberGenerator::roll_dice`: the sum of `n` rolls, each
/// drawn by `range(1, die + 1)`, that is in `1..=die`.
#[verifier::external_body]
pub(crate) fn roll_dice(
    rng: &mut bracket_lib::prelude::RandomNumberGenerator,
    n: i32,
    die: i32,
) -> (r: i32)
    requires
        1 <= n,
        1 <= die < i32::MAX,
        n * die <= i32::MAX,
    ensures
        n <= r <= n * die,
{
    rng.roll_dice(n, die)
}

/// Relies on `bracket_lib::prelude::to_cp437`: the glyph code of a character,
/// a function of the character alone.
#[verifier::external_body]
pub(crate) fn glyph_of(c: char) -> (r: u16)
    ensures
        r == cp437_of(c),
{
    bracket_lib::prelude::to_cp437(c)
}

} // verus!
