//! Contracts for the outside functions the library calls: the CP437 glyph
//! table and the random number generator of `bracket_lib`.
use vstd::prelude::*;

verus! {

/// The glyph code that `bracket_lib` assigns to a character; a function of
/// the character alone.
pub uninterp spec fn cp437_of(c: char) -> u16;

/// Relies on `bracket_lib::prelude::to_cp437`: a fixed match table from
/// characters to CP437 glyph codes, so the result depends on the character
/// alone.
pub assume_specification[ bracket_lib::prelude::to_cp437 ](c: char) -> (r: u16)
    ensures
        r == cp437_of(c),
;

#[verifier::external_type_specification]
#[verifier::external_body]
pub struct ExRandomNumberGenerator(bracket_lib::random::RandomNumberGenerator);

/// Relies on `RandomNumberGenerator::new`: a generator seeded from entropy;
/// nothing is promised of the values it will yield.
pub assume_specification[ bracket_lib::random::RandomNumberGenerator::new ]() -> (r: bracket_lib::random::RandomNumberGenerator);

/// Relies on `RandomNumberGenerator::roll_dice`: the sum of `n` uniform
/// samples, each in `1..=die_type`; only those bounds hold of every outcome.
/// An empty sample range panics, so `die_type` must be at least 1.
pub assume_specification[ bracket_lib::random::RandomNumberGenerator::roll_dice ](
    rng: &mut bracket_lib::random::RandomNumberGenerator,
    n: i32,
    die_type: i32,
) -> (r: i32)
    requires
        1 <= n,
        1 <= die_type < i32::MAX,
        n * die_type <= i32::MAX,
    ensures
        n <= r <= n * die_type,
;

} // verus!
