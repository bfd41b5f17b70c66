//! Chance, as the game takes it: in fractions of a whole.

use rand::Rng;
use vstd::prelude::*;

verus! {

/// The number of equal parts into which a roll divides a whole: `2^32`.
pub const ROLL_PARTS: u64 = 0x1_0000_0000;

/// Two rolls of the dice for one spawn. Each stands for the fraction
/// `roll / 2^32` of a whole, so for a number from zero up to, but not
/// reaching, one.
#[derive(Clone, Copy, Debug, PartialEq, Eq, Structural)]
pub struct Roll {
    /// How far across the field.
    pub across: u32,
    /// How far ahead.
    pub ahead: u32,
}

/// The part of `extent` that `roll` stands for, rounded down.
pub open spec fn share(roll: u32, extent: u32) -> int {
    (roll as int * extent as int) / ROLL_PARTS as int
}

/// The part of `extent` that `roll` stands for, rounded down.
pub fn share_of(roll: u32, extent: u32) -> (part: u32)
    ensures
        part == share(roll, extent),
        extent > 0 ==> part < extent,
        extent == 0 ==> part == 0,
{
    proof {
        let r = roll as int;
        let e = extent as int;
        assert(0 <= r * e <= 0xFFFF_FFFF * e) by (nonlinear_arith)
            requires
                0 <= r <= 0xFFFF_FFFF,
                0 <= e,
        ;
    }
    let product: u64 = roll as u64 * extent as u64;
    (product / ROLL_PARTS) as u32
}

/// A number drawn by `rand::Rng::gen` from the thread's generator, which
/// `rand::thread_rng` hands out. It may be any `u32`: nothing is claimed
/// of it.
#[verifier::external_body]
fn random_fraction() -> (roll: u32) {
    rand::thread_rng().gen()
}

/// Rolls the dice for one spawn: first for how far ahead, then for how far
/// across.
pub(crate) fn random_roll() -> (roll: Roll) {
    let ahead: u32 = random_fraction();
    let across: u32 = random_fraction();
    Roll { across, ahead }
}

} // verus!
