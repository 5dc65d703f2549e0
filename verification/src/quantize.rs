//! Snapping a requested backlight value to the driver's supported-level
//! list: the chosen level minimizes the distance to the request, and a tie
//! resolves to the earliest-listed candidate.

use vstd::prelude::*;

verus! {

/// Distance between the requested value and a supported level.
pub open spec fn spec_distance(target: u32, level: u32) -> int {
    if target >= level {
        target - level
    } else {
        level - target
    }
}

/// The index of the best level among the first `n` entries: the first one
/// with minimal distance, as a left-to-right scan keeps it.
pub open spec fn spec_best_upto(levels: Seq<u8>, target: u32, n: nat) -> int
    decreases n,
{
    if n <= 1 {
        0
    } else {
        let b = spec_best_upto(levels, target, (n - 1) as nat);
        if spec_distance(target, levels[n - 1] as u32) < spec_distance(target, levels[b] as u32) {
            n - 1
        } else {
            b
        }
    }
}

/// The level a request snaps to.
pub open spec fn spec_snap(levels: Seq<u8>, target: u32) -> u8 {
    levels[spec_best_upto(levels, target, levels.len())]
}

/// The scan's choice is minimal, and strictly better than everything
/// listed before it.
pub proof fn lemma_best_upto_minimal(levels: Seq<u8>, target: u32, n: nat)
    requires
        1 <= n <= levels.len(),
    ensures
        0 <= spec_best_upto(levels, target, n) < n,
        forall|k: int|
            0 <= k < n ==> spec_distance(target, #[trigger] levels[k] as u32) >= spec_distance(
                target,
                levels[spec_best_upto(levels, target, n)] as u32,
            ),
        forall|k: int|
            0 <= k < spec_best_upto(levels, target, n) ==> spec_distance(
                target,
                #[trigger] levels[k] as u32,
            )
                > spec_distance(target, levels[spec_best_upto(levels, target, n)] as u32),
    decreases n,
{
    if n > 1 {
        lemma_best_upto_minimal(levels, target, (n - 1) as nat);
    }
}

/// Distance computed on machine integers.
fn distance(target: u32, level: u32) -> (d: u32)
    ensures
        d == spec_distance(target, level),
{
    if target >= level {
        target - level
    } else {
        level - target
    }
}

/// The supported level nearest to `target`; ties resolve to the
/// earliest-listed candidate. Minimality also stands in the contract, so
/// callers need not unfold the scan.
pub fn snap_to_levels(levels: &Vec<u8>, target: u32) -> (level: u8)
    requires
        levels@.len() > 0,
    ensures
        level == spec_snap(levels@, target),
        levels@.contains(level),
        forall|k: int|
            0 <= k < levels@.len() ==> spec_distance(target, #[trigger] levels@[k] as u32)
                >= spec_distance(
                target,
                level as u32,
            ),
{
    let mut best: usize = 0;
    let mut i: usize = 1;
    while i < levels.len()
        invariant
            1 <= i <= levels@.len(),
            0 <= best < i,
            best == spec_best_upto(levels@, target, i as nat),
        decreases levels@.len() - i,
    {
        if distance(target, levels[i] as u32) < distance(target, levels[best] as u32) {
            best = i;
        }
        i += 1;
    }
    proof {
        lemma_best_upto_minimal(levels@, target, levels@.len());
        assert(levels@[best as int] == spec_snap(levels@, target));
    }
    levels[best]
}

} // verus!
