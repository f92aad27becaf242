//! Arithmetic on the circular road: every distance is measured forward,
//! from a cell to another, wrapping past the last cell back to the first.
use vstd::prelude::*;

verus! {

/// Number of free cells between a vehicle at `back` and one at `front`
/// on a ring of `len` cells, counted in the direction of travel.
pub open spec fn gap(len: int, front: int, back: int) -> int {
    (front - back + len - 1) % len
}

/// `a % len` for a value that is at most one lap past the start.
pub proof fn lemma_mod_one_lap(a: int, len: int)
    requires
        0 < len,
        0 <= a < 2 * len,
    ensures
        a % len == if a < len { a } else { a - len },
{
    if a < len {
        vstd::arithmetic::div_mod::lemma_small_mod(a as nat, len as nat);
    } else {
        vstd::arithmetic::div_mod::lemma_small_mod((a - len) as nat, len as nat);
        vstd::arithmetic::div_mod::lemma_mod_sub_multiples_vanish(a, len);
    }
}

/// The gap written without the modulus.
pub proof fn lemma_gap_unfold(len: int, front: int, back: int)
    requires
        0 <= front < len,
        0 <= back < len,
    ensures
        gap(len, front, back) == if front > back {
            front - back - 1
        } else {
            front - back + len - 1
        },
        0 <= gap(len, front, back) < len,
{
    lemma_mod_one_lap(front - back + len - 1, len);
}

/// Two vehicles of one lane that each drive no further than the free cells
/// ahead of them end on different cells.
pub proof fn lemma_moves_stay_apart(len: int, xi: int, vi: int, xj: int, vj: int)
    requires
        0 <= xi < len,
        0 <= xj < len,
        xi != xj,
        0 <= vi <= gap(len, xj, xi),
        0 <= vj <= gap(len, xi, xj),
    ensures
        (xi + vi) % len != (xj + vj) % len,
{
    lemma_gap_unfold(len, xj, xi);
    lemma_gap_unfold(len, xi, xj);
    lemma_mod_one_lap(xi + vi, len);
    lemma_mod_one_lap(xj + vj, len);
}

/// Seen from a cell `xc`, let `xp` be nearer behind than `xb`. Then the
/// gap from `xb` to `xp` is smaller than the gap from `xb` to `xc`.
pub proof fn lemma_nearer_behind(len: int, xc: int, xp: int, xb: int)
    requires
        0 <= xc < len,
        0 <= xp < len,
        0 <= xb < len,
        xc != xp,
        xc != xb,
        xp != xb,
        gap(len, xc, xp) <= gap(len, xc, xb),
    ensures
        gap(len, xp, xb) < gap(len, xc, xb),
{
    lemma_gap_unfold(len, xc, xp);
    lemma_gap_unfold(len, xc, xb);
    lemma_gap_unfold(len, xp, xb);
}

} // verus!
