//! The counters that number the objects of a queue. They run up to `usize::MAX` and start over
//! at zero.
use vstd::prelude::*;

use crate::error::Error;

verus! {

/// The number that follows `u`: one more, or zero after the largest.
pub open spec fn next_key(u: usize) -> usize {
    if u == usize::MAX {
        0
    } else {
        (u + 1) as usize
    }
}

/// The number that a counter at `u` shows after `n` steps.
pub open spec fn advanced(u: usize, n: nat) -> usize
    decreases n,
{
    if n == 0 {
        u
    } else {
        next_key(advanced(u, (n - 1) as nat))
    }
}

/// How many steps lead from `from` to `to`, going round at most once.
pub open spec fn distance(from: usize, to: usize) -> nat {
    if from <= to {
        (to - from) as nat
    } else {
        (usize::MAX - from + 1 + to) as nat
    }
}

/// The number that follows `u`, starting over after the largest.
pub fn next_with_overflow(u: usize) -> (next: usize)
    ensures
        next == next_key(u),
{
    if u == usize::MAX {
        0
    } else {
        u + 1
    }
}

/// Moves the counter one step on and returns the number it then shows. No counter runs out, so
/// this never fails. The counter is borrowed for as long as the step takes, so that nobody else
/// gets the same number.
pub fn advance(u: &mut usize) -> (r: Result<usize, Error>)
    ensures
        *final(u) == next_key(*old(u)),
        r == Ok::<usize, Error>(next_key(*old(u))),
{
    *u = next_with_overflow(*u);
    Ok(*u)
}

/// A counter adds its steps up, and starts over where the sum passes the largest number.
pub proof fn law_advanced_adds_up(u: usize, n: nat)
    requires
        n <= usize::MAX,
    ensures
        advanced(u, n) == if u + n <= usize::MAX {
            u + n
        } else {
            u + n - usize::MAX - 1
        },
    decreases n,
{
    if n > 0 {
        law_advanced_adds_up(u, (n - 1) as nat);
    }
}

/// A counter comes back to where it was after as many steps as there are numbers.
pub proof fn law_advanced_comes_round(u: usize)
    ensures
        advanced(u, (usize::MAX + 1) as nat) == u,
{
    law_advanced_adds_up(u, usize::MAX as nat);
}

/// No two of the numbers that a counter shows are the same until it has gone all the way round.
pub proof fn law_advanced_does_not_repeat(u: usize, i: nat, j: nat)
    requires
        i < j <= i + usize::MAX,
    ensures
        advanced(u, i) != advanced(u, j),
{
    law_advanced_splits(u, i, (j - i) as nat);
    law_advanced_adds_up(advanced(u, i), (j - i) as nat);
}

/// Taking `i` steps and then `j` more is taking `i + j` steps.
pub proof fn law_advanced_splits(u: usize, i: nat, j: nat)
    ensures
        advanced(u, i + j) == advanced(advanced(u, i), j),
    decreases j,
{
    if j > 0 {
        law_advanced_splits(u, i, (j - 1) as nat);
    }
}

/// The distance between two numbers is the number of steps that lead from one to the other.
pub proof fn law_distance_leads_there(from: usize, to: usize)
    ensures
        distance(from, to) <= usize::MAX,
        advanced(from, distance(from, to)) == to,
{
    law_advanced_adds_up(from, distance(from, to));
}

} // verus!
