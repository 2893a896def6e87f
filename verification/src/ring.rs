//! Cursor arithmetic for a fixed-length descriptor ring.
//!
//! Ring indices advance by one, modulo the ring length. The spec-level
//! helpers below keep that arithmetic linear (a compare and a subtract), and
//! a lemma ties them back to the modulo form once and for all.

use vstd::arithmetic::div_mod::{lemma_mod_self_0, lemma_small_mod};
use vstd::prelude::*;

verus! {

/// The slot that follows `i` in a ring of length `n`.
pub open spec fn wrap_next(i: int, n: int) -> int {
    if i + 1 == n {
        0
    } else {
        i + 1
    }
}

/// The slot `k` places after `i` in a ring of length `n`.
///
/// Meaningful for `0 <= i < n` and `0 <= k <= n`: the sum wraps at most once.
pub open spec fn wrap_add(i: int, k: int, n: int) -> int {
    if i + k < n {
        i + k
    } else {
        i + k - n
    }
}

/// Advancing a ring cursor is addition modulo the ring length; in
/// particular, advancing from index `n - 1` yields index `0`.
pub proof fn lemma_wrap_next_is_mod(i: int, n: int)
    requires
        0 <= i < n,
    ensures
        wrap_next(i, n) == (i + 1) % n,
        wrap_next(n - 1, n) == 0,
{
    if i + 1 == n {
        lemma_mod_self_0(n);
    } else {
        lemma_small_mod((i + 1) as nat, n as nat);
    }
}

/// Landing `k` slots past `i` is addition modulo the ring length.
pub proof fn lemma_wrap_add_is_mod(i: int, k: int, n: int)
    requires
        0 <= i < n,
        0 <= k <= n,
    ensures
        wrap_add(i, k, n) == (i + k) % n,
{
    if i + k < n {
        lemma_small_mod((i + k) as nat, n as nat);
    } else {
        lemma_small_mod((i + k - n) as nat, n as nat);
        vstd::arithmetic::div_mod::lemma_mod_sub_multiples_vanish(i + k, n);
    }
}

/// Advance a ring cursor by one slot, wrapping at the ring length.
pub fn next_index(cur: u16, len: usize) -> (r: u16)
    requires
        0 < len <= u16::MAX as usize,
        (cur as int) < len as int,
    ensures
        r as int == wrap_next(cur as int, len as int),
        r as int == (cur as int + 1) % (len as int),
        (r as int) < len as int,
{
    proof {
        lemma_wrap_next_is_mod(cur as int, len as int);
    }
    if cur as usize + 1 == len {
        0
    } else {
        cur + 1
    }
}

} // verus!
