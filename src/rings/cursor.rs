//! Cursor arithmetic shared by every ring: a cursor counts pushes (or pops)
//! since construction, and a cursor `c` lives in slot `c % R`.
use vstd::prelude::*;

verus! {

/// The slot that cursor `c` occupies in a ring of `r` slots.
pub open spec fn slot_of(c: int, r: int) -> int {
    c % r
}

/// Cursors less than one lap apart occupy distinct slots.
pub proof fn lemma_window_distinct(a: int, b: int, r: int)
    requires
        0 <= a < b < a + r,
    ensures
        slot_of(a, r) != slot_of(b, r),
{
    vstd::arithmetic::div_mod::lemma_fundamental_div_mod(a, r);
    vstd::arithmetic::div_mod::lemma_fundamental_div_mod(b, r);
    if a % r == b % r {
        let k = b / r - a / r;
        assert(b - a == r * k) by (nonlinear_arith)
            requires
                a == r * (a / r) + a % r,
                b == r * (b / r) + b % r,
                a % r == b % r,
                k == b / r - a / r,
        ;
        assert(false) by (nonlinear_arith)
            requires
                0 < r * k < r,
                r > 0,
        ;
    }
}

/// A cursor and the cursor one lap later share a slot.
pub proof fn lemma_next_lap(c: int, r: int)
    requires
        0 <= c,
        0 < r,
    ensures
        slot_of(c + r, r) == slot_of(c, r),
{
    vstd::arithmetic::div_mod::lemma_mod_add_multiples_vanish(c, r);
}

/// A slot index is within the ring.
pub proof fn lemma_slot_in_range(c: int, r: int)
    requires
        0 <= c,
        0 < r,
    ensures
        0 <= slot_of(c, r) < r,
{
    vstd::arithmetic::div_mod::lemma_mod_bound(c, r);
}

/// Every slot is the slot of exactly one cursor in each window of `r`
/// consecutive cursors: the one returned here.
pub open spec fn cursor_in_window(start: int, i: int, r: int) -> int {
    start + ((i - start % r) + r) % r
}

pub proof fn lemma_cursor_in_window(start: int, i: int, r: int)
    requires
        0 <= start,
        0 < r,
        0 <= i < r,
    ensures
        start <= cursor_in_window(start, i, r) < start + r,
        slot_of(cursor_in_window(start, i, r), r) == i,
{
    let d = ((i - start % r) + r) % r;
    vstd::arithmetic::div_mod::lemma_mod_bound(start, r);
    vstd::arithmetic::div_mod::lemma_mod_bound((i - start % r) + r, r);
    vstd::arithmetic::div_mod::lemma_fundamental_div_mod(start, r);
    vstd::arithmetic::div_mod::lemma_fundamental_div_mod((i - start % r) + r, r);
    let q = ((i - start % r) + r) / r;
    assert(0 <= (i - start % r) + r < 2 * r);
    assert(q == 0 || q == 1) by (nonlinear_arith)
        requires
            (i - start % r) + r == r * q + d,
            0 <= d < r,
            0 <= (i - start % r) + r < 2 * r,
            r > 0,
    ;
    let c = start + d;
    // c == r * (start / r) + start % r + d, and start % r + d == i + r * (1 - q)
    assert(c == r * (start / r + 1 - q) + i) by (nonlinear_arith)
        requires
            c == start + d,
            start == r * (start / r) + start % r,
            (i - start % r) + r == r * q + d,
    ;
    vstd::arithmetic::div_mod::lemma_mod_multiples_vanish(start / r + 1 - q, i, r);
    vstd::arithmetic::div_mod::lemma_small_mod(i as nat, r as nat);
}

} // verus!

verus! {

/// Two distinct cursors in one slot are at least a lap apart.
pub proof fn lemma_same_slot_lap(a: int, b: int, r: int)
    requires
        0 <= a < b,
        0 < r,
        slot_of(a, r) == slot_of(b, r),
    ensures
        a + r <= b,
{
    if b < a + r {
        lemma_window_distinct(a, b, r);
    }
}

} // verus!
