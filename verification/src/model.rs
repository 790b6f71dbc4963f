//! The mathematical model of the counter: what one step does to the value,
//! and what a whole sequence of operations leaves behind.

use vstd::prelude::*;

verus! {

/// A mutating operation on the counter store.
pub enum Op {
    Increment,
    Decrement,
}

/// `v + 1` under the two's-complement wraparound of `i32`.
pub open spec fn wrap_inc(v: int) -> int {
    if v == i32::MAX as int {
        i32::MIN as int
    } else {
        v + 1
    }
}

/// `v - 1` under the two's-complement wraparound of `i32`.
pub open spec fn wrap_dec(v: int) -> int {
    if v == i32::MIN as int {
        i32::MAX as int
    } else {
        v - 1
    }
}

/// The unique value in the `i32` range that is congruent to `x` modulo 2^32.
pub open spec fn wrap_to_i32(x: int) -> int {
    ((x + 0x8000_0000) % 0x1_0000_0000) - 0x8000_0000
}

/// The counter value after one operation, starting from `v`.
pub open spec fn apply_op(v: int, op: Op) -> int {
    match op {
        Op::Increment => wrap_inc(v),
        Op::Decrement => wrap_dec(v),
    }
}

/// The counter value after running `ops` in order from the initial state `0`.
pub open spec fn run(ops: Seq<Op>) -> int
    decreases ops.len(),
{
    if ops.len() == 0 {
        0
    } else {
        apply_op(run(ops.drop_last()), ops.last())
    }
}

/// How many of the operations in `ops` are increments.
pub open spec fn count_incs(ops: Seq<Op>) -> int
    decreases ops.len(),
{
    if ops.len() == 0 {
        0
    } else {
        count_incs(ops.drop_last()) + if ops.last() == Op::Increment {
            1int
        } else {
            0int
        }
    }
}

/// How many of the operations in `ops` are decrements.
pub open spec fn count_decs(ops: Seq<Op>) -> int
    decreases ops.len(),
{
    if ops.len() == 0 {
        0
    } else {
        count_decs(ops.drop_last()) + if ops.last() == Op::Decrement {
            1int
        } else {
            0int
        }
    }
}

/// `n` copies of the same operation.
pub open spec fn repeated(op: Op, n: nat) -> Seq<Op> {
    Seq::new(n, |i: int| op)
}

/// `wrap_to_i32` lands in the `i32` range.
pub proof fn lemma_wrap_to_i32_in_range(x: int)
    ensures
        i32::MIN <= wrap_to_i32(x) <= i32::MAX,
{
    vstd::arithmetic::div_mod::lemma_mod_bound(x + 0x8000_0000, 0x1_0000_0000);
}

/// On values already in the `i32` range, `wrap_to_i32` changes nothing.
pub proof fn lemma_wrap_to_i32_identity(x: int)
    requires
        i32::MIN <= x <= i32::MAX,
    ensures
        wrap_to_i32(x) == x,
{
    vstd::arithmetic::div_mod::lemma_small_mod((x + 0x8000_0000) as nat, 0x1_0000_0000);
}

/// A wrapping increment of the normal form is the normal form of `x + 1`.
proof fn lemma_wrap_inc_commutes(x: int)
    ensures
        wrap_inc(wrap_to_i32(x)) == wrap_to_i32(x + 1),
{
    let h = 0x8000_0000int;
    let m = 0x1_0000_0000int;
    let r = (x + h) % m;
    vstd::arithmetic::div_mod::lemma_mod_bound(x + h, m);
    vstd::arithmetic::div_mod::lemma_add_mod_noop(x + h, 1, m);
    vstd::arithmetic::div_mod::lemma_small_mod(1nat, m as nat);
    assert((x + 1 + h) % m == (r + 1) % m);
    if r == m - 1 {
        vstd::arithmetic::div_mod::lemma_mod_self_0(m);
    } else {
        vstd::arithmetic::div_mod::lemma_small_mod((r + 1) as nat, m as nat);
    }
}

/// A wrapping decrement of the normal form is the normal form of `x - 1`.
proof fn lemma_wrap_dec_commutes(x: int)
    ensures
        wrap_dec(wrap_to_i32(x)) == wrap_to_i32(x - 1),
{
    lemma_wrap_inc_commutes(x - 1);
    lemma_wrap_to_i32_in_range(x - 1);
}

/// Net effect: whatever the interleaving, a run of operations leaves the
/// counter congruent, modulo 2^32, to the number of increments minus the
/// number of decrements. In particular the result depends only on those two
/// counts, never on the order of the operations.
pub proof fn lemma_net_effect(ops: Seq<Op>)
    ensures
        run(ops) == wrap_to_i32(count_incs(ops) - count_decs(ops)),
    decreases ops.len(),
{
    if ops.len() == 0 {
        lemma_wrap_to_i32_identity(0);
    } else {
        lemma_net_effect(ops.drop_last());
        let d = count_incs(ops.drop_last()) - count_decs(ops.drop_last());
        match ops.last() {
            Op::Increment => lemma_wrap_inc_commutes(d),
            Op::Decrement => lemma_wrap_dec_commutes(d),
        }
    }
}

/// Commutative composition: `a` increments and `b` decrements, interleaved
/// in any order, leave the counter at `a - b`, as long as that net value is
/// representable as an `i32`.
pub proof fn lemma_commutative_composition(ops: Seq<Op>)
    requires
        i32::MIN <= count_incs(ops) - count_decs(ops) <= i32::MAX,
    ensures
        run(ops) == count_incs(ops) - count_decs(ops),
{
    lemma_net_effect(ops);
    lemma_wrap_to_i32_identity(count_incs(ops) - count_decs(ops));
}

/// In a run of `n` copies of one operation, the counts are `n` and `0`.
proof fn lemma_repeated_counts(op: Op, n: nat)
    ensures
        count_incs(repeated(op, n)) == if op == Op::Increment { n as int } else { 0int },
        count_decs(repeated(op, n)) == if op == Op::Decrement { n as int } else { 0int },
    decreases n,
{
    if n > 0 {
        assert(repeated(op, n).drop_last() =~= repeated(op, (n - 1) as nat));
        lemma_repeated_counts(op, (n - 1) as nat);
    }
}

/// Increment effect: `n` increments from the initial state, with nothing in
/// between, leave the counter at `n` — for every `n` that an `i32` can hold.
pub proof fn lemma_increment_effect(n: nat)
    requires
        n <= i32::MAX,
    ensures
        run(repeated(Op::Increment, n)) == n,
{
    lemma_repeated_counts(Op::Increment, n);
    lemma_commutative_composition(repeated(Op::Increment, n));
}

/// Decrement effect: `n` decrements from the initial state leave the counter
/// at `-n` — for every `n` with `-n` representable as an `i32`.
pub proof fn lemma_decrement_effect(n: nat)
    requires
        n <= 0x8000_0000,
    ensures
        run(repeated(Op::Decrement, n)) == -(n as int),
{
    lemma_repeated_counts(Op::Decrement, n);
    lemma_commutative_composition(repeated(Op::Decrement, n));
}

} // verus!
