//! Dice-pool operations that do not roll: keep, drop, sort, and the
//! bookkeeping of the display groups.

use vstd::prelude::*;
use crate::dice::{DiceGroup, RollResult};

verus! {

broadcast use vstd::seq_lib::group_to_multiset_ensures;

/// Position of the first lowest die.
pub open spec fn lowest_pos(s: Seq<i32>) -> int
    decreases s.len(),
{
    if s.len() <= 1 {
        0
    } else {
        let p = lowest_pos(s.drop_last());
        if s.last() < s[p] {
            s.len() - 1
        } else {
            p
        }
    }
}

/// Position of the first highest die.
pub open spec fn highest_pos(s: Seq<i32>) -> int
    decreases s.len(),
{
    if s.len() <= 1 {
        0
    } else {
        let p = highest_pos(s.drop_last());
        if s.last() > s[p] {
            s.len() - 1
        } else {
            p
        }
    }
}

/// The dice left after removing the first lowest die `k` times.
pub open spec fn after_dropping_lowest(s: Seq<i32>, k: nat) -> Seq<i32>
    decreases k,
{
    if k == 0 || s.len() == 0 {
        s
    } else {
        after_dropping_lowest(s.remove(lowest_pos(s)), (k - 1) as nat)
    }
}

/// The dice removed by removing the first lowest die `k` times, in the order removed.
pub open spec fn dropped_lowest(s: Seq<i32>, k: nat) -> Seq<i32>
    decreases k,
{
    if k == 0 || s.len() == 0 {
        Seq::empty()
    } else {
        seq![s[lowest_pos(s)]] + dropped_lowest(s.remove(lowest_pos(s)), (k - 1) as nat)
    }
}

/// The dice left after removing the first highest die `k` times.
pub open spec fn after_dropping_highest(s: Seq<i32>, k: nat) -> Seq<i32>
    decreases k,
{
    if k == 0 || s.len() == 0 {
        s
    } else {
        after_dropping_highest(s.remove(highest_pos(s)), (k - 1) as nat)
    }
}

/// The dice removed by removing the first highest die `k` times, in the order removed.
pub open spec fn dropped_highest(s: Seq<i32>, k: nat) -> Seq<i32>
    decreases k,
{
    if k == 0 || s.len() == 0 {
        Seq::empty()
    } else {
        seq![s[highest_pos(s)]] + dropped_highest(s.remove(highest_pos(s)), (k - 1) as nat)
    }
}

/// Die `j` comes before die `i` in a stable sort: by value (ascending when
/// `low`, descending otherwise), then by position.
pub open spec fn ranks_before(s: Seq<i32>, j: int, i: int, low: bool) -> bool {
    if low {
        s[j] < s[i] || (s[j] == s[i] && j < i)
    } else {
        s[j] > s[i] || (s[j] == s[i] && j < i)
    }
}

/// How many of the first `n` dice come before die `i` in a stable sort.
pub open spec fn rank_among(s: Seq<i32>, i: int, n: int, low: bool) -> nat
    decreases n,
{
    if n <= 0 {
        0
    } else {
        rank_among(s, i, n - 1, low) + if ranks_before(s, n - 1, i, low) {
            1nat
        } else {
            0nat
        }
    }
}

/// Position of die `i` once the pool is stably sorted.
pub open spec fn sort_rank(s: Seq<i32>, i: int, low: bool) -> nat {
    rank_among(s, i, s.len() as int, low)
}

/// The dice whose mask entry equals `want`, in roll order.
pub open spec fn select(s: Seq<i32>, mask: Seq<bool>, want: bool) -> Seq<i32>
    decreases s.len(),
{
    if s.len() == 0 {
        Seq::empty()
    } else {
        let r = select(s.drop_last(), mask.take(s.len() - 1), want);
        if mask[s.len() - 1] == want {
            r.push(s.last())
        } else {
            r
        }
    }
}

/// Keep mask of `k`-highest (or `k`-lowest) after a stable sort.
pub open spec fn keep_mask(s: Seq<i32>, k: nat, low: bool) -> Seq<bool> {
    Seq::new(s.len(), |i: int| sort_rank(s, i, low) < k)
}

/// Keep mask of the middle `k` dice of an ascending stable sort: the surplus
/// is dropped half from the bottom (rounded down) and the rest from the top.
pub open spec fn middle_mask(s: Seq<i32>, k: nat) -> Seq<bool> {
    let drop_low = (s.len() - k) / 2;
    let drop_high = (s.len() - k) - drop_low;
    Seq::new(
        s.len(),
        |i: int| drop_low <= sort_rank(s, i, true) && sort_rank(s, i, true) < s.len() - drop_high,
    )
}

pub open spec fn sorted_desc(s: Seq<i32>) -> bool {
    forall|i: int, j: int| 0 <= i < j < s.len() ==> s[i] >= s[j]
}

pub open spec fn sorted_asc(s: Seq<i32>) -> bool {
    forall|i: int, j: int| 0 <= i < j < s.len() ==> s[i] <= s[j]
}

/// Everything in the result except the dice pools.
pub open spec fn same_except_pools(a: RollResult, b: RollResult) -> bool {
    a == (RollResult {
        individual_rolls: a.individual_rolls,
        dropped_rolls: a.dropped_rolls,
        ..b
    })
}

pub fn lowest_position(v: &Vec<i32>) -> (p: usize)
    requires
        v@.len() > 0,
    ensures
        p == lowest_pos(v@),
        p < v@.len(),
{
    let mut p: usize = 0;
    let mut i: usize = 1;
    while i < v.len()
        invariant
            1 <= i <= v@.len(),
            p == lowest_pos(v@.take(i as int)),
            p < i,
        decreases v.len() - i,
    {
        assert(v@.take(i + 1).drop_last() =~= v@.take(i as int));
        if v[i] < v[p] {
            p = i;
        }
        i = i + 1;
    }
    assert(v@.take(v@.len() as int) =~= v@);
    p
}

pub fn highest_position(v: &Vec<i32>) -> (p: usize)
    requires
        v@.len() > 0,
    ensures
        p == highest_pos(v@),
        p < v@.len(),
{
    let mut p: usize = 0;
    let mut i: usize = 1;
    while i < v.len()
        invariant
            1 <= i <= v@.len(),
            p == highest_pos(v@.take(i as int)),
            p < i,
        decreases v.len() - i,
    {
        assert(v@.take(i + 1).drop_last() =~= v@.take(i as int));
        if v[i] > v[p] {
            p = i;
        }
        i = i + 1;
    }
    assert(v@.take(v@.len() as int) =~= v@);
    p
}

/// Move the `count` lowest dice, one first-lowest die at a time, from the
/// pool to `dropped_rolls`.
pub fn drop_lowest_dice(result: &mut RollResult, count: usize)
    ensures
        final(result).individual_rolls@ == after_dropping_lowest(
            old(result).individual_rolls@,
            count as nat,
        ),
        final(result).dropped_rolls@ == old(result).dropped_rolls@ + dropped_lowest(
            old(result).individual_rolls@,
            count as nat,
        ),
        same_except_pools(*final(result), *old(result)),
{
    let ghost s0 = result.individual_rolls@;
    let ghost d0 = result.dropped_rolls@;
    let mut i: usize = 0;
    while i < count && result.individual_rolls.len() > 0
        invariant
            i <= count,
            after_dropping_lowest(s0, count as nat) == after_dropping_lowest(
                result.individual_rolls@,
                (count - i) as nat,
            ),
            d0 + dropped_lowest(s0, count as nat) == result.dropped_rolls@ + dropped_lowest(
                result.individual_rolls@,
                (count - i) as nat,
            ),
            same_except_pools(*result, *old(result)),
        decreases count - i,
    {
        let ghost cur = result.individual_rolls@;
        let ghost dcur = result.dropped_rolls@;
        let p = lowest_position(&result.individual_rolls);
        let v = result.individual_rolls.remove(p);
        result.dropped_rolls.push(v);
        assert(dcur + (seq![v] + dropped_lowest(cur.remove(p as int), (count - i - 1) as nat))
            =~= dcur.push(v) + dropped_lowest(cur.remove(p as int), (count - i - 1) as nat));
        i = i + 1;
    }
    assert(dropped_lowest(result.individual_rolls@, (count - i) as nat) =~= Seq::<i32>::empty());
    assert(result.dropped_rolls@ + Seq::<i32>::empty() =~= result.dropped_rolls@);
}

/// Move the `count` highest dice, one first-highest die at a time, from the
/// pool to `dropped_rolls`; the mirror of dropping the lowest, used by
/// disadvantage.
pub fn drop_highest_dice(result: &mut RollResult, count: usize)
    ensures
        final(result).individual_rolls@ == after_dropping_highest(
            old(result).individual_rolls@,
            count as nat,
        ),
        final(result).dropped_rolls@ == old(result).dropped_rolls@ + dropped_highest(
            old(result).individual_rolls@,
            count as nat,
        ),
        same_except_pools(*final(result), *old(result)),
{
    let ghost s0 = result.individual_rolls@;
    let ghost d0 = result.dropped_rolls@;
    let mut i: usize = 0;
    while i < count && result.individual_rolls.len() > 0
        invariant
            i <= count,
            after_dropping_highest(s0, count as nat) == after_dropping_highest(
                result.individual_rolls@,
                (count - i) as nat,
            ),
            d0 + dropped_highest(s0, count as nat) == result.dropped_rolls@ + dropped_highest(
                result.individual_rolls@,
                (count - i) as nat,
            ),
            same_except_pools(*result, *old(result)),
        decreases count - i,
    {
        let ghost cur = result.individual_rolls@;
        let ghost dcur = result.dropped_rolls@;
        let p = highest_position(&result.individual_rolls);
        let v = result.individual_rolls.remove(p);
        result.dropped_rolls.push(v);
        assert(dcur + (seq![v] + dropped_highest(cur.remove(p as int), (count - i - 1) as nat))
            =~= dcur.push(v) + dropped_highest(cur.remove(p as int), (count - i - 1) as nat));
        i = i + 1;
    }
    assert(dropped_highest(result.individual_rolls@, (count - i) as nat) =~= Seq::<i32>::empty());
    assert(result.dropped_rolls@ + Seq::<i32>::empty() =~= result.dropped_rolls@);
}

/// How many dice `d#` removes from a pool of `n`: `count`, but never every
/// die of a pool of two or more (one die survives).
pub open spec fn drop_amount(n: nat, count: nat) -> nat {
    if count == 0 {
        0
    } else if count >= n {
        if n > 1 {
            (n - 1) as nat
        } else {
            n
        }
    } else {
        count
    }
}

/// `d#`: drop the lowest `count` dice, keeping at least one die of a pool
/// of two or more.
pub fn drop_dice(result: &mut RollResult, count: usize)
    ensures
        final(result).individual_rolls@ == after_dropping_lowest(
            old(result).individual_rolls@,
            drop_amount(old(result).individual_rolls@.len(), count as nat),
        ),
        final(result).dropped_rolls@ == old(result).dropped_rolls@ + dropped_lowest(
            old(result).individual_rolls@,
            drop_amount(old(result).individual_rolls@.len(), count as nat),
        ),
        same_except_pools(*final(result), *old(result)),
{
    let available = result.individual_rolls.len();
    if count == 0 {
        assert(result.dropped_rolls@ + Seq::<i32>::empty() =~= result.dropped_rolls@);
        return;
    }
    if count >= available {
        let to_drop = if available > 1 {
            available - 1
        } else {
            available
        };
        drop_lowest_dice(result, to_drop);
        return;
    }
    drop_lowest_dice(result, count);
}

/// Number of the first `n` dice that rank before die `i`.
fn rank_of(v: &Vec<i32>, i: usize, low: bool) -> (r: usize)
    requires
        i < v@.len(),
    ensures
        r == sort_rank(v@, i as int, low),
{
    let mut r: usize = 0;
    let mut j: usize = 0;
    while j < v.len()
        invariant
            j <= v@.len(),
            i < v@.len(),
            r == rank_among(v@, i as int, j as int, low),
            r <= j,
        decreases v.len() - j,
    {
        let before = if low {
            v[j] < v[i] || (v[j] == v[i] && j < i)
        } else {
            v[j] > v[i] || (v[j] == v[i] && j < i)
        };
        if before {
            r = r + 1;
        }
        j = j + 1;
    }
    r
}

proof fn lemma_select_push(s: Seq<i32>, mask: Seq<bool>, x: i32, b: bool, want: bool)
    requires
        mask.len() == s.len(),
    ensures
        select(s.push(x), mask.push(b), want) == if b == want {
            select(s, mask, want).push(x)
        } else {
            select(s, mask, want)
        },
{
    assert(s.push(x).drop_last() =~= s);
    assert(mask.push(b).take(s.len() as int) =~= mask);
}

/// Keep the dice whose mask entry is set, in roll order, and move the rest,
/// in roll order, to `dropped_rolls`.
pub fn partition_kept_dice(result: &mut RollResult, mask: &Vec<bool>)
    requires
        mask@.len() == old(result).individual_rolls@.len(),
    ensures
        final(result).individual_rolls@ == select(old(result).individual_rolls@, mask@, true),
        final(result).dropped_rolls@ == old(result).dropped_rolls@ + select(
            old(result).individual_rolls@,
            mask@,
            false,
        ),
        same_except_pools(*final(result), *old(result)),
{
    let ghost s = result.individual_rolls@;
    let ghost d0 = result.dropped_rolls@;
    let mut new_rolls: Vec<i32> = Vec::new();
    let mut dropped: Vec<i32> = Vec::new();
    let mut i: usize = 0;
    while i < result.individual_rolls.len()
        invariant
            result.individual_rolls@ == s,
            result.dropped_rolls@ == d0,
            mask@.len() == s.len(),
            i <= s.len(),
            new_rolls@ == select(s.take(i as int), mask@.take(i as int), true),
            dropped@ == select(s.take(i as int), mask@.take(i as int), false),
            same_except_pools(*result, *old(result)),
        decreases s.len() - i,
    {
        proof {
            lemma_select_push(s.take(i as int), mask@.take(i as int), s[i as int], mask@[i as int], true);
            lemma_select_push(s.take(i as int), mask@.take(i as int), s[i as int], mask@[i as int], false);
            assert(s.take(i as int).push(s[i as int]) =~= s.take(i + 1));
            assert(mask@.take(i as int).push(mask@[i as int]) =~= mask@.take(i + 1));
        }
        if mask[i] {
            new_rolls.push(result.individual_rolls[i]);
        } else {
            dropped.push(result.individual_rolls[i]);
        }
        i = i + 1;
    }
    assert(s.take(s.len() as int) =~= s);
    assert(mask@.take(s.len() as int) =~= mask@);
    result.individual_rolls = new_rolls;
    result.dropped_rolls.append(&mut dropped);
}

/// `k#` / `kl#`: keep the `count` highest (or lowest) dice; ties go to the
/// die rolled first. Keeping as many dice as are rolled keeps them all.
pub fn keep_dice(result: &mut RollResult, count: usize, keep_low: bool)
    requires
        count > 0,
    ensures
        count >= old(result).individual_rolls@.len() ==> *final(result) == *old(result),
        count < old(result).individual_rolls@.len() ==> {
            let m = keep_mask(old(result).individual_rolls@, count as nat, keep_low);
            &&& final(result).individual_rolls@ == select(old(result).individual_rolls@, m, true)
            &&& final(result).dropped_rolls@ == old(result).dropped_rolls@ + select(
                old(result).individual_rolls@,
                m,
                false,
            )
            &&& same_except_pools(*final(result), *old(result))
        },
{
    let n = result.individual_rolls.len();
    if count >= n {
        return;
    }
    let ghost s = result.individual_rolls@;
    let mut mask: Vec<bool> = Vec::new();
    let mut i: usize = 0;
    while i < n
        invariant
            n == s.len(),
            result.individual_rolls@ == s,
            i <= n,
            mask@ =~= keep_mask(s, count as nat, keep_low).take(i as int),
        decreases n - i,
    {
        let r = rank_of(&result.individual_rolls, i, keep_low);
        mask.push(r < count);
        i = i + 1;
    }
    assert(mask@ =~= keep_mask(s, count as nat, keep_low));
    partition_kept_dice(result, &mask);
}

/// `km#`: keep the middle `count` dice of an ascending sort.
pub fn keep_middle_dice(result: &mut RollResult, count: usize)
    ensures
        count >= old(result).individual_rolls@.len() ==> *final(result) == *old(result),
        count < old(result).individual_rolls@.len() ==> {
            let m = middle_mask(old(result).individual_rolls@, count as nat);
            &&& final(result).individual_rolls@ == select(old(result).individual_rolls@, m, true)
            &&& final(result).dropped_rolls@ == old(result).dropped_rolls@ + select(
                old(result).individual_rolls@,
                m,
                false,
            )
            &&& same_except_pools(*final(result), *old(result))
        },
{
    let n = result.individual_rolls.len();
    if count >= n {
        return;
    }
    let total_to_drop = n - count;
    let drop_from_low = total_to_drop / 2;
    let drop_from_high = total_to_drop - drop_from_low;
    let keep_end = n - drop_from_high;
    let ghost s = result.individual_rolls@;
    let mut mask: Vec<bool> = Vec::new();
    let mut i: usize = 0;
    while i < n
        invariant
            n == s.len(),
            result.individual_rolls@ == s,
            count < n,
            total_to_drop == n - count,
            drop_from_low == total_to_drop / 2,
            drop_from_high == total_to_drop - drop_from_low,
            keep_end == n - drop_from_high,
            i <= n,
            mask@ =~= middle_mask(s, count as nat).take(i as int),
        decreases n - i,
    {
        let r = rank_of(&result.individual_rolls, i, true);
        mask.push(drop_from_low <= r && r < keep_end);
        i = i + 1;
    }
    assert(mask@ =~= middle_mask(s, count as nat));
    partition_kept_dice(result, &mask);
}

/// Insert `x` into a descending run, after every element at least as large.
fn insert_desc(v: &mut Vec<i32>, x: i32)
    requires
        sorted_desc(old(v)@),
    ensures
        sorted_desc(final(v)@),
        final(v)@.to_multiset() == old(v)@.to_multiset().insert(x),
{
    let mut i: usize = 0;
    while i < v.len() && v[i] >= x
        invariant
            i <= v@.len(),
            v@ == old(v)@,
            forall|j: int| 0 <= j < i ==> v@[j] >= x,
        decreases v.len() - i,
    {
        i = i + 1;
    }
    let ghost before = v@;
    v.insert(i, x);
    proof {
        assert(v@ == before.insert(i as int, x));
        before.insert_ensures(i as int, x);
        assert forall|a: int, b: int| 0 <= a < b < v@.len() implies v@[a] >= v@[b] by {
            if b < i {
            } else if a < i && b == i {
            } else if a < i && b > i {
                assert(v@[b] == before[b - 1]);
                if i < before.len() {
                    assert(before[i as int] < x);
                }
            } else if a == i {
                assert(v@[b] == before[b - 1]);
                assert(before[i as int] < x);
                assert(before[i as int] >= before[b - 1]);
            } else {
                assert(v@[a] == before[a - 1]);
                assert(v@[b] == before[b - 1]);
            }
        }
        assert(v@ =~= before.subrange(0, i as int).push(x) + before.subrange(i as int, before.len() as int));
        vstd::seq_lib::lemma_multiset_commutative(before.subrange(0, i as int).push(x), before.subrange(i as int, before.len() as int));
        vstd::seq_lib::lemma_multiset_commutative(before.subrange(0, i as int), before.subrange(i as int, before.len() as int));
        assert(before =~= before.subrange(0, i as int) + before.subrange(i as int, before.len() as int));
    }
}

/// The dice sorted from highest to lowest.
pub fn sort_desc(v: Vec<i32>) -> (r: Vec<i32>)
    ensures
        sorted_desc(r@),
        r@.to_multiset() == v@.to_multiset(),
        r@.len() == v@.len(),
{
    let mut out: Vec<i32> = Vec::new();
    let mut i: usize = 0;
    while i < v.len()
        invariant
            i <= v@.len(),
            sorted_desc(out@),
            out@.to_multiset() == v@.take(i as int).to_multiset(),
        decreases v.len() - i,
    {
        insert_desc(&mut out, v[i]);
        assert(v@.take(i + 1) =~= v@.take(i as int).push(v@[i as int]));
        i = i + 1;
    }
    assert(v@.take(v@.len() as int) =~= v@);
    proof {
        out@.to_multiset_ensures();
        v@.to_multiset_ensures();
    }
    out
}

/// Everything in a group except its dice.
pub open spec fn same_group_except_rolls(a: DiceGroup, b: DiceGroup) -> bool {
    a == (DiceGroup { rolls: a.rolls, ..b })
}

/// `a` is `b` with its dice sorted from highest to lowest.
pub open spec fn sorted_copy_of(a: DiceGroup, b: DiceGroup) -> bool {
    &&& sorted_desc(a.rolls@)
    &&& a.rolls@.to_multiset() == b.rolls@.to_multiset()
    &&& same_group_except_rolls(a, b)
}

/// Sort the kept dice and every group's dice from highest to lowest.
pub fn sort_result_rolls(result: &mut RollResult)
    ensures
        sorted_desc(final(result).kept_rolls@),
        final(result).kept_rolls@.to_multiset() == old(result).kept_rolls@.to_multiset(),
        final(result).dice_groups@.len() == old(result).dice_groups@.len(),
        forall|g: int|
            0 <= g < final(result).dice_groups@.len() ==> sorted_copy_of(
                #[trigger] final(result).dice_groups@[g],
                old(result).dice_groups@[g],
            ),
        *final(result) == (RollResult {
            kept_rolls: final(result).kept_rolls,
            dice_groups: final(result).dice_groups,
            ..*old(result)
        }),
{
    let mut kept: Vec<i32> = Vec::new();
    std::mem::swap(&mut kept, &mut result.kept_rolls);
    result.kept_rolls = sort_desc(kept);
    let mut groups: Vec<DiceGroup> = Vec::new();
    std::mem::swap(&mut groups, &mut result.dice_groups);
    let ghost old_groups = groups@;
    assert(old_groups == old(result).dice_groups@);
    let mut sorted_groups: Vec<DiceGroup> = Vec::new();
    let ghost n = old_groups.len();
    while groups.len() > 0
        invariant
            n == old_groups.len(),
            sorted_groups@.len() + groups@.len() == n,
            groups@ =~= old_groups.skip(sorted_groups@.len() as int),
            forall|g: int|
                0 <= g < sorted_groups@.len() ==> sorted_copy_of(
                    #[trigger] sorted_groups@[g],
                    old_groups[g],
                ),
        decreases groups.len(),
    {
        let ghost k = sorted_groups@.len() as int;
        let g = groups.remove(0);
        assert(g == old_groups[k]);
        let DiceGroup { _description, rolls, dropped_rolls, modifier_type } = g;
        let sorted = sort_desc(rolls);
        sorted_groups.push(DiceGroup { _description, rolls: sorted, dropped_rolls, modifier_type });
        assert(groups@ =~= old_groups.skip(k + 1));
    }
    result.dice_groups = sorted_groups;
}

/// Refresh the base group (the first group) from the pool: it lists every die
/// still rolled followed by the dropped dice, and carries no dropped dice of
/// its own, since those render separately.
pub fn update_base_group(result: &mut RollResult)
    ensures
        old(result).dice_groups@.len() == 0 ==> *final(result) == *old(result),
        old(result).dice_groups@.len() > 0 ==> {
            &&& final(result).dice_groups@.len() == old(result).dice_groups@.len()
            &&& final(result).dice_groups@[0].rolls@ == old(result).individual_rolls@
                + old(result).dropped_rolls@
            &&& final(result).dice_groups@[0].dropped_rolls@.len() == 0
            &&& final(result).dice_groups@[0]._description == old(result).dice_groups@[0]._description
            &&& final(result).dice_groups@[0].modifier_type == old(result).dice_groups@[0].modifier_type
            &&& forall|g: int|
                1 <= g < final(result).dice_groups@.len() ==> #[trigger] final(result).dice_groups@[g]
                    == old(result).dice_groups@[g]
            &&& *final(result) == (RollResult { dice_groups: final(result).dice_groups, ..*old(result) })
        },
{
    if result.dice_groups.len() == 0 {
        return;
    }
    let g = result.dice_groups.remove(0);
    let DiceGroup { _description, rolls: _, dropped_rolls: _, modifier_type } = g;
    let mut rolls = result.individual_rolls.clone();
    let mut extra = result.dropped_rolls.clone();
    rolls.append(&mut extra);
    result.dice_groups.insert(
        0,
        DiceGroup { _description, rolls, dropped_rolls: Vec::new(), modifier_type },
    );
}

} // verus!
