//! What keep and drop do to a pool of dice, stated over the specifications
//! that `keep_dice`, `keep_middle_dice` and `drop_dice` meet.

use vstd::prelude::*;
use crate::dice::pool::{
    after_dropping_lowest, dropped_lowest, keep_mask, lowest_pos, middle_mask, rank_among,
    ranks_before, select, sort_rank,
};
use crate::dice::roller::{explode_outcome, explode_request, explode_threshold, keep_drop_fold, pool_outcome, tally};
use crate::dice::systems::{count_in_range, lemma_count_all, notes_of};
use crate::dice::{in_die_range, DiceRoll, Modifier, RollResult};

verus! {

broadcast use vstd::seq_lib::group_to_multiset_ensures;

// ---------------------------------------------------------------------------
// Selecting with a mask
// ---------------------------------------------------------------------------

proof fn lemma_select_split(s: Seq<i32>, mask: Seq<bool>)
    requires
        mask.len() == s.len(),
    ensures
        select(s, mask, true).to_multiset().add(select(s, mask, false).to_multiset())
            =~= s.to_multiset(),
    decreases s.len(),
{
    broadcast use vstd::multiset::group_multiset_axioms;

    if s.len() > 0 {
        let t = s.drop_last();
        let m = mask.take(s.len() - 1);
        lemma_select_split(t, m);
        assert(s =~= t.push(s.last()));
    }
}

proof fn lemma_select_member(s: Seq<i32>, mask: Seq<bool>, want: bool, x: i32)
    requires
        mask.len() == s.len(),
        select(s, mask, want).contains(x),
    ensures
        exists|i: int| 0 <= i < s.len() && mask[i] == want && s[i] == x,
    decreases s.len(),
{
    let t = s.drop_last();
    let m = mask.take(s.len() - 1);
    let r = select(t, m, want);
    let last = s.len() - 1;
    if mask[last] == want && x == s[last] {
        assert(mask[last] == want && s[last] == x);
    } else {
        let sel = select(s, mask, want);
        let j = choose|j: int| 0 <= j < sel.len() && sel[j] == x;
        assert(j < r.len() && r[j] == x);
        assert(r.contains(x));
        lemma_select_member(t, m, want, x);
        let i = choose|i: int| 0 <= i < t.len() && m[i] == want && t[i] == x;
        assert(mask[i] == want && s[i] == x);
    }
}

/// How many entries of the mask equal `want`.
pub open spec fn mask_count(mask: Seq<bool>, want: bool) -> nat
    decreases mask.len(),
{
    if mask.len() == 0 {
        0
    } else {
        mask_count(mask.drop_last(), want) + if mask.last() == want {
            1nat
        } else {
            0nat
        }
    }
}

proof fn lemma_select_len(s: Seq<i32>, mask: Seq<bool>, want: bool)
    requires
        mask.len() == s.len(),
    ensures
        select(s, mask, want).len() == mask_count(mask, want),
    decreases s.len(),
{
    if s.len() > 0 {
        lemma_select_len(s.drop_last(), mask.take(s.len() - 1), want);
        assert(mask.take(s.len() - 1) =~= mask.drop_last());
    }
}

proof fn lemma_mask_count_total(mask: Seq<bool>)
    ensures
        mask_count(mask, true) + mask_count(mask, false) == mask.len(),
    decreases mask.len(),
{
    if mask.len() > 0 {
        lemma_mask_count_total(mask.drop_last());
    }
}

// ---------------------------------------------------------------------------
// Stable-sort ranks
// ---------------------------------------------------------------------------

proof fn lemma_rank_before(s: Seq<i32>, i: int, j: int, low: bool, n: int)
    requires
        0 <= i < s.len(),
        0 <= j < s.len(),
        ranks_before(s, j, i, low),
        0 <= n <= s.len(),
    ensures
        rank_among(s, j, n, low) + (if n > j { 1int } else { 0int }) <= rank_among(s, i, n, low),
    decreases n,
{
    if n > 0 {
        lemma_rank_before(s, i, j, low, n - 1);
    }
}

proof fn lemma_rank_bound(s: Seq<i32>, i: int, low: bool, n: int)
    requires
        0 <= i < s.len(),
        0 <= n <= s.len(),
    ensures
        rank_among(s, i, n, low) + (if n > i { 1int } else { 0int }) <= n,
    decreases n,
{
    if n > 0 {
        lemma_rank_bound(s, i, low, n - 1);
    }
}

/// Distinct dice have distinct ranks, and a die ranked before another has
/// the smaller rank.
proof fn lemma_ranks_distinct(s: Seq<i32>, i: int, j: int, low: bool)
    requires
        0 <= i < s.len(),
        0 <= j < s.len(),
        i != j,
    ensures
        sort_rank(s, i, low) != sort_rank(s, j, low),
        ranks_before(s, j, i, low) ==> sort_rank(s, j, low) < sort_rank(s, i, low),
{
    if ranks_before(s, j, i, low) {
        lemma_rank_before(s, i, j, low, s.len() as int);
    } else {
        assert(ranks_before(s, i, j, low));
        lemma_rank_before(s, j, i, low, s.len() as int);
    }
}

/// How many of the first `m` dice have a rank below `k`.
pub open spec fn ranked_below(s: Seq<i32>, low: bool, m: int, k: int) -> nat
    decreases m,
{
    if m <= 0 {
        0
    } else {
        ranked_below(s, low, m - 1, k) + if sort_rank(s, m - 1, low) < k {
            1nat
        } else {
            0nat
        }
    }
}

/// How many of the first `m` dice have rank `r`.
pub open spec fn ranked_at(s: Seq<i32>, low: bool, m: int, r: int) -> nat
    decreases m,
{
    if m <= 0 {
        0
    } else {
        ranked_at(s, low, m - 1, r) + if sort_rank(s, m - 1, low) == r {
            1nat
        } else {
            0nat
        }
    }
}

proof fn lemma_below_step(s: Seq<i32>, low: bool, m: int, k: int)
    ensures
        ranked_below(s, low, m, k + 1) == ranked_below(s, low, m, k) + ranked_at(s, low, m, k),
    decreases m,
{
    if m > 0 {
        lemma_below_step(s, low, m - 1, k);
    }
}

proof fn lemma_none_at(s: Seq<i32>, low: bool, m: int, r: int)
    requires
        forall|i: int| 0 <= i < m ==> sort_rank(s, i, low) != r,
    ensures
        ranked_at(s, low, m, r) == 0,
    decreases m,
{
    if m > 0 {
        lemma_none_at(s, low, m - 1, r);
    }
}

proof fn lemma_at_most_one(s: Seq<i32>, low: bool, m: int, r: int)
    requires
        m <= s.len(),
    ensures
        ranked_at(s, low, m, r) <= 1,
    decreases m,
{
    if m > 0 {
        lemma_at_most_one(s, low, m - 1, r);
        if sort_rank(s, m - 1, low) == r {
            assert forall|i: int| 0 <= i < m - 1 implies sort_rank(s, i, low) != r by {
                lemma_ranks_distinct(s, i, m - 1, low);
            }
            lemma_none_at(s, low, m - 1, r);
        }
    }
}

proof fn lemma_below_at_most(s: Seq<i32>, low: bool, k: int)
    requires
        0 <= k,
    ensures
        ranked_below(s, low, s.len() as int, k) <= k,
    decreases k,
{
    if k == 0 {
        lemma_below_zero(s, low, s.len() as int);
    } else {
        lemma_below_at_most(s, low, k - 1);
        lemma_below_step(s, low, s.len() as int, k - 1);
        lemma_at_most_one(s, low, s.len() as int, k - 1);
    }
}

proof fn lemma_below_zero(s: Seq<i32>, low: bool, m: int)
    ensures
        ranked_below(s, low, m, 0) == 0,
    decreases m,
{
    if m > 0 {
        lemma_below_zero(s, low, m - 1);
    }
}

proof fn lemma_below_all(s: Seq<i32>, low: bool, m: int)
    requires
        m <= s.len(),
    ensures
        ranked_below(s, low, m, s.len() as int) == if m < 0 { 0 } else { m },
    decreases m,
{
    if m > 0 {
        lemma_below_all(s, low, m - 1);
        lemma_rank_bound(s, m - 1, low, s.len() as int);
    }
}

proof fn lemma_below_gap(s: Seq<i32>, low: bool, k: int, j: int)
    requires
        0 <= k <= j,
    ensures
        ranked_below(s, low, s.len() as int, j) <= ranked_below(s, low, s.len() as int, k) + (j - k),
    decreases j - k,
{
    if j > k {
        lemma_below_gap(s, low, k, j - 1);
        lemma_below_step(s, low, s.len() as int, j - 1);
        lemma_at_most_one(s, low, s.len() as int, j - 1);
    }
}

/// Exactly `k` dice rank below `k`: the ranks are the positions of a sort.
proof fn lemma_below_exact(s: Seq<i32>, low: bool, k: int)
    requires
        0 <= k <= s.len(),
    ensures
        ranked_below(s, low, s.len() as int, k) == k,
{
    lemma_below_at_most(s, low, k);
    lemma_below_gap(s, low, k, s.len() as int);
    lemma_below_all(s, low, s.len() as int);
}

proof fn lemma_keep_mask_count(s: Seq<i32>, k: nat, low: bool, m: int)
    requires
        0 <= m <= s.len(),
    ensures
        mask_count(keep_mask(s, k, low).take(m), true) == ranked_below(s, low, m, k as int),
    decreases m,
{
    if m > 0 {
        lemma_keep_mask_count(s, k, low, m - 1);
        assert(keep_mask(s, k, low).take(m).drop_last() =~= keep_mask(s, k, low).take(m - 1));
    }
}

proof fn lemma_middle_mask_count(s: Seq<i32>, k: nat, m: int)
    requires
        0 <= m <= s.len(),
        k <= s.len(),
    ensures
        ({
            let lo = (s.len() - k) / 2;
            let hi = s.len() - ((s.len() - k) - lo);
            mask_count(middle_mask(s, k).take(m), true) + ranked_below(s, true, m, lo)
                == ranked_below(s, true, m, hi)
        }),
    decreases m,
{
    if m > 0 {
        lemma_middle_mask_count(s, k, m - 1);
        assert(middle_mask(s, k).take(m).drop_last() =~= middle_mask(s, k).take(m - 1));
    }
}

// ---------------------------------------------------------------------------
// Laws of keeping
// ---------------------------------------------------------------------------

/// Keeping never loses or invents a die: the kept dice and the dropped dice
/// together are exactly the dice that were rolled.
pub proof fn law_kept_and_dropped_are_the_pool(s: Seq<i32>, mask: Seq<bool>)
    requires
        mask.len() == s.len(),
    ensures
        select(s, mask, true).to_multiset().add(select(s, mask, false).to_multiset())
            == s.to_multiset(),
{
    lemma_select_split(s, mask);
}

/// `k#` keeps exactly `k` dice of a larger pool (`kl#` likewise), and drops
/// the rest.
pub proof fn law_keep_keeps_exactly_k(s: Seq<i32>, k: nat, low: bool)
    requires
        k <= s.len(),
    ensures
        select(s, keep_mask(s, k, low), true).len() == k,
        select(s, keep_mask(s, k, low), false).len() == s.len() - k,
{
    let mask = keep_mask(s, k, low);
    lemma_select_len(s, mask, true);
    lemma_select_len(s, mask, false);
    lemma_mask_count_total(mask);
    lemma_keep_mask_count(s, k, low, s.len() as int);
    assert(mask.take(s.len() as int) =~= mask);
    lemma_below_exact(s, low, k as int);
}

/// `k#` keeps the highest dice: no kept die is below a dropped one. With
/// `kl#` no kept die is above a dropped one.
pub proof fn law_kept_outrank_dropped(s: Seq<i32>, k: nat, low: bool, kept: i32, dropped: i32)
    requires
        select(s, keep_mask(s, k, low), true).contains(kept),
        select(s, keep_mask(s, k, low), false).contains(dropped),
    ensures
        !low ==> kept >= dropped,
        low ==> kept <= dropped,
{
    let mask = keep_mask(s, k, low);
    lemma_select_member(s, mask, true, kept);
    lemma_select_member(s, mask, false, dropped);
    let i = choose|i: int| 0 <= i < s.len() && mask[i] == true && s[i] == kept;
    let j = choose|j: int| 0 <= j < s.len() && mask[j] == false && s[j] == dropped;
    lemma_ranks_distinct(s, i, j, low);
}

/// `km#` keeps exactly `k` dice of a larger pool.
pub proof fn law_keep_middle_keeps_exactly_k(s: Seq<i32>, k: nat)
    requires
        k <= s.len(),
    ensures
        select(s, middle_mask(s, k), true).len() == k,
        select(s, middle_mask(s, k), false).len() == s.len() - k,
{
    let mask = middle_mask(s, k);
    let lo = (s.len() - k) / 2;
    let hi = s.len() - ((s.len() - k) - lo);
    lemma_select_len(s, mask, true);
    lemma_select_len(s, mask, false);
    lemma_mask_count_total(mask);
    lemma_middle_mask_count(s, k, s.len() as int);
    assert(mask.take(s.len() as int) =~= mask);
    lemma_below_exact(s, true, lo);
    lemma_below_exact(s, true, hi);
}

// ---------------------------------------------------------------------------
// Laws of dropping
// ---------------------------------------------------------------------------

proof fn lemma_lowest_pos(s: Seq<i32>)
    requires
        s.len() > 0,
    ensures
        0 <= lowest_pos(s) < s.len(),
        forall|q: int| 0 <= q < s.len() ==> s[lowest_pos(s)] <= #[trigger] s[q],
    decreases s.len(),
{
    if s.len() > 1 {
        let t = s.drop_last();
        lemma_lowest_pos(t);
        assert forall|q: int| 0 <= q < s.len() implies s[lowest_pos(s)] <= #[trigger] s[q] by {
            if q < t.len() {
                assert(t[q] == s[q]);
            }
            assert(t[lowest_pos(t)] == s[lowest_pos(t)]);
        }
    }
}

/// Dropping the lowest `k` dice removes `k` of them (all, from a smaller
/// pool), loses none, and never drops a die above one that stays.
pub proof fn law_drop_lowest(s: Seq<i32>, k: nat)
    ensures
        after_dropping_lowest(s, k).to_multiset().add(dropped_lowest(s, k).to_multiset())
            == s.to_multiset(),
        after_dropping_lowest(s, k).len() == if k <= s.len() { s.len() - k } else { 0 },
        forall|x: i32, y: i32|
            dropped_lowest(s, k).contains(x) && after_dropping_lowest(s, k).contains(y) ==> x <= y,
    decreases k,
{
    broadcast use vstd::multiset::group_multiset_axioms;
    broadcast use vstd::seq_lib::lemma_multiset_commutative;

    if k == 0 || s.len() == 0 {
        assert(dropped_lowest(s, k) =~= Seq::<i32>::empty());
        assert(after_dropping_lowest(s, k).to_multiset().add(dropped_lowest(s, k).to_multiset())
            =~= s.to_multiset());
    } else {
        lemma_lowest_pos(s);
        let p = lowest_pos(s);
        let t = s.remove(p);
        law_drop_lowest(t, (k - 1) as nat);
        let a = after_dropping_lowest(t, (k - 1) as nat);
        let d = dropped_lowest(t, (k - 1) as nat);
        assert(after_dropping_lowest(s, k) == a);
        assert(dropped_lowest(s, k) == seq![s[p]] + d);
        assert(s.to_multiset() =~= t.to_multiset().insert(s[p]));
        assert((seq![s[p]] + d).to_multiset() =~= seq![s[p]].to_multiset().add(d.to_multiset()));
        assert(seq![s[p]].to_multiset() =~= Seq::<i32>::empty().push(s[p]).to_multiset());
        assert(a.to_multiset().add((seq![s[p]] + d).to_multiset()) =~= s.to_multiset());
        assert forall|x: i32, y: i32|
            dropped_lowest(s, k).contains(x) && after_dropping_lowest(s, k).contains(y) implies x <= y by {
            assert(a.to_multiset().count(y) > 0);
            assert(t.to_multiset().count(y) > 0);
            assert(t.contains(y));
            let q = choose|q: int| 0 <= q < t.len() && t[q] == y;
            assert(q < p ==> t[q] == s[q]);
            assert(q >= p ==> t[q] == s[q + 1]);
            let dd = seq![s[p]] + d;
            let w = choose|w: int| 0 <= w < dd.len() && dd[w] == x;
            if w > 0 {
                assert(d[w - 1] == x);
                assert(d.contains(x));
            }
        }
    }
}

// ---------------------------------------------------------------------------
// Laws of a rolled keep request
// ---------------------------------------------------------------------------

/// A roll of `NdS kK` (or `kl K`) with `K` below `N`: the result keeps
/// exactly `K` of the `N` dice rolled, loses none of them, keeps the highest
/// (the lowest with `kl`), and totals the kept dice.
pub proof fn law_keep_roll(d: DiceRoll, r: RollResult, k: u32, low: bool)
    requires
        d.modifiers@ == seq![if low { Modifier::KeepLow(k) } else { Modifier::KeepHigh(k) }],
        1 <= k < d.count,
        pool_outcome(r, d),
    ensures
        r.individual_rolls@.len() == k,
        r.dropped_rolls@.len() == d.count - k,
        exists|pool: Seq<i32>|
            pool.len() == d.count && in_die_range(pool, d.sides as int)
                && r.individual_rolls@.to_multiset().add(r.dropped_rolls@.to_multiset()) == pool.to_multiset(),
        forall|x: i32, y: i32|
            r.individual_rolls@.contains(x) && r.dropped_rolls@.contains(y) ==> if low {
                x <= y
            } else {
                x >= y
            },
        r.total == crate::dice::systems::wsum(r.individual_rolls@),
{
    let mods = d.modifiers@;
    assert(crate::dice::roller::is_counting(mods[0]));
    assert(crate::dice::roller::counting_only(mods));
    crate::dice::roller::lemma_pool_mods_inert(mods);
    assert(crate::dice::roller::math_fold(mods, crate::dice::systems::wsum(r.individual_rolls@), true)
        == crate::dice::systems::wsum(r.individual_rolls@));
    let pool = choose|pool: Seq<i32>|
        #![trigger keep_drop_fold(mods, pool, Seq::<i32>::empty())]
        pool.len() == d.count && in_die_range(pool, d.sides as int) && keep_drop_fold(
            mods,
            pool,
            Seq::<i32>::empty(),
        ) == Some((r.individual_rolls@, r.dropped_rolls@));
    assert(mods.drop_last() =~= Seq::<Modifier>::empty());
    assert(keep_drop_fold(mods.drop_last(), pool, Seq::<i32>::empty()) == Some((pool, Seq::<i32>::empty())));
    let mask = keep_mask(pool, k as nat, low);
    assert(r.individual_rolls@ == select(pool, mask, true));
    assert(r.dropped_rolls@ =~= select(pool, mask, false));
    law_keep_keeps_exactly_k(pool, k as nat, low);
    law_kept_and_dropped_are_the_pool(pool, mask);
    assert forall|x: i32, y: i32|
        r.individual_rolls@.contains(x) && r.dropped_rolls@.contains(y) implies if low {
            x <= y
        } else {
            x >= y
        } by {
        law_kept_outrank_dropped(pool, k as nat, low, x, y);
    }
}

/// Advantage and disadvantage cancel: adding `adv N` and `dis N` to any
/// request leaves its net advantage as it was.
pub proof fn law_advantage_cancels(mods: Seq<Modifier>, n: u32)
    ensures
        crate::dice::arith::advantage_level(
            mods.push(Modifier::Advantage(n)).push(Modifier::Disadvantage(n)),
        ) == crate::dice::arith::advantage_level(mods),
{
    let a = mods.push(Modifier::Advantage(n));
    let b = a.push(Modifier::Disadvantage(n));
    assert(a.drop_last() =~= mods);
    assert(b.drop_last() =~= a);
    assert(crate::dice::arith::advantage_level(a) == crate::dice::arith::advantage_level(mods) + n);
    assert(crate::dice::arith::advantage_level(b) == crate::dice::arith::advantage_level(a) - n);
}

/// Success counting: a roll of `NdS tT fF` reports as successes the number
/// of dice at or above `T` less the number at or below `F`, and as failures
/// the number at or below `F`; the dice are all kept.
pub proof fn law_target_failure_count(d: DiceRoll, r: RollResult, t: u32, f: u32)
    requires
        d.modifiers@ == seq![Modifier::Target(t), Modifier::Failure(f)],
        t <= i32::MAX,
        f <= i32::MAX,
        d.count <= 500,
        pool_outcome(r, d),
    ensures
        r.individual_rolls@.len() == d.count,
        r.dropped_rolls@.len() == 0,
        r.successes == Some(
            (count_in_range(r.individual_rolls@, t as int, i32::MAX as int) - count_in_range(
                r.individual_rolls@,
                i32::MIN as int,
                f as int,
            )) as i32,
        ),
        r.failures == Some(count_in_range(r.individual_rolls@, i32::MIN as int, f as int) as i32),
{
    let mods = d.modifiers@;
    let kept = r.individual_rolls@;
    let pool = choose|pool: Seq<i32>|
        #![trigger keep_drop_fold(mods, pool, Seq::<i32>::empty())]
        pool.len() == d.count && in_die_range(pool, d.sides as int) && keep_drop_fold(
            mods,
            pool,
            Seq::<i32>::empty(),
        ) == Some((r.individual_rolls@, r.dropped_rolls@));
    assert(mods.drop_last() =~= seq![Modifier::Target(t)]);
    assert(mods.drop_last().drop_last() =~= Seq::<Modifier>::empty());
    assert(keep_drop_fold(mods.drop_last().drop_last(), pool, Seq::<i32>::empty()) == Some((pool, Seq::<i32>::empty())));
    assert(keep_drop_fold(mods.drop_last(), pool, Seq::<i32>::empty()) == Some((pool, Seq::<i32>::empty())));
    assert(kept == pool);
    let ts = count_in_range(kept, t as int, i32::MAX as int);
    let fs = count_in_range(kept, i32::MIN as int, f as int);
    lemma_count_at_most(kept, t as int, i32::MAX as int);
    lemma_count_at_most(kept, i32::MIN as int, f as int);
    assert(tally(mods.drop_last().drop_last(), kept) == (None::<i32>, None::<i32>));
    assert(tally(mods.drop_last(), kept) == (Some(ts as i32), None::<i32>));
    assert(tally(mods, kept) == (Some(ts as i32), Some(fs as i32)));
}

/// A count over a pool is at most its size.
proof fn lemma_count_at_most(s: Seq<i32>, lo: int, hi: int)
    ensures
        count_in_range(s, lo, hi) <= s.len(),
    decreases s.len(),
{
    if s.len() > 0 {
        lemma_count_at_most(s.drop_last(), lo, hi);
    }
}

/// Indefinite explosions add at most 100 dice to a roll; when every die
/// explodes (one-sided dice and no higher threshold), exactly 100 are added
/// and the first note says that the cap was reached.
pub proof fn law_explosion_cap(d: DiceRoll, r: RollResult)
    requires
        explode_request(d),
        d.modifiers@[0] is ExplodeIndefinite,
        explode_outcome(r, d),
    ensures
        r.individual_rolls@.len() <= d.count + 100,
        d.sides == 1 && explode_threshold(d) <= 1 ==> r.individual_rolls@.len() == d.count + 100
            && notes_of(r)[0] == "Maximum explosions reached (100)"@,
{
    let rolls = r.individual_rolls@;
    if d.sides == 1 && explode_threshold(d) <= 1 {
        assert forall|i: int| 0 <= i < rolls.len() implies explode_threshold(d) <= #[trigger] rolls[i] <= i32::MAX by {}
        lemma_count_all(rolls, explode_threshold(d), i32::MAX as int);
    }
}

// ---------------------------------------------------------------------------
// Laws of the game-system readings
// ---------------------------------------------------------------------------

/// Mothership: of the same two dice, advantage never keeps a worse reading
/// than disadvantage, and keeps the best reading of the two.
pub proof fn law_mothership_advantage_not_worse(a: i32, b: i32, stat: u32)
    ensures
        crate::dice::handlers::mothership_rank(crate::dice::handlers::mothership_pick(a, b, stat, true), stat)
            <= crate::dice::handlers::mothership_rank(crate::dice::handlers::mothership_pick(a, b, stat, false), stat),
        crate::dice::handlers::mothership_rank(crate::dice::handlers::mothership_pick(a, b, stat, true), stat)
            <= crate::dice::handlers::mothership_rank(a, stat),
        crate::dice::handlers::mothership_rank(crate::dice::handlers::mothership_pick(a, b, stat, true), stat)
            <= crate::dice::handlers::mothership_rank(b, stat),
{
}

/// WFRP: a roll of 01-05 always succeeds with at least +1 SL, a roll of
/// 96-00 always fails with at most -1 SL, and otherwise the test succeeds
/// exactly when the roll is at or under the target.
pub proof fn law_wfrp_bands(target: i32, roll: i32)
    requires
        0 <= target,
        1 <= roll <= 100,
    ensures
        roll <= 5 ==> crate::dice::systems::wfrp_spec(target, roll).success
            && crate::dice::systems::wfrp_spec(target, roll).success_levels >= 1,
        roll >= 96 ==> !crate::dice::systems::wfrp_spec(target, roll).success
            && crate::dice::systems::wfrp_spec(target, roll).success_levels <= -1,
        6 <= roll <= 95 ==> (crate::dice::systems::wfrp_spec(target, roll).success <==> roll <= target),
        crate::dice::systems::wfrp_spec(target, roll).success_levels == if roll <= 5 {
            if target / 10 - roll / 10 > 1 { target / 10 - roll / 10 } else { 1 }
        } else if roll >= 96 {
            if target / 10 - roll / 10 < -1 { target / 10 - roll / 10 } else { -1 }
        } else {
            target / 10 - roll / 10
        },
{
}

} // verus!
