use vstd::prelude::*;

use crate::types::{amount_sum, proposed_total, released_sum, EscrowMilestone, Milestone};

verus! {

/// Replacing one milestone changes the sums by the difference it makes.
pub proof fn lemma_sums_update(ms: Seq<EscrowMilestone>, i: int, m: EscrowMilestone)
    requires
        0 <= i < ms.len(),
    ensures
        amount_sum(ms.update(i, m)) + ms[i].amount == amount_sum(ms) + m.amount,
        released_sum(ms.update(i, m)) + (if ms[i].released {
            ms[i].amount as nat
        } else {
            0
        }) == released_sum(ms) + (if m.released {
            m.amount as nat
        } else {
            0
        }),
    decreases ms.len(),
{
    let u = ms.update(i, m);
    if i == ms.len() - 1 {
        assert(u.drop_last() =~= ms.drop_last());
    } else {
        lemma_sums_update(ms.drop_last(), i, m);
        assert(u.drop_last() =~= ms.drop_last().update(i, m));
    }
}

/// With no milestone released, nothing has been released.
pub proof fn lemma_released_sum_none(ms: Seq<EscrowMilestone>)
    requires
        forall|i: int| 0 <= i < ms.len() ==> !(#[trigger] ms[i]).released,
    ensures
        released_sum(ms) == 0,
    decreases ms.len(),
{
    if ms.len() > 0 {
        lemma_released_sum_none(ms.drop_last());
    }
}

/// What has been released never exceeds the milestones' total.
pub proof fn lemma_released_sum_bounded(ms: Seq<EscrowMilestone>)
    ensures
        released_sum(ms) <= amount_sum(ms),
    decreases ms.len(),
{
    if ms.len() > 0 {
        lemma_released_sum_bounded(ms.drop_last());
    }
}

/// Removing an element from a sequence without duplicates removes it from its set.
pub proof fn lemma_remove_to_set<A>(s: Seq<A>, j: int)
    requires
        0 <= j < s.len(),
        s.no_duplicates(),
    ensures
        s.remove(j).to_set() == s.to_set().remove(s[j]),
        s.remove(j).no_duplicates(),
{
    let r = s.remove(j);
    assert forall|x: A| r.to_set().contains(x) <==> s.to_set().remove(s[j]).contains(x) by {
        if r.contains(x) {
            let k = choose|k: int| 0 <= k < r.len() && r[k] == x;
            if k < j {
                assert(s[k] == x);
            } else {
                assert(s[k + 1] == x);
            }
        }
        if s.contains(x) && x != s[j] {
            let k = choose|k: int| 0 <= k < s.len() && s[k] == x;
            if k < j {
                assert(r[k] == x);
            } else {
                assert(r[k - 1] == x);
            }
        }
    }
    assert(r.to_set() =~= s.to_set().remove(s[j]));
    assert forall|a: int, b: int| 0 <= a < r.len() && 0 <= b < r.len() && a != b implies r[a]
        != r[b] by {
        let sa = if a < j {
            a
        } else {
            a + 1
        };
        let sb = if b < j {
            b
        } else {
            b + 1
        };
        assert(s[sa] != s[sb]);
    }
}

/// Appending an element that is not yet present keeps a sequence free of duplicates.
pub proof fn lemma_push_to_set<A>(s: Seq<A>, x: A)
    requires
        s.no_duplicates(),
        !s.contains(x),
    ensures
        s.push(x).to_set() == s.to_set().insert(x),
        s.push(x).no_duplicates(),
{
    s.lemma_push_to_set_commute(x);
    let p = s.push(x);
    assert forall|a: int, b: int| 0 <= a < p.len() && 0 <= b < p.len() && a != b implies p[a]
        != p[b] by {
        if a == s.len() {
            assert(s[b] == p[b]);
        } else if b == s.len() {
            assert(s[a] == p[a]);
        } else {
            assert(s[a] == p[a] && s[b] == p[b]);
        }
    }
}

/// The sums over a prefix grow by the next milestone.
pub proof fn lemma_sums_step(ms: Seq<EscrowMilestone>, i: int)
    requires
        0 <= i < ms.len(),
    ensures
        amount_sum(ms.take(i + 1)) == amount_sum(ms.take(i)) + ms[i].amount,
        released_sum(ms.take(i + 1)) == released_sum(ms.take(i)) + if ms[i].released {
            ms[i].amount as nat
        } else {
            0
        },
{
    assert(ms.take(i + 1).drop_last() =~= ms.take(i));
}

/// A prefix's amounts never exceed the whole's.
pub proof fn lemma_amount_sum_prefix(ms: Seq<EscrowMilestone>, n: int)
    requires
        0 <= n <= ms.len(),
    ensures
        amount_sum(ms.take(n)) <= amount_sum(ms),
    decreases ms.len() - n,
{
    if n < ms.len() {
        lemma_amount_sum_prefix(ms, n + 1);
        lemma_sums_step(ms, n);
    } else {
        assert(ms.take(n) =~= ms);
    }
}

pub proof fn lemma_proposed_total_prefix(ms: Seq<Milestone>, n: int)
    requires
        0 <= n <= ms.len(),
    ensures
        proposed_total(ms.take(n)) <= proposed_total(ms),
    decreases ms.len() - n,
{
    if n < ms.len() {
        lemma_proposed_total_prefix(ms, n + 1);
        assert(ms.take(n + 1).drop_last() =~= ms.take(n));
    } else {
        assert(ms.take(n) =~= ms);
    }
}

pub proof fn lemma_opened_sum(ms: Seq<EscrowMilestone>, proposed: Seq<Milestone>)
    requires
        ms.len() == proposed.len(),
        forall|i: int| 0 <= i < ms.len() ==> (#[trigger] ms[i]).amount == proposed[i].amount,
    ensures
        amount_sum(ms) == proposed_total(proposed),
    decreases ms.len(),
{
    if ms.len() > 0 {
        lemma_opened_sum(ms.drop_last(), proposed.drop_last());
    }
}

} // verus!
