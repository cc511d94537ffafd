use vstd::prelude::*;

use crate::model::{due_timers, EngineModel, Slot, NANOS_PER_SECOND};
use crate::types::{
    amount_sum, proposed_total, EscrowAccount, EscrowError, EscrowEvent, EscrowMilestone,
    EscrowState, Milestone, Party,
};

verus! {

/// Opening an escrow whose milestone amounts do not add up to its total is refused
/// as a validation error; `Engine::create_escrow` then leaves the engine unchanged,
/// so no record is created.
pub proof fn mismatched_milestones_are_rejected(total_amount: u64, milestones: Seq<Milestone>)
    requires
        proposed_total(milestones) != total_amount,
    ensures
        EngineModel::create_error(total_amount, milestones) == Some(EscrowError::Validation),
{
}

/// Every committed escrow's milestone amounts add up to its total.
pub proof fn committed_milestones_add_up(m: EngineModel, id: u64)
    requires
        m.wf(),
        m.record(id) is Some,
    ensures
        amount_sum(m.record(id)->0.milestones@) == m.record(id)->0.total_amount,
{
    assert(m.slot_wf(id - 1));
}

/// Once an escrow is funded, what is locked plus what was released is its total,
/// in every state the engine's operations can reach.
pub proof fn funded_amounts_are_conserved(m: EngineModel, id: u64)
    requires
        m.wf(),
        m.record(id) is Some,
        m.record(id)->0.state != EscrowState::Created,
    ensures
        m.record(id)->0.locked_amount + m.record(id)->0.released_amount
            == m.record(id)->0.total_amount,
{
    assert(m.slot_wf(id - 1));
}

/// Asking again for the funds of a milestone already paid out is a state error, for the
/// buyer and for the seller alike; since a refused request changes nothing, every further
/// request is refused the same way and no second transfer is ever handed out.
pub proof fn released_milestone_is_not_paid_twice(
    m: EngineModel,
    id: u64,
    index: usize,
    caller: Party,
)
    requires
        m.wf(),
        m.record(id) is Some,
        index < m.record(id)->0.milestones@.len(),
        m.record(id)->0.milestones@[index as int].released,
        caller@ == m.record(id)->0.buyer@ || caller@ == m.record(id)->0.seller@,
    ensures
        m.release_error(id, index, caller) == Some(EscrowError::State),
{
    assert(m.slot_wf(id - 1));
    if m.release_claims.contains((id, index)) {
        assert(!m.record(id)->0.milestones@[index as int].released);
    }
}

/// Once one request for a milestone's funds has been accepted, and until its transfer is
/// reported, a second request for it and a manual completion of it meet a conflict, and so
/// does its deadline timer (`Engine::auto_release_milestone` refuses a claimed milestone):
/// only one payout proceeds.
pub proof fn concurrent_payouts_conflict(
    m: EngineModel,
    id: u64,
    index: usize,
    first: Party,
    second: Party,
)
    requires
        m.wf(),
        m.release_error(id, index, first) is None,
    ensures
        m.claim_release(id, index).release_error(id, index, second) == Some(
            EscrowError::Conflict,
        ),
        m.claim_release(id, index).complete_error(id, index, second) == Some(
            EscrowError::Conflict,
        ),
        m.claim_release(id, index).release_claims.contains((id, index)),
{
}

/// A deposit whose ledger transfer fails leaves the escrow exactly as it was:
/// still `Created`, with nothing locked.
pub proof fn failed_deposit_changes_nothing(
    m: EngineModel,
    id: u64,
    amount: u64,
    depositor: Party,
)
    requires
        m.wf(),
        m.deposit_error(id, amount, depositor) is None,
    ensures
        m.claim_deposit(id).unclaim_deposit(id).record(id) == m.record(id),
        m.claim_deposit(id).unclaim_deposit(id).record(id)->0.state == EscrowState::Created,
        m.claim_deposit(id).unclaim_deposit(id).record(id)->0.locked_amount == 0,
{
    assert(m.slot_wf(id - 1));
}

/// A milestone the seller completed by hand is no longer due for automatic release:
/// a deadline timer that fires afterwards does nothing.
pub proof fn manual_completion_disarms_timer(
    m: EngineModel,
    id: u64,
    index: usize,
    seller: Party,
    b: EscrowAccount,
    at: u64,
    now: u64,
)
    requires
        m.wf(),
        m.complete_error(id, index, seller) is None,
        m.record(id)->0.completes_to(b, index, at),
    ensures
        !m.with_slot(id, Slot::Active(b)).log(
            EscrowEvent::MilestoneCompleted {
                escrow_id: id,
                milestone_index: index,
                completed_by: seller,
            },
        ).auto_due(id, index, now),
{
    let n = m.with_slot(id, Slot::Active(b)).log(
        EscrowEvent::MilestoneCompleted { escrow_id: id, milestone_index: index, completed_by: seller },
    );
    assert(n.record(id) == Some(b));
    assert(b.milestones@[index as int].completed);
}

/// An escrow's phase never moves back: depositing, completing a milestone and paying one
/// out each leave it at the same or a later phase.
pub proof fn phase_never_regresses(a: EscrowAccount, b: EscrowAccount, index: usize, now: u64)
    requires
        a.well_formed(),
        index < a.milestones@.len(),
    ensures
        a.state == EscrowState::Created ==> a.funded(now).state.rank() > a.state.rank(),
        a.state != EscrowState::Created && a.state != EscrowState::Released && a.completes_to(
            b,
            index,
            now,
        ) ==> b.state.rank() >= a.state.rank(),
        a.milestones@[index as int].completed && !a.milestones@[index as int].released
            && a.releases_to(b, index, now) ==> b.state.rank() >= a.state.rank(),
{
    if a.milestones@[index as int].completed && !a.milestones@[index as int].released {
        assert(a.state == EscrowState::MilestoneDone);
    }
}

/// Every timer scheduled for an escrow belongs to a milestone not yet completed whose
/// deadline lies ahead, and fires no earlier than that deadline: when it fires, the
/// milestone is due for automatic release unless it was completed in the meantime.
pub proof fn timers_never_fire_early(escrow_id: u64, ms: Seq<EscrowMilestone>, now: u64, j: int)
    requires
        ms.len() <= usize::MAX,
        0 <= j < due_timers(escrow_id, ms, now).len(),
    ensures
        ({
            let t = due_timers(escrow_id, ms, now)[j];
            let m = ms[t.milestone_index as int];
            &&& t.escrow_id == escrow_id
            &&& t.milestone_index < ms.len()
            &&& !m.completed
            &&& m.deadline > now
            &&& now + t.delay_seconds * NANOS_PER_SECOND >= m.deadline
        }),
    decreases ms.len(),
{
    let rest = due_timers(escrow_id, ms.drop_last(), now);
    if j < rest.len() {
        timers_never_fire_early(escrow_id, ms.drop_last(), now, j);
        assert(due_timers(escrow_id, ms, now)[j] == rest[j]);
        let i = rest[j].milestone_index as int;
        assert(ms[i] == ms.drop_last()[i]);
    } else {
        let m = ms.last();
        let d: int = m.deadline - now;
        let n: int = NANOS_PER_SECOND as int;
        let q: int = (d - 1) / n;
        let r: int = (d - 1) % n;
        assert(q * n + r == d - 1 && 0 <= r < n) by (nonlinear_arith)
            requires
                d >= 1,
                n > 0,
                q == (d - 1) / n,
                r == (d - 1) % n,
        {}
        assert((q + 1) * n >= d && q + 1 <= d) by (nonlinear_arith)
            requires
                q * n + r == d - 1,
                0 <= r < n,
                n >= 1,
                d >= 1,
                q >= 0,
        {}
        assert(due_timers(escrow_id, ms, now)[j].delay_seconds == q + 1);
        assert(due_timers(escrow_id, ms, now)[j].milestone_index == ms.len() - 1);
    }
}

} // verus!
