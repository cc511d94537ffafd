use vstd::prelude::*;

use crate::event_log::{appended, EVENT_LOG_CAPACITY};
use crate::types::{
    amount_sum, EscrowAccount, EscrowError, EscrowEvent, EscrowMilestone, EscrowState, Milestone,
    Party, proposed_total,
};

verus! {

/// An escrow whose deposit address is still being derived.
#[derive(Debug)]
pub struct PendingCreate {
    pub escrow_id: u64,
    pub listing_id: u64,
    pub buyer: Party,
    pub seller: Party,
    pub total_amount: u64,
    pub milestones: Vec<EscrowMilestone>,
}

impl PendingCreate {
    pub open spec fn valid(&self) -> bool {
        let ms = self.milestones@;
        &&& ms.len() > 0
        &&& self.total_amount > 0
        &&& amount_sum(ms) == self.total_amount
        &&& forall|i: int| 0 <= i < ms.len() ==> #[trigger] is_fresh(ms[i])
    }
}

/// The storage slot of one escrow id.
#[derive(Debug)]
pub enum Slot {
    /// Validated, waiting for its deposit address.
    Creating(PendingCreate),
    /// A committed escrow record.
    Active(EscrowAccount),
    /// The id was given out but creation failed; it is never reused.
    Abandoned,
}

/// A milestone that has been neither completed nor released.
pub open spec fn is_fresh(m: EscrowMilestone) -> bool {
    &&& !m.completed
    &&& !m.released
    &&& m.completed_at is None
    &&& m.released_at is None
}

/// The escrow milestones opened from proposed ones: same terms, nothing done yet.
pub open spec fn opened_from(ms: Seq<EscrowMilestone>, proposed: Seq<Milestone>) -> bool {
    &&& ms.len() == proposed.len()
    &&& forall|i: int|
        0 <= i < ms.len() ==> {
            &&& (#[trigger] ms[i]).description == proposed[i].description
            &&& ms[i].amount == proposed[i].amount
            &&& ms[i].deadline == proposed[i].deadline
            &&& is_fresh(ms[i])
        }
}

/// What the engine holds, seen as mathematical values.
pub struct EngineModel {
    /// The engine's own identity; it completes milestones whose deadline passed.
    pub service: Party,
    /// Slot `k` belongs to escrow id `k + 1`.
    pub slots: Seq<Slot>,
    /// Escrows with a deposit in flight.
    pub deposit_claims: Set<u64>,
    /// Milestones with a payment in flight, as (escrow id, milestone index).
    pub release_claims: Set<(u64, usize)>,
    /// The audit trail, oldest first.
    pub events: Seq<EscrowEvent>,
}

impl EngineModel {
    /// The committed record of escrow `id`, if there is one.
    pub open spec fn record(self, id: u64) -> Option<EscrowAccount> {
        if 1 <= id && id <= self.slots.len() {
            match self.slots[id - 1] {
                Slot::Active(a) => Some(a),
                _ => None,
            }
        } else {
            None
        }
    }

    /// The id the next escrow will get.
    pub open spec fn next_id(self) -> nat {
        self.slots.len() + 1
    }

    pub open spec fn slot_wf(self, k: int) -> bool {
        match self.slots[k] {
            Slot::Active(a) => a.id == k + 1 && a.well_formed(),
            Slot::Creating(p) => p.escrow_id == k + 1 && p.valid(),
            Slot::Abandoned => true,
        }
    }

    /// The invariants that hold between any two operations.
    pub open spec fn wf(self) -> bool {
        &&& forall|k: int| 0 <= k < self.slots.len() ==> #[trigger] self.slot_wf(k)
        &&& self.deposit_claims.finite()
        &&& self.release_claims.finite()
        &&& forall|id: u64| #[trigger]
            self.deposit_claims.contains(id) ==> self.deposit_claim_ok(id)
        &&& forall|id: u64, i: usize| #[trigger]
            self.release_claims.contains((id, i)) ==> self.release_claim_ok(id, i)
        &&& self.events.len() <= EVENT_LOG_CAPACITY
    }

    /// A deposit may be in flight only on a committed escrow that is still `Created`.
    pub open spec fn deposit_claim_ok(self, id: u64) -> bool {
        &&& self.record(id) is Some
        &&& self.record(id)->0.state == EscrowState::Created
    }

    /// A payout may be in flight only on a completed milestone not yet paid out.
    pub open spec fn release_claim_ok(self, id: u64, i: usize) -> bool {
        let a = self.record(id)->0;
        &&& self.record(id) is Some
        &&& i < a.milestones@.len()
        &&& a.milestones@[i as int].completed
        &&& !a.milestones@[i as int].released
    }

    /// The model with `e` appended to the audit trail.
    pub open spec fn log(self, e: EscrowEvent) -> EngineModel {
        EngineModel { events: appended(self.events, e), ..self }
    }

    /// The model with slot `id - 1` replaced.
    pub open spec fn with_slot(self, id: u64, s: Slot) -> EngineModel {
        EngineModel { slots: self.slots.update(id - 1, s), ..self }
    }

    /// Why opening an escrow with these terms is refused, if it is.
    pub open spec fn create_error(total_amount: u64, milestones: Seq<Milestone>) -> Option<
        EscrowError,
    > {
        if total_amount == 0 || milestones.len() == 0 || proposed_total(milestones)
            != total_amount {
            Some(EscrowError::Validation)
        } else {
            None
        }
    }
}

/// A milestone that may be completed and paid out automatically at `now`.
pub open spec fn auto_release_due(a: EscrowAccount, index: usize, now: u64) -> bool {
    &&& index < a.milestones@.len()
    &&& !a.milestones@[index as int].completed
    &&& a.milestones@[index as int].deadline <= now
    &&& (a.state == EscrowState::Locked || a.state == EscrowState::MilestoneDone)
}

/// A timer to register: at its deadline, milestone `milestone_index` of escrow `escrow_id`
/// is released automatically.
#[derive(Clone, Copy, Debug, PartialEq, Eq, Structural)]
pub struct ReleaseTimer {
    pub escrow_id: u64,
    pub milestone_index: usize,
    pub delay_seconds: u64,
}

/// Timestamps count nanoseconds; timer delays count seconds.
pub const NANOS_PER_SECOND: u64 = 1_000_000_000;

/// The timers owed to the first `ms.len()` milestones of escrow `escrow_id`:
/// one for each milestone not yet completed whose deadline lies after `now`, in order.
/// The delay is rounded up to whole seconds, so that no timer fires before its deadline.
pub open spec fn due_timers(escrow_id: u64, ms: Seq<EscrowMilestone>, now: u64) -> Seq<
    ReleaseTimer,
>
    decreases ms.len(),
{
    if ms.len() == 0 {
        Seq::empty()
    } else {
        let rest = due_timers(escrow_id, ms.drop_last(), now);
        let m = ms.last();
        if !m.completed && m.deadline > now {
            rest.push(
                ReleaseTimer {
                    escrow_id,
                    milestone_index: (ms.len() - 1) as usize,
                    delay_seconds: ((m.deadline - now - 1) / NANOS_PER_SECOND as int + 1) as u64,
                },
            )
        } else {
            rest
        }
    }
}

/// Timer `t`, set at `now`, fires no earlier than the deadline of its milestone among `ms`.
pub open spec fn fires_on_time(t: ReleaseTimer, ms: Seq<EscrowMilestone>, now: u64) -> bool {
    &&& t.milestone_index < ms.len()
    &&& now + t.delay_seconds * NANOS_PER_SECOND >= ms[t.milestone_index as int].deadline
}

/// Records of the escrows opened for listing `listing_id`.
pub open spec fn of_listing(listing_id: u64) -> spec_fn(EscrowAccount) -> bool {
    |a: EscrowAccount| a.listing_id == listing_id
}

/// Records of the escrows whose buyer is `buyer`.
pub open spec fn of_buyer(buyer: Seq<char>) -> spec_fn(EscrowAccount) -> bool {
    |a: EscrowAccount| a.buyer@ == buyer
}

/// The committed records among `slots` that satisfy `keep`, in id order.
pub open spec fn records_where(slots: Seq<Slot>, keep: spec_fn(EscrowAccount) -> bool) -> Seq<
    EscrowAccount,
>
    decreases slots.len(),
{
    if slots.len() == 0 {
        Seq::empty()
    } else {
        let rest = records_where(slots.drop_last(), keep);
        match slots.last() {
            Slot::Active(a) => if keep(a) {
                rest.push(a)
            } else {
                rest
            },
            _ => rest,
        }
    }
}

impl EscrowAccount {
    /// The record once its full amount is deposited at `now`.
    pub open spec fn funded(self, now: u64) -> EscrowAccount {
        EscrowAccount {
            locked_amount: self.total_amount,
            state: EscrowState::Locked,
            updated_at: now,
            ..self
        }
    }

    /// `next` is this record with milestone `index` completed at `now`.
    pub open spec fn completes_to(self, next: EscrowAccount, index: usize, now: u64) -> bool {
        let m = self.milestones@[index as int];
        &&& next.milestones@ == self.milestones@.update(
            index as int,
            EscrowMilestone { completed: true, completed_at: Some(now), ..m },
        )
        &&& next == EscrowAccount {
            milestones: next.milestones,
            state: EscrowState::MilestoneDone,
            updated_at: now,
            ..self
        }
    }

    /// `next` is this record with the funds of milestone `index` paid out at `now`.
    pub open spec fn releases_to(self, next: EscrowAccount, index: usize, now: u64) -> bool {
        let m = self.milestones@[index as int];
        &&& next.milestones@ == self.milestones@.update(
            index as int,
            EscrowMilestone { released: true, released_at: Some(now), ..m },
        )
        &&& next == EscrowAccount {
            milestones: next.milestones,
            released_amount: (self.released_amount + m.amount) as u64,
            locked_amount: (self.locked_amount - m.amount) as u64,
            state: if next.all_released() {
                EscrowState::Released
            } else {
                self.state
            },
            updated_at: now,
            ..self
        }
    }
}

impl EngineModel {
    /// The pending creation of escrow `id`, if its address is being derived.
    pub open spec fn pending(self, id: u64) -> Option<PendingCreate> {
        if 1 <= id && id <= self.slots.len() {
            match self.slots[id - 1] {
                Slot::Creating(p) => Some(p),
                _ => None,
            }
        } else {
            None
        }
    }

    /// Why a deposit of `amount` by `depositor` into escrow `id` is refused, if it is.
    pub open spec fn deposit_error(self, id: u64, amount: u64, depositor: Party) -> Option<
        EscrowError,
    > {
        let a = self.record(id)->0;
        if self.deposit_claims.contains(id) {
            Some(EscrowError::Conflict)
        } else if self.record(id) is None {
            Some(EscrowError::NotFound)
        } else if a.buyer@ != depositor@ {
            Some(EscrowError::Authorization)
        } else if a.state != EscrowState::Created {
            Some(EscrowError::State)
        } else if amount != a.total_amount {
            Some(EscrowError::Validation)
        } else {
            None
        }
    }

    /// Why completing milestone `index` of escrow `id` by `caller` is refused, if it is.
    pub open spec fn complete_error(self, id: u64, index: usize, caller: Party) -> Option<
        EscrowError,
    > {
        let a = self.record(id)->0;
        if self.release_claims.contains((id, index)) {
            Some(EscrowError::Conflict)
        } else if self.record(id) is None {
            Some(EscrowError::NotFound)
        } else if a.seller@ != caller@ {
            Some(EscrowError::Authorization)
        } else if a.state != EscrowState::Locked && a.state != EscrowState::MilestoneDone {
            Some(EscrowError::State)
        } else if index >= a.milestones@.len() {
            Some(EscrowError::NotFound)
        } else if a.milestones@[index as int].completed {
            Some(EscrowError::State)
        } else {
            None
        }
    }

    /// Why paying out milestone `index` of escrow `id` at the request of `caller` is refused,
    /// if it is.
    pub open spec fn release_error(self, id: u64, index: usize, caller: Party) -> Option<
        EscrowError,
    > {
        let a = self.record(id)->0;
        if self.release_claims.contains((id, index)) {
            Some(EscrowError::Conflict)
        } else if self.record(id) is None {
            Some(EscrowError::NotFound)
        } else if a.buyer@ != caller@ && a.seller@ != caller@ {
            Some(EscrowError::Authorization)
        } else if index >= a.milestones@.len() {
            Some(EscrowError::NotFound)
        } else if !a.milestones@[index as int].completed {
            Some(EscrowError::State)
        } else if a.milestones@[index as int].released {
            Some(EscrowError::State)
        } else {
            None
        }
    }

    /// Why a dispute of escrow `id` raised by `caller` is refused, if it is.
    pub open spec fn dispute_error(self, id: u64, caller: Party) -> Option<EscrowError> {
        let a = self.record(id)->0;
        if self.record(id) is None {
            Some(EscrowError::NotFound)
        } else if a.buyer@ != caller@ && a.seller@ != caller@ {
            Some(EscrowError::Authorization)
        } else if a.state != EscrowState::Locked && a.state != EscrowState::MilestoneDone {
            Some(EscrowError::State)
        } else {
            None
        }
    }

    /// Whether milestone `index` of escrow `id` is due for automatic release at `now`.
    pub open spec fn auto_due(self, id: u64, index: usize, now: u64) -> bool {
        &&& self.record(id) is Some
        &&& auto_release_due(self.record(id)->0, index, now)
    }

    /// Why a stored record cannot be re-admitted, if it cannot.
    pub open spec fn restore_error(self, a: EscrowAccount) -> Option<EscrowError> {
        if a.id <= self.slots.len() {
            Some(EscrowError::State)
        } else if !a.well_formed() {
            Some(EscrowError::Validation)
        } else {
            None
        }
    }

    /// The model once record `a` is re-admitted; the ids it skips over are abandoned.
    pub open spec fn restored(self, a: EscrowAccount) -> EngineModel {
        let gap = Seq::new((a.id - 1 - self.slots.len()) as nat, |k: int| Slot::Abandoned);
        EngineModel { slots: (self.slots + gap).push(Slot::Active(a)), ..self }
    }

    /// The model once every id below `next_id` has been given out, the new ones abandoned.
    pub open spec fn skipped_to(self, next_id: u64) -> EngineModel {
        let gap = if next_id > self.next_id() {
            (next_id - self.next_id()) as nat
        } else {
            0
        };
        EngineModel {
            slots: self.slots + Seq::new(gap, |k: int| Slot::Abandoned),
            ..self
        }
    }

    /// The model with `id` added to the escrows whose deposit is in flight.
    pub open spec fn claim_deposit(self, id: u64) -> EngineModel {
        EngineModel { deposit_claims: self.deposit_claims.insert(id), ..self }
    }

    /// The model with `id` dropped from the escrows whose deposit is in flight.
    pub open spec fn unclaim_deposit(self, id: u64) -> EngineModel {
        EngineModel { deposit_claims: self.deposit_claims.remove(id), ..self }
    }

    /// The model with milestone `index` of escrow `id` marked as being paid out.
    pub open spec fn claim_release(self, id: u64, index: usize) -> EngineModel {
        EngineModel { release_claims: self.release_claims.insert((id, index)), ..self }
    }

    /// The model with the payout claim on milestone `index` of escrow `id` dropped.
    pub open spec fn unclaim_release(self, id: u64, index: usize) -> EngineModel {
        EngineModel { release_claims: self.release_claims.remove((id, index)), ..self }
    }
}

/// Message of the key-derivation failure raised when the derived key is too short.
pub open spec fn short_key_text() -> Seq<char> {
    "derived public key is too short"@
}

/// The invariants carry over from `m` to `n` when every slot of `n` is either kept from `m`
/// or well-formed itself, and every claim of `n` is either a claim of `m` on a record that
/// did not change, or one that `n` supports on its own.
pub proof fn lemma_wf_carry(m: EngineModel, n: EngineModel)
    requires
        m.wf(),
        m.slots.len() <= n.slots.len(),
        forall|k: int|
            0 <= k < n.slots.len() ==> (k < m.slots.len() && n.slots[k] == m.slots[k])
                || #[trigger] n.slot_wf(k),
        n.deposit_claims.finite(),
        n.release_claims.finite(),
        forall|x: u64| #[trigger]
            n.deposit_claims.contains(x) ==> (m.deposit_claims.contains(x) && n.record(x)
                == m.record(x)) || n.deposit_claim_ok(x),
        forall|x: u64, j: usize| #[trigger]
            n.release_claims.contains((x, j)) ==> (m.release_claims.contains((x, j)) && n.record(
                x,
            ) == m.record(x)) || n.release_claim_ok(x, j),
        n.events.len() <= EVENT_LOG_CAPACITY,
    ensures
        n.wf(),
{
    assert forall|k: int| 0 <= k < n.slots.len() implies #[trigger] n.slot_wf(k) by {
        if k < m.slots.len() && n.slots[k] == m.slots[k] {
            assert(m.slot_wf(k));
        }
    }
    assert forall|x: u64| #[trigger] n.deposit_claims.contains(x) implies n.deposit_claim_ok(
        x,
    ) by {
        if m.deposit_claims.contains(x) && n.record(x) == m.record(x) {
            assert(m.deposit_claim_ok(x));
        }
    }
    assert forall|x: u64, j: usize| #[trigger] n.release_claims.contains((x, j)) implies n.release_claim_ok(
        x,
        j,
    ) by {
        if m.release_claims.contains((x, j)) && n.record(x) == m.record(x) {
            assert(m.release_claim_ok(x, j));
        }
    }
}

/// Abandoning a slot that is being created keeps the invariants.
pub proof fn lemma_wf_abandon(m: EngineModel, id: u64)
    requires
        m.wf(),
        m.pending(id) is Some,
    ensures
        m.with_slot(id, Slot::Abandoned).wf(),
{
    lemma_wf_carry(m, m.with_slot(id, Slot::Abandoned));
}

/// Putting a well-formed record into slot `id - 1`, consistent with the claims on it,
/// keeps the invariants.
pub proof fn lemma_wf_replace(m: EngineModel, id: u64, a: EscrowAccount)
    requires
        m.wf(),
        1 <= id <= m.slots.len(),
        a.id == id,
        a.well_formed(),
        m.deposit_claims.contains(id) ==> a.state == EscrowState::Created,
        forall|i: usize| #[trigger]
            m.release_claims.contains((id, i)) ==> {
                &&& i < a.milestones@.len()
                &&& a.milestones@[i as int].completed
                &&& !a.milestones@[i as int].released
            },
    ensures
        m.with_slot(id, Slot::Active(a)).wf(),
{
    lemma_wf_carry(m, m.with_slot(id, Slot::Active(a)));
}

/// Appending a well-formed slot keeps the invariants.
pub proof fn lemma_wf_push(m: EngineModel, s: Slot)
    requires
        m.wf(),
        (EngineModel { slots: m.slots.push(s), ..m }).slot_wf(m.slots.len() as int),
    ensures
        (EngineModel { slots: m.slots.push(s), ..m }).wf(),
{
    lemma_wf_carry(m, EngineModel { slots: m.slots.push(s), ..m });
}

/// Re-admitting a record that fits keeps the invariants.
pub proof fn lemma_wf_restored(m: EngineModel, a: EscrowAccount)
    requires
        m.wf(),
        m.restore_error(a) is None,
    ensures
        m.restored(a).wf(),
{
    let n = m.restored(a);
    assert forall|k: int| 0 <= k < n.slots.len() implies (k < m.slots.len() && n.slots[k]
        == m.slots[k]) || #[trigger] n.slot_wf(k) by {}
    lemma_wf_carry(m, n);
}

/// Abandoning ids past the last slot keeps the invariants.
pub proof fn lemma_wf_skipped(m: EngineModel, next_id: u64)
    requires
        m.wf(),
    ensures
        m.skipped_to(next_id).wf(),
{
    let n = m.skipped_to(next_id);
    assert forall|k: int| 0 <= k < n.slots.len() implies (k < m.slots.len() && n.slots[k]
        == m.slots[k]) || #[trigger] n.slot_wf(k) by {}
    lemma_wf_carry(m, n);
}

/// Logging an event keeps the invariants.
pub proof fn lemma_wf_log(m: EngineModel, e: EscrowEvent)
    requires
        m.wf(),
    ensures
        m.log(e).wf(),
{
    lemma_wf_carry(m, m.log(e));
}

/// Claiming a `Created` escrow for a deposit keeps the invariants.
pub proof fn lemma_wf_claim_deposit(m: EngineModel, id: u64)
    requires
        m.wf(),
        m.deposit_claim_ok(id),
    ensures
        m.claim_deposit(id).wf(),
{
    lemma_wf_carry(m, m.claim_deposit(id));
}

/// Claiming a completed, unpaid milestone for a payout keeps the invariants.
pub proof fn lemma_wf_claim_release(m: EngineModel, id: u64, index: usize)
    requires
        m.wf(),
        m.release_claim_ok(id, index),
    ensures
        m.claim_release(id, index).wf(),
{
    lemma_wf_carry(m, m.claim_release(id, index));
}

/// Dropping a deposit claim keeps the invariants.
pub proof fn lemma_wf_unclaim_deposit(m: EngineModel, id: u64)
    requires
        m.wf(),
    ensures
        m.unclaim_deposit(id).wf(),
{
    lemma_wf_carry(m, m.unclaim_deposit(id));
}

/// Dropping a payout claim keeps the invariants.
pub proof fn lemma_wf_unclaim_release(m: EngineModel, id: u64, index: usize)
    requires
        m.wf(),
    ensures
        m.unclaim_release(id, index).wf(),
{
    lemma_wf_carry(m, m.unclaim_release(id, index));
}

} // verus!
