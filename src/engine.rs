use vstd::prelude::*;

use crate::address::{address_of, ecdsa_address, MIN_PUBLIC_KEY_LEN};
use crate::encoding::be_digits;
use crate::event_log::{newest_first, EventLog};
use crate::ledger::{deposit_memo_text, release_memo_text, PullTransfer, PushTransfer};
use crate::laws::timers_never_fire_early;
use crate::lemmas::{
    lemma_opened_sum, lemma_proposed_total_prefix, lemma_push_to_set, lemma_released_sum_bounded,
    lemma_released_sum_none, lemma_remove_to_set, lemma_sums_update,
};
use crate::model::{
    due_timers, fires_on_time, is_fresh, lemma_wf_abandon, lemma_wf_claim_deposit, lemma_wf_claim_release,
    lemma_wf_log, lemma_wf_push, lemma_wf_replace, lemma_wf_restored, lemma_wf_skipped, lemma_wf_unclaim_deposit,
    lemma_wf_unclaim_release, of_buyer, of_listing, opened_from,
    records_where, short_key_text, EngineModel, PendingCreate, ReleaseTimer, Slot,
    NANOS_PER_SECOND,
};
use crate::types::{
    proposed_total, same_records, EscrowAccount, EscrowError, EscrowEvent, EscrowMilestone,
    EscrowState, ExternalFailure, LedgerError, Milestone, Party,
};

verus! {

/// The escrow engine: owns every escrow record, validates each transition,
/// and tells its host which ledger transfers and key derivations to perform.
pub struct Engine {
    service: Party,
    /// Slot `k` belongs to escrow id `k + 1`. Ids are handed out in order and never reused,
    /// so a `Vec` gives the record store's point lookups. Persisting it is the host's I/O:
    /// an outside stable map could only hold these records through a serialising trait
    /// impl on them, which cannot stand here, so the host keeps a copy of each record in
    /// stable memory and hands them back through `restore_record`.
    slots: Vec<Slot>,
    deposit_claims: Vec<u64>,
    release_claims: Vec<(u64, usize)>,
    events: EventLog,
}

impl View for Engine {
    type V = EngineModel;

    closed spec fn view(&self) -> EngineModel {
        EngineModel {
            service: self.service,
            slots: self.slots@,
            deposit_claims: self.deposit_claims@.to_set(),
            release_claims: self.release_claims@.to_set(),
            events: self.events@,
        }
    }
}

impl Engine {
    pub closed spec fn wf(&self) -> bool {
        &&& self@.wf()
        &&& self.events.wf()
        &&& self.deposit_claims@.no_duplicates()
        &&& self.release_claims@.no_duplicates()
    }

    /// Every state an engine reaches through its operations satisfies the model's
    /// invariants, so the laws stated over `EngineModel` hold of it.
    pub proof fn lemma_reachable_well_formed(&self)
        requires
            self.wf(),
        ensures
            self@.wf(),
    {
    }

    /// An engine with no escrows; `service` is its own identity.
    pub fn new(service: Party) -> (r: Engine)
        ensures
            r.wf(),
            r@.service == service,
            r@.slots == Seq::<Slot>::empty(),
            r@.deposit_claims == Set::<u64>::empty(),
            r@.release_claims == Set::<(u64, usize)>::empty(),
            r@.events == Seq::<EscrowEvent>::empty(),
    {
        let r = Engine {
            service,
            slots: Vec::new(),
            deposit_claims: Vec::new(),
            release_claims: Vec::new(),
            events: EventLog::new(),
        };
        assert(r@.deposit_claims =~= Set::<u64>::empty());
        assert(r@.release_claims =~= Set::<(u64, usize)>::empty());
        r
    }

    /// Whether an id is left for another escrow.
    pub fn has_free_id(&self) -> (r: bool)
        ensures
            r == (self@.slots.len() + 1 < u64::MAX),
    {
        (self.slots.len() as u64) < u64::MAX - 1
    }

    /// Sum of the proposed milestone amounts, or `None` when it exceeds `u64::MAX`.
    fn milestone_sum(milestones: &Vec<Milestone>) -> (r: Option<u64>)
        ensures
            proposed_total(milestones@) <= u64::MAX ==> r == Some(proposed_total(milestones@) as u64),
            proposed_total(milestones@) > u64::MAX ==> r is None,
    {
        let mut sum: u64 = 0;
        let mut i: usize = 0;
        while i < milestones.len()
            invariant
                i <= milestones@.len(),
                sum == proposed_total(milestones@.take(i as int)),
            decreases milestones@.len() - i,
        {
            proof {
                assert(milestones@.take(i as int + 1).drop_last() =~= milestones@.take(i as int));
            }
            let amount = milestones[i].amount;
            if sum > u64::MAX - amount {
                proof {
                    lemma_proposed_total_prefix(milestones@, i as int + 1);
                }
                return None;
            }
            sum = sum + amount;
            i = i + 1;
        }
        assert(milestones@.take(i as int) =~= milestones@);
        Some(sum)
    }

    /// Validates the terms of a new escrow, with `caller` as its buyer, and gives it the next id.
    /// The host then derives the escrow's public key and hands it to `finish_create_escrow`.
    pub fn create_escrow(
        &mut self,
        listing_id: u64,
        seller: Party,
        total_amount: u64,
        milestones: Vec<Milestone>,
        caller: Party,
    ) -> (r: Result<u64, EscrowError>)
        requires
            old(self).wf(),
            old(self)@.slots.len() + 1 < u64::MAX,
        ensures
            final(self).wf(),
            match EngineModel::create_error(total_amount, milestones@) {
                Some(e) => r == Err::<u64, EscrowError>(e) && final(self)@ == old(self)@,
                None => {
                    &&& r == Ok::<u64, EscrowError>(old(self)@.next_id() as u64)
                    &&& final(self)@ == (EngineModel {
                        slots: old(self)@.slots.push(final(self)@.slots.last()),
                        ..old(self)@
                    })
                    &&& final(self)@.slots.last() matches Slot::Creating(p)
                    &&& p.escrow_id == old(self)@.next_id()
                    &&& p.listing_id == listing_id
                    &&& p.buyer == caller
                    &&& p.seller == seller
                    &&& p.total_amount == total_amount
                    &&& opened_from(p.milestones@, milestones@)
                },
            },
    {
        if total_amount == 0 || milestones.len() == 0 {
            return Err(EscrowError::Validation);
        }
        match Self::milestone_sum(&milestones) {
            None => {
                return Err(EscrowError::Validation);
            },
            Some(sum) => {
                if sum != total_amount {
                    return Err(EscrowError::Validation);
                }
            },
        }
        let escrow_id = self.slots.len() as u64 + 1;
        let mut opened: Vec<EscrowMilestone> = Vec::new();
        let mut i: usize = 0;
        while i < milestones.len()
            invariant
                i <= milestones@.len(),
                opened@.len() == i,
                forall|j: int|
                    0 <= j < i ==> {
                        &&& (#[trigger] opened@[j]).description == milestones@[j].description
                        &&& opened@[j].amount == milestones@[j].amount
                        &&& opened@[j].deadline == milestones@[j].deadline
                        &&& is_fresh(opened@[j])
                    },
            decreases milestones@.len() - i,
        {
            let m = &milestones[i];
            opened.push(
                EscrowMilestone {
                    description: m.description.clone(),
                    amount: m.amount,
                    deadline: m.deadline,
                    completed: false,
                    released: false,
                    completed_at: None,
                    released_at: None,
                },
            );
            i = i + 1;
        }
        proof {
            lemma_opened_sum(opened@, milestones@);
        }
        let pending = PendingCreate {
            escrow_id,
            listing_id,
            buyer: caller,
            seller,
            total_amount,
            milestones: opened,
        };
        self.slots.push(Slot::Creating(pending));
        proof {
            let m0 = old(self)@;
            assert(self@ == (EngineModel { slots: m0.slots.push(Slot::Creating(pending)), ..m0 }));
            assert(self@.slot_wf(m0.slots.len() as int));
            lemma_wf_push(m0, Slot::Creating(pending));
        }
        Ok(escrow_id)
    }
}

impl Engine {
    fn swap_slot(&mut self, id: u64, s: Slot) -> (prev: Slot)
        requires
            1 <= id <= old(self).slots@.len(),
        ensures
            prev == old(self).slots@[id - 1],
            final(self).slots@ == old(self).slots@.update(id - 1, s),
            final(self).service == old(self).service,
            final(self).deposit_claims == old(self).deposit_claims,
            final(self).release_claims == old(self).release_claims,
            final(self).events == old(self).events,
    {
        assert(self.slots.len() == self.slots@.len());
        let k = (id - 1) as usize;
        let mut s = s;
        std::mem::swap(&mut self.slots[k], &mut s);
        s
    }

    fn record_ref(&self, id: u64) -> (r: Option<&EscrowAccount>)
        ensures
            match r {
                Some(a) => self@.record(id) == Some(*a),
                None => self@.record(id) is None,
            },
    {
        if id == 0 || id > self.slots.len() as u64 {
            return None;
        }
        match &self.slots[(id - 1) as usize] {
            Slot::Active(a) => Some(a),
            _ => None,
        }
    }

    fn find_deposit_claim(&self, id: u64) -> (r: Option<usize>)
        ensures
            match r {
                Some(j) => j < self.deposit_claims@.len() && self.deposit_claims@[j as int] == id,
                None => !self.deposit_claims@.contains(id),
            },
    {
        let mut j: usize = 0;
        while j < self.deposit_claims.len()
            invariant
                j <= self.deposit_claims@.len(),
                forall|k: int| 0 <= k < j ==> self.deposit_claims@[k] != id,
            decreases self.deposit_claims@.len() - j,
        {
            if self.deposit_claims[j] == id {
                return Some(j);
            }
            j = j + 1;
        }
        None
    }

    fn find_release_claim(&self, id: u64, index: usize) -> (r: Option<usize>)
        ensures
            match r {
                Some(j) => j < self.release_claims@.len() && self.release_claims@[j as int] == (
                id,
                index,
                ),
                None => !self.release_claims@.contains((id, index)),
            },
    {
        let mut j: usize = 0;
        while j < self.release_claims.len()
            invariant
                j <= self.release_claims@.len(),
                forall|k: int| 0 <= k < j ==> self.release_claims@[k] != (id, index),
            decreases self.release_claims@.len() - j,
        {
            let (e, i) = self.release_claims[j];
            if e == id && i == index {
                return Some(j);
            }
            j = j + 1;
        }
        None
    }

    /// Commits the address of an escrow whose creation `create_escrow` began, given the
    /// outcome of deriving its public key. On failure the id is abandoned, never reused.
    pub fn finish_create_escrow(
        &mut self,
        escrow_id: u64,
        public_key: Result<Vec<u8>, String>,
        now: u64,
    ) -> (r: Result<u64, EscrowError>)
        requires
            old(self).wf(),
        ensures
            final(self).wf(),
            old(self)@.pending(escrow_id) is None ==> r == Err::<u64, EscrowError>(
                EscrowError::State,
            ) && final(self)@ == old(self)@,
            old(self)@.pending(escrow_id) matches Some(p) ==> match public_key {
                Err(msg) => {
                    &&& r == Err::<u64, EscrowError>(
                        EscrowError::ExternalService(ExternalFailure::KeyDerivation(msg)),
                    )
                    &&& final(self)@ == old(self)@.with_slot(escrow_id, Slot::Abandoned)
                },
                Ok(key) => if key@.len() < MIN_PUBLIC_KEY_LEN {
                    &&& r matches Err(EscrowError::ExternalService(
                        ExternalFailure::KeyDerivation(msg),
                    ))
                    &&& msg@ == short_key_text()
                    &&& final(self)@ == old(self)@.with_slot(escrow_id, Slot::Abandoned)
                } else {
                    &&& r == Ok::<u64, EscrowError>(escrow_id)
                    &&& final(self)@.record(escrow_id) matches Some(a)
                    &&& a == (EscrowAccount {
                        id: escrow_id,
                        listing_id: p.listing_id,
                        buyer: p.buyer,
                        seller: p.seller,
                        total_amount: p.total_amount,
                        locked_amount: 0,
                        released_amount: 0,
                        state: EscrowState::Created,
                        milestones: p.milestones,
                        escrow_address: a.escrow_address,
                        created_at: now,
                        updated_at: now,
                    })
                    &&& a.escrow_address@ == address_of(key@)
                    &&& final(self)@ == old(self)@.with_slot(escrow_id, Slot::Active(a)).log(
                        EscrowEvent::EscrowCreated {
                            escrow_id,
                            listing_id: p.listing_id,
                            buyer: p.buyer,
                            seller: p.seller,
                            total_amount: p.total_amount,
                        },
                    )
                },
            },
    {
        if escrow_id == 0 || escrow_id > self.slots.len() as u64 {
            return Err(EscrowError::State);
        }
        match &self.slots[(escrow_id - 1) as usize] {
            Slot::Creating(_) => {},
            _ => {
                return Err(EscrowError::State);
            },
        }
        let m0 = Ghost(self@);
        let prev = self.swap_slot(escrow_id, Slot::Abandoned);
        proof {
            lemma_wf_abandon(m0@, escrow_id);
            assert(self@ == m0@.with_slot(escrow_id, Slot::Abandoned));
        }
        let p = match prev {
            Slot::Creating(p) => p,
            other => {
                self.swap_slot(escrow_id, other);
                assert(false);
                return Err(EscrowError::State);
            },
        };
        let key = match public_key {
            Err(msg) => {
                return Err(EscrowError::ExternalService(ExternalFailure::KeyDerivation(msg)));
            },
            Ok(key) => key,
        };
        let escrow_address = match ecdsa_address(&key) {
            None => {
                let msg = String::from_str("derived public key is too short");
                return Err(EscrowError::ExternalService(ExternalFailure::KeyDerivation(msg)));
            },
            Some(address) => address,
        };
        let event = EscrowEvent::EscrowCreated {
            escrow_id,
            listing_id: p.listing_id,
            buyer: p.buyer.clone(),
            seller: p.seller.clone(),
            total_amount: p.total_amount,
        };
        let a = EscrowAccount {
            id: escrow_id,
            listing_id: p.listing_id,
            buyer: p.buyer,
            seller: p.seller,
            total_amount: p.total_amount,
            locked_amount: 0,
            released_amount: 0,
            state: EscrowState::Created,
            milestones: p.milestones,
            escrow_address,
            created_at: now,
            updated_at: now,
        };
        proof {
            let ms = a.milestones@;
            assert(m0@.slot_wf(escrow_id - 1));
            assert forall|i: int| 0 <= i < ms.len() implies !(#[trigger] ms[i]).released
                && !ms[i].completed by {
                assert(is_fresh(ms[i]));
            }
            lemma_released_sum_none(ms);
            assert(!ms[0].released);
            assert(a.well_formed());
        }
        self.swap_slot(escrow_id, Slot::Active(a));
        proof {
            assert(self.slots@ =~= m0@.slots.update(escrow_id - 1, Slot::Active(a)));
            lemma_wf_replace(m0@.with_slot(escrow_id, Slot::Abandoned), escrow_id, a);
            assert(m0@.with_slot(escrow_id, Slot::Abandoned).with_slot(escrow_id, Slot::Active(a))
                == m0@.with_slot(escrow_id, Slot::Active(a)));
            lemma_wf_log(self@, event);
        }
        self.events.log_event(event);
        Ok(escrow_id)
    }

    /// Re-admits a committed record, such as one read back from stable storage after an
    /// upgrade, under its own id. Records must come back in increasing id order; the ids
    /// between them stay abandoned.
    pub fn restore_record(&mut self, a: EscrowAccount) -> (r: Result<(), EscrowError>)
        requires
            old(self).wf(),
        ensures
            final(self).wf(),
            match old(self)@.restore_error(a) {
                Some(e) => r == Err::<(), EscrowError>(e) && final(self)@ == old(self)@,
                None => r == Ok::<(), EscrowError>(()) && final(self)@ == old(self)@.restored(a),
            },
    {
        if a.id <= self.slots.len() as u64 {
            return Err(EscrowError::State);
        }
        if !a.is_well_formed() {
            return Err(EscrowError::Validation);
        }
        let m0 = Ghost(self@);
        while (self.slots.len() as u64) < a.id - 1
            invariant
                m0@.slots.len() <= self.slots@.len() <= a.id - 1,
                self.slots@ =~= m0@.slots + Seq::new(
                    (self.slots@.len() - m0@.slots.len()) as nat,
                    |k: int| Slot::Abandoned,
                ),
                self.service == m0@.service,
                self.deposit_claims@.to_set() == m0@.deposit_claims,
                self.release_claims@.to_set() == m0@.release_claims,
                self.events@ == m0@.events,
                self.events.wf(),
                self.deposit_claims@.no_duplicates(),
                self.release_claims@.no_duplicates(),
            decreases a.id - 1 - self.slots@.len(),
        {
            self.slots.push(Slot::Abandoned);
        }
        self.slots.push(Slot::Active(a));
        proof {
            assert(self@ == m0@.restored(a));
            lemma_wf_restored(m0@, a);
        }
        Ok(())
    }

    /// Marks every id below `next_id` as given out, so that ids handed out before a restart
    /// and never committed are not handed out again. Ids that already exist are untouched.
    pub fn skip_ids_below(&mut self, next_id: u64)
        requires
            old(self).wf(),
        ensures
            final(self).wf(),
            final(self)@ == old(self)@.skipped_to(next_id),
    {
        let m0 = Ghost(self@);
        while next_id > 0 && (self.slots.len() as u64) < next_id - 1
            invariant
                m0@.slots.len() <= self.slots@.len(),
                next_id > m0@.next_id() ==> self.slots@.len() + 1 <= next_id,
                next_id <= m0@.next_id() ==> self.slots@.len() == m0@.slots.len(),
                self.slots@ =~= m0@.slots + Seq::new(
                    (self.slots@.len() - m0@.slots.len()) as nat,
                    |k: int| Slot::Abandoned,
                ),
                self.service == m0@.service,
                self.deposit_claims@.to_set() == m0@.deposit_claims,
                self.release_claims@.to_set() == m0@.release_claims,
                self.events@ == m0@.events,
                self.events.wf(),
                self.deposit_claims@.no_duplicates(),
                self.release_claims@.no_duplicates(),
            decreases next_id - self.slots@.len(),
        {
            self.slots.push(Slot::Abandoned);
        }
        proof {
            assert(self@ == m0@.skipped_to(next_id));
            lemma_wf_skipped(m0@, next_id);
        }
    }

    /// The committed record of an escrow.
    pub fn get_escrow(&self, escrow_id: u64) -> (r: Option<EscrowAccount>)
        ensures
            match self@.record(escrow_id) {
                Some(a) => r matches Some(b) && b.same_record(&a),
                None => r is None,
            },
    {
        match self.record_ref(escrow_id) {
            Some(a) => Some(a.clone()),
            None => None,
        }
    }

    /// The escrows opened for a listing, in id order.
    pub fn get_escrows_by_listing(&self, listing_id: u64) -> (r: Vec<EscrowAccount>)
        ensures
            same_records(r@, records_where(self@.slots, of_listing(listing_id))),
    {
        let mut r: Vec<EscrowAccount> = Vec::new();
        let mut k: usize = 0;
        while k < self.slots.len()
            invariant
                k <= self.slots@.len(),
                same_records(r@, records_where(self.slots@.take(k as int), of_listing(listing_id))),
            decreases self.slots@.len() - k,
        {
            proof {
                assert(self.slots@.take(k as int + 1).drop_last() =~= self.slots@.take(k as int));
            }
            match &self.slots[k] {
                Slot::Active(a) => {
                    if a.listing_id == listing_id {
                        r.push(a.clone());
                    }
                },
                _ => {},
            }
            k = k + 1;
        }
        assert(self.slots@.take(k as int) =~= self.slots@);
        r
    }

    /// The escrows whose buyer is `buyer`, in id order.
    pub fn get_escrows_by_buyer(&self, buyer: &Party) -> (r: Vec<EscrowAccount>)
        ensures
            same_records(r@, records_where(self@.slots, of_buyer(buyer@))),
    {
        let mut r: Vec<EscrowAccount> = Vec::new();
        let mut k: usize = 0;
        while k < self.slots.len()
            invariant
                k <= self.slots@.len(),
                same_records(r@, records_where(self.slots@.take(k as int), of_buyer(buyer@))),
            decreases self.slots@.len() - k,
        {
            proof {
                assert(self.slots@.take(k as int + 1).drop_last() =~= self.slots@.take(k as int));
            }
            match &self.slots[k] {
                Slot::Active(a) => {
                    if a.buyer.same_as(buyer) {
                        r.push(a.clone());
                    }
                },
                _ => {},
            }
            k = k + 1;
        }
        assert(self.slots@.take(k as int) =~= self.slots@);
        r
    }

    /// The newest `limit` events, newest first.
    pub fn get_recent_events(&self, limit: usize) -> (r: Vec<EscrowEvent>)
        ensures
            r@ == newest_first(self@.events, limit as nat),
    {
        self.events.recent(limit)
    }
}

/// The timers owed to the milestones of escrow `escrow_id` at `now`.
fn due_release_timers(escrow_id: u64, milestones: &Vec<EscrowMilestone>, now: u64) -> (r: Vec<
    ReleaseTimer,
>)
    ensures
        r@ == due_timers(escrow_id, milestones@, now),
{
    let mut r: Vec<ReleaseTimer> = Vec::new();
    let mut i: usize = 0;
    while i < milestones.len()
        invariant
            i <= milestones@.len(),
            r@ == due_timers(escrow_id, milestones@.take(i as int), now),
        decreases milestones@.len() - i,
    {
        proof {
            assert(milestones@.take(i as int + 1).drop_last() =~= milestones@.take(i as int));
        }
        let m = &milestones[i];
        if !m.completed && m.deadline > now {
            r.push(
                ReleaseTimer {
                    escrow_id,
                    milestone_index: i,
                    delay_seconds: (m.deadline - now - 1) / NANOS_PER_SECOND + 1,
                },
            );
        }
        i = i + 1;
    }
    assert(milestones@.take(i as int) =~= milestones@);
    r
}

/// Whether every milestone has been paid out.
fn all_paid(milestones: &Vec<EscrowMilestone>) -> (r: bool)
    ensures
        r == forall|i: int| 0 <= i < milestones@.len() ==> #[trigger] milestones@[i].released,
{
    let mut i: usize = 0;
    while i < milestones.len()
        invariant
            i <= milestones@.len(),
            forall|k: int| 0 <= k < i ==> #[trigger] milestones@[k].released,
        decreases milestones@.len() - i,
    {
        if !milestones[i].released {
            return false;
        }
        i = i + 1;
    }
    true
}

impl Engine {
    /// The timers to register for the milestones of an escrow at `now`:
    /// one per milestone not yet completed whose deadline is still ahead.
    pub fn schedule_automatic_releases(&self, escrow_id: u64, now: u64) -> (r: Vec<ReleaseTimer>)
        ensures
            match self@.record(escrow_id) {
                Some(a) => {
                    &&& r@ == due_timers(escrow_id, a.milestones@, now)
                    &&& forall|j: int|
                        0 <= j < r@.len() ==> fires_on_time(#[trigger] r@[j], a.milestones@, now)
                },
                None => r@ == Seq::<ReleaseTimer>::empty(),
            },
    {
        match self.record_ref(escrow_id) {
            Some(a) => {
                let r = due_release_timers(escrow_id, &a.milestones, now);
                assert forall|j: int| 0 <= j < r@.len() implies fires_on_time(
                    #[trigger] r@[j],
                    a.milestones@,
                    now,
                ) by {
                    assert(a.milestones.len() == a.milestones@.len());
                    timers_never_fire_early(escrow_id, a.milestones@, now, j);
                }
                r
            },
            None => Vec::new(),
        }
    }

    /// Validates a deposit of `amount` by `depositor` and claims the escrow for it.
    /// The host then performs the returned pull transfer and reports to `finish_deposit`.
    pub fn deposit_funds(&mut self, escrow_id: u64, amount: u64, depositor: &Party) -> (r: Result<
        PullTransfer,
        EscrowError,
    >)
        requires
            old(self).wf(),
        ensures
            final(self).wf(),
            match old(self)@.deposit_error(escrow_id, amount, *depositor) {
                Some(e) => r == Err::<PullTransfer, EscrowError>(e) && final(self)@ == old(self)@,
                None => {
                    &&& final(self)@ == old(self)@.claim_deposit(escrow_id)
                    &&& r matches Ok(t)
                    &&& t.from == *depositor
                    &&& t.to_subaccount@ == be_digits(escrow_id as nat, 8)
                    &&& t.amount == amount
                    &&& t.memo@ == deposit_memo_text(old(self)@.record(escrow_id)->0.listing_id)
                },
            },
    {
        if self.find_deposit_claim(escrow_id).is_some() {
            return Err(EscrowError::Conflict);
        }
        let a = match self.record_ref(escrow_id) {
            None => {
                return Err(EscrowError::NotFound);
            },
            Some(a) => a,
        };
        if !a.buyer.same_as(depositor) {
            return Err(EscrowError::Authorization);
        }
        if a.state != EscrowState::Created {
            return Err(EscrowError::State);
        }
        if amount != a.total_amount {
            return Err(EscrowError::Validation);
        }
        let transfer = PullTransfer::deposit(escrow_id, a.listing_id, depositor, amount);
        let m0 = Ghost(self@);
        proof {
            lemma_push_to_set(self.deposit_claims@, escrow_id);
        }
        self.deposit_claims.push(escrow_id);
        proof {
            assert(self@ == m0@.claim_deposit(escrow_id));
            lemma_wf_claim_deposit(m0@, escrow_id);
        }
        Ok(transfer)
    }

    /// Ends the deposit that `deposit_funds` began, given the ledger's answer. The claim is
    /// dropped either way; only a successful transfer locks the funds. On success it returns
    /// the timers to register for automatic releases.
    pub fn finish_deposit(&mut self, escrow_id: u64, outcome: Result<(), LedgerError>, now: u64) -> (r:
        Result<Vec<ReleaseTimer>, EscrowError>)
        requires
            old(self).wf(),
        ensures
            final(self).wf(),
            !old(self)@.deposit_claims.contains(escrow_id) ==> r == Err::<
                Vec<ReleaseTimer>,
                EscrowError,
            >(EscrowError::State) && final(self)@ == old(self)@,
            old(self)@.deposit_claims.contains(escrow_id) ==> {
                let a = old(self)@.record(escrow_id)->0;
                let unclaimed = old(self)@.unclaim_deposit(escrow_id);
                match outcome {
                    Err(e) => {
                        &&& r == Err::<Vec<ReleaseTimer>, EscrowError>(
                            EscrowError::ExternalService(ExternalFailure::Ledger(e)),
                        )
                        &&& final(self)@ == unclaimed
                    },
                    Ok(_) => {
                        &&& final(self)@ == unclaimed.with_slot(
                            escrow_id,
                            Slot::Active(a.funded(now)),
                        ).log(
                            EscrowEvent::FundsDeposited {
                                escrow_id,
                                amount: a.total_amount,
                                depositor: a.buyer,
                            },
                        )
                        &&& r matches Ok(timers)
                        &&& timers@ == due_timers(escrow_id, a.milestones@, now)
                    },
                }
            },
    {
        let j = match self.find_deposit_claim(escrow_id) {
            None => {
                return Err(EscrowError::State);
            },
            Some(j) => j,
        };
        let m0 = Ghost(self@);
        proof {
            assert(self.deposit_claims@[j as int] == escrow_id);
            assert(m0@.deposit_claims.contains(escrow_id));
            lemma_remove_to_set(self.deposit_claims@, j as int);
        }
        self.deposit_claims.remove(j);
        proof {
            lemma_wf_unclaim_deposit(m0@, escrow_id);
            assert(self@ == m0@.unclaim_deposit(escrow_id));
        }
        if let Err(e) = outcome {
            return Err(EscrowError::ExternalService(ExternalFailure::Ledger(e)));
        }
        let m1 = Ghost(self@);
        let prev = self.swap_slot(escrow_id, Slot::Abandoned);
        let mut a = match prev {
            Slot::Active(a) => a,
            other => {
                self.swap_slot(escrow_id, other);
                assert(false);
                return Err(EscrowError::State);
            },
        };
        a.locked_amount = a.total_amount;
        a.state = EscrowState::Locked;
        a.updated_at = now;
        let event = EscrowEvent::FundsDeposited {
            escrow_id,
            amount: a.total_amount,
            depositor: a.buyer.clone(),
        };
        let timers = due_release_timers(escrow_id, &a.milestones, now);
        proof {
            let old_a = m0@.record(escrow_id)->0;
            assert(a == old_a.funded(now));
            let ms = a.milestones@;
            assert(m0@.slot_wf(escrow_id - 1));
            assert forall|i: int| 0 <= i < ms.len() implies !(#[trigger] ms[i]).released by {}
            lemma_released_sum_none(ms);
            assert(!ms[0].released);
            assert(a.well_formed());
            assert forall|i: usize| #[trigger] m1@.release_claims.contains((escrow_id, i)) implies {
                &&& i < a.milestones@.len()
                &&& a.milestones@[i as int].completed
                &&& !a.milestones@[i as int].released
            } by {}
            lemma_wf_replace(m1@, escrow_id, a);
        }
        self.swap_slot(escrow_id, Slot::Active(a));
        proof {
            assert(self.slots@ =~= m1@.slots.update(escrow_id - 1, Slot::Active(a)));
            lemma_wf_log(self@, event);
        }
        self.events.log_event(event);
        Ok(timers)
    }

    /// Marks milestone `index` completed by `by` at `now`, and logs it.
    fn complete_in_place(&mut self, escrow_id: u64, index: usize, by: Party, now: u64)
        requires
            old(self).wf(),
            old(self)@.record(escrow_id) is Some,
            index < old(self)@.record(escrow_id)->0.milestones@.len(),
            !old(self)@.record(escrow_id)->0.milestones@[index as int].completed,
            old(self)@.record(escrow_id)->0.state == EscrowState::Locked || old(self)@.record(
                escrow_id,
            )->0.state == EscrowState::MilestoneDone,
        ensures
            final(self).wf(),
            final(self)@.record(escrow_id) is Some,
            old(self)@.record(escrow_id)->0.completes_to(
                final(self)@.record(escrow_id)->0,
                index,
                now,
            ),
            final(self)@ == old(self)@.with_slot(
                escrow_id,
                Slot::Active(final(self)@.record(escrow_id)->0),
            ).log(EscrowEvent::MilestoneCompleted { escrow_id, milestone_index: index, completed_by: by }),
    {
        let m0 = Ghost(self@);
        let prev = self.swap_slot(escrow_id, Slot::Abandoned);
        let mut a = match prev {
            Slot::Active(a) => a,
            other => {
                self.swap_slot(escrow_id, other);
                assert(false);
                return ;
            },
        };
        let old_a = Ghost(a);
        let m = a.milestones[index].clone();
        let done = EscrowMilestone {
            description: m.description,
            amount: m.amount,
            deadline: m.deadline,
            completed: true,
            released: m.released,
            completed_at: Some(now),
            released_at: m.released_at,
        };
        a.milestones[index] = done;
        a.state = EscrowState::MilestoneDone;
        a.updated_at = now;
        proof {
            let ms0 = old_a@.milestones@;
            let ms = a.milestones@;
            assert(ms =~= ms0.update(index as int, done));
            assert(m0@.slot_wf(escrow_id - 1));
            lemma_sums_update(ms0, index as int, done);
            assert(!ms[index as int].released);
            assert(old_a@.completes_to(a, index, now));
            assert(a.well_formed());
            assert forall|i: usize| #[trigger] m0@.release_claims.contains((escrow_id, i)) implies {
                &&& i < a.milestones@.len()
                &&& a.milestones@[i as int].completed
                &&& !a.milestones@[i as int].released
            } by {
                assert(i != index);
            }
            lemma_wf_replace(m0@, escrow_id, a);
        }
        let event = EscrowEvent::MilestoneCompleted { escrow_id, milestone_index: index, completed_by: by };
        self.swap_slot(escrow_id, Slot::Active(a));
        proof {
            assert(self.slots@ =~= m0@.slots.update(escrow_id - 1, Slot::Active(a)));
            lemma_wf_log(self@, event);
        }
        self.events.log_event(event);
    }

    /// Claims milestone `index` for payout and builds the transfer that pays it to the seller.
    fn claim_release(&mut self, escrow_id: u64, index: usize) -> (t: PushTransfer)
        requires
            old(self).wf(),
            old(self)@.record(escrow_id) is Some,
            index < old(self)@.record(escrow_id)->0.milestones@.len(),
            old(self)@.record(escrow_id)->0.milestones@[index as int].completed,
            !old(self)@.record(escrow_id)->0.milestones@[index as int].released,
            !old(self)@.release_claims.contains((escrow_id, index)),
        ensures
            final(self).wf(),
            final(self)@ == old(self)@.claim_release(escrow_id, index),
            t.from_subaccount@ == be_digits(escrow_id as nat, 8),
            t.to == old(self)@.record(escrow_id)->0.seller,
            t.amount == old(self)@.record(escrow_id)->0.milestones@[index as int].amount,
            t.memo@ == release_memo_text(escrow_id),
    {
        let m0 = Ghost(self@);
        let a = match self.record_ref(escrow_id) {
            Some(a) => a,
            None => {
                assert(false);
                return PushTransfer::payment(escrow_id, &self.service, 0);
            },
        };
        let t = PushTransfer::payment(escrow_id, &a.seller, a.milestones[index].amount);
        proof {
            lemma_push_to_set(self.release_claims@, (escrow_id, index));
        }
        self.release_claims.push((escrow_id, index));
        proof {
            assert(self@ == m0@.claim_release(escrow_id, index));
            lemma_wf_claim_release(m0@, escrow_id, index);
        }
        t
    }
}

impl Engine {
    /// The seller marks milestone `index` as completed at `now`.
    pub fn complete_milestone(&mut self, escrow_id: u64, index: usize, caller: &Party, now: u64) -> (r:
        Result<(), EscrowError>)
        requires
            old(self).wf(),
        ensures
            final(self).wf(),
            match old(self)@.complete_error(escrow_id, index, *caller) {
                Some(e) => r == Err::<(), EscrowError>(e) && final(self)@ == old(self)@,
                None => {
                    &&& r == Ok::<(), EscrowError>(())
                    &&& final(self)@.record(escrow_id) matches Some(b)
                    &&& old(self)@.record(escrow_id)->0.completes_to(b, index, now)
                    &&& final(self)@ == old(self)@.with_slot(escrow_id, Slot::Active(b)).log(
                        EscrowEvent::MilestoneCompleted {
                            escrow_id,
                            milestone_index: index,
                            completed_by: *caller,
                        },
                    )
                },
            },
    {
        if self.find_release_claim(escrow_id, index).is_some() {
            return Err(EscrowError::Conflict);
        }
        let a = match self.record_ref(escrow_id) {
            None => {
                return Err(EscrowError::NotFound);
            },
            Some(a) => a,
        };
        if !a.seller.same_as(caller) {
            return Err(EscrowError::Authorization);
        }
        if a.state != EscrowState::Locked && a.state != EscrowState::MilestoneDone {
            return Err(EscrowError::State);
        }
        if index >= a.milestones.len() {
            return Err(EscrowError::NotFound);
        }
        if a.milestones[index].completed {
            return Err(EscrowError::State);
        }
        self.complete_in_place(escrow_id, index, caller.clone(), now);
        Ok(())
    }

    /// The buyer or the seller asks for the funds of completed milestone `index`. On success
    /// the milestone is claimed and the host performs the returned push transfer, then
    /// reports to `finish_release`.
    pub fn release_funds(&mut self, escrow_id: u64, index: usize, caller: &Party) -> (r: Result<
        PushTransfer,
        EscrowError,
    >)
        requires
            old(self).wf(),
        ensures
            final(self).wf(),
            match old(self)@.release_error(escrow_id, index, *caller) {
                Some(e) => r == Err::<PushTransfer, EscrowError>(e) && final(self)@ == old(self)@,
                None => {
                    let a = old(self)@.record(escrow_id)->0;
                    &&& final(self)@ == old(self)@.claim_release(escrow_id, index)
                    &&& r matches Ok(t)
                    &&& t.from_subaccount@ == be_digits(escrow_id as nat, 8)
                    &&& t.to == a.seller
                    &&& t.amount == a.milestones@[index as int].amount
                    &&& t.memo@ == release_memo_text(escrow_id)
                },
            },
    {
        if self.find_release_claim(escrow_id, index).is_some() {
            return Err(EscrowError::Conflict);
        }
        let a = match self.record_ref(escrow_id) {
            None => {
                return Err(EscrowError::NotFound);
            },
            Some(a) => a,
        };
        if !a.buyer.same_as(caller) && !a.seller.same_as(caller) {
            return Err(EscrowError::Authorization);
        }
        if index >= a.milestones.len() {
            return Err(EscrowError::NotFound);
        }
        if !a.milestones[index].completed {
            return Err(EscrowError::State);
        }
        if a.milestones[index].released {
            return Err(EscrowError::State);
        }
        Ok(self.claim_release(escrow_id, index))
    }

    /// Ends the payout that `release_funds` or `auto_release_milestone` began, given the
    /// ledger's answer. The claim is dropped either way; only a successful transfer marks
    /// the milestone released and moves its amount from locked to released.
    pub fn finish_release(
        &mut self,
        escrow_id: u64,
        index: usize,
        outcome: Result<(), LedgerError>,
        now: u64,
    ) -> (r: Result<(), EscrowError>)
        requires
            old(self).wf(),
        ensures
            final(self).wf(),
            !old(self)@.release_claims.contains((escrow_id, index)) ==> r == Err::<(), EscrowError>(
                EscrowError::State,
            ) && final(self)@ == old(self)@,
            old(self)@.release_claims.contains((escrow_id, index)) ==> {
                let a = old(self)@.record(escrow_id)->0;
                let unclaimed = old(self)@.unclaim_release(escrow_id, index);
                match outcome {
                    Err(e) => {
                        &&& r == Err::<(), EscrowError>(
                            EscrowError::ExternalService(ExternalFailure::Ledger(e)),
                        )
                        &&& final(self)@ == unclaimed
                    },
                    Ok(_) => {
                        &&& r == Ok::<(), EscrowError>(())
                        &&& final(self)@.record(escrow_id) matches Some(b)
                        &&& a.releases_to(b, index, now)
                        &&& final(self)@ == unclaimed.with_slot(escrow_id, Slot::Active(b)).log(
                            EscrowEvent::FundsReleased {
                                escrow_id,
                                amount: a.milestones@[index as int].amount,
                                released_to: a.seller,
                            },
                        )
                    },
                }
            },
    {
        let j = match self.find_release_claim(escrow_id, index) {
            None => {
                return Err(EscrowError::State);
            },
            Some(j) => j,
        };
        let m0 = Ghost(self@);
        proof {
            assert(self.release_claims@[j as int] == (escrow_id, index));
            assert(m0@.release_claims.contains((escrow_id, index)));
            lemma_remove_to_set(self.release_claims@, j as int);
        }
        self.release_claims.remove(j);
        proof {
            lemma_wf_unclaim_release(m0@, escrow_id, index);
            assert(self@ == m0@.unclaim_release(escrow_id, index));
        }
        if let Err(e) = outcome {
            return Err(EscrowError::ExternalService(ExternalFailure::Ledger(e)));
        }
        let m1 = Ghost(self@);
        let prev = self.swap_slot(escrow_id, Slot::Abandoned);
        let mut a = match prev {
            Slot::Active(a) => a,
            other => {
                self.swap_slot(escrow_id, other);
                assert(false);
                return Err(EscrowError::State);
            },
        };
        let old_a = Ghost(a);
        let m = a.milestones[index].clone();
        let amount = m.amount;
        let paid = EscrowMilestone {
            description: m.description,
            amount: m.amount,
            deadline: m.deadline,
            completed: m.completed,
            released: true,
            completed_at: m.completed_at,
            released_at: Some(now),
        };
        a.milestones[index] = paid;
        proof {
            let ms0 = old_a@.milestones@;
            let ms = a.milestones@;
            assert(ms =~= ms0.update(index as int, paid));
            assert(m0@.slot_wf(escrow_id - 1));
            lemma_sums_update(ms0, index as int, paid);
            lemma_released_sum_bounded(ms);
        }
        a.released_amount = a.released_amount + amount;
        a.locked_amount = a.locked_amount - amount;
        if all_paid(&a.milestones) {
            a.state = EscrowState::Released;
        }
        a.updated_at = now;
        let event = EscrowEvent::FundsReleased {
            escrow_id,
            amount,
            released_to: a.seller.clone(),
        };
        proof {
            let ms0 = old_a@.milestones@;
            let ms = a.milestones@;
            assert(old_a@.state == EscrowState::MilestoneDone) by {
                assert(ms0[index as int].completed);
                assert(!ms0[index as int].released);
            }
            assert(old_a@.releases_to(a, index, now));
            assert forall|i: int| 0 <= i < ms.len() && #[trigger] ms[i].released implies ms[i].completed by {
                if i != index {
                    assert(ms[i] == ms0[i]);
                }
            }
            assert(a.well_formed());
            assert forall|i: usize| #[trigger] m1@.release_claims.contains((escrow_id, i)) implies {
                &&& i < a.milestones@.len()
                &&& a.milestones@[i as int].completed
                &&& !a.milestones@[i as int].released
            } by {
                assert(m0@.release_claims.contains((escrow_id, i)));
                assert(i != index);
            }
            lemma_wf_replace(m1@, escrow_id, a);
        }
        self.swap_slot(escrow_id, Slot::Active(a));
        proof {
            assert(self.slots@ =~= m1@.slots.update(escrow_id - 1, Slot::Active(a)));
            lemma_wf_log(self@, event);
        }
        self.events.log_event(event);
        Ok(())
    }

    /// Fired when the deadline of milestone `index` has passed. If the milestone is still
    /// not completed, the engine completes it in its own name and claims it for payout,
    /// returning the push transfer for the host to perform and report to `finish_release`.
    /// A milestone completed in the meantime makes this a no-op.
    pub fn auto_release_milestone(&mut self, escrow_id: u64, index: usize, now: u64) -> (r: Result<
        Option<PushTransfer>,
        EscrowError,
    >)
        requires
            old(self).wf(),
        ensures
            final(self).wf(),
            old(self)@.release_claims.contains((escrow_id, index)) ==> r == Err::<
                Option<PushTransfer>,
                EscrowError,
            >(EscrowError::Conflict) && final(self)@ == old(self)@,
            !old(self)@.release_claims.contains((escrow_id, index)) && !old(self)@.auto_due(
                escrow_id,
                index,
                now,
            ) ==> r == Ok::<Option<PushTransfer>, EscrowError>(None) && final(self)@ == old(self)@,
            !old(self)@.release_claims.contains((escrow_id, index)) && old(self)@.auto_due(
                escrow_id,
                index,
                now,
            ) ==> {
                let a = old(self)@.record(escrow_id)->0;
                &&& final(self)@.record(escrow_id) matches Some(b)
                &&& a.completes_to(b, index, now)
                &&& final(self)@ == old(self)@.with_slot(escrow_id, Slot::Active(b)).log(
                    EscrowEvent::MilestoneCompleted {
                        escrow_id,
                        milestone_index: index,
                        completed_by: old(self)@.service,
                    },
                ).claim_release(escrow_id, index)
                &&& r matches Ok(Some(t))
                &&& t.from_subaccount@ == be_digits(escrow_id as nat, 8)
                &&& t.to == a.seller
                &&& t.amount == a.milestones@[index as int].amount
                &&& t.memo@ == release_memo_text(escrow_id)
            },
    {
        if self.find_release_claim(escrow_id, index).is_some() {
            return Err(EscrowError::Conflict);
        }
        let a = match self.record_ref(escrow_id) {
            None => {
                return Ok(None);
            },
            Some(a) => a,
        };
        if index >= a.milestones.len() {
            return Ok(None);
        }
        if a.milestones[index].completed || a.milestones[index].deadline > now {
            return Ok(None);
        }
        if a.state != EscrowState::Locked && a.state != EscrowState::MilestoneDone {
            return Ok(None);
        }
        let m0 = Ghost(self@);
        let service = self.service.clone();
        self.complete_in_place(escrow_id, index, service, now);
        proof {
            let b = self@.record(escrow_id)->0;
            let a0 = m0@.record(escrow_id)->0;
            assert(m0@.slot_wf(escrow_id - 1));
            assert(!a0.milestones@[index as int].released);
            assert(b.milestones@[index as int].completed);
            assert(!b.milestones@[index as int].released);
            assert(!self@.release_claims.contains((escrow_id, index)));
        }
        let t = self.claim_release(escrow_id, index);
        Ok(Some(t))
    }

    /// The buyer or the seller raises a dispute; only the audit trail records it.
    pub fn dispute_escrow(&mut self, escrow_id: u64, reason: String, caller: &Party) -> (r: Result<
        (),
        EscrowError,
    >)
        requires
            old(self).wf(),
        ensures
            final(self).wf(),
            match old(self)@.dispute_error(escrow_id, *caller) {
                Some(e) => r == Err::<(), EscrowError>(e) && final(self)@ == old(self)@,
                None => {
                    &&& r == Ok::<(), EscrowError>(())
                    &&& final(self)@ == old(self)@.log(
                        EscrowEvent::EscrowDisputed { escrow_id, disputed_by: *caller, reason },
                    )
                },
            },
    {
        let a = match self.record_ref(escrow_id) {
            None => {
                return Err(EscrowError::NotFound);
            },
            Some(a) => a,
        };
        if !a.buyer.same_as(caller) && !a.seller.same_as(caller) {
            return Err(EscrowError::Authorization);
        }
        if a.state != EscrowState::Locked && a.state != EscrowState::MilestoneDone {
            return Err(EscrowError::State);
        }
        let event = EscrowEvent::EscrowDisputed { escrow_id, disputed_by: caller.clone(), reason };
        proof {
            lemma_wf_log(self@, event);
        }
        self.events.log_event(event);
        Ok(())
    }
}

} // verus!
