use vstd::prelude::*;

use crate::lemmas::{lemma_amount_sum_prefix, lemma_released_sum_bounded, lemma_sums_step};

verus! {

/// An identity taking part in an escrow (a buyer, a seller, or the service itself),
/// held as its canonical textual form.
#[derive(Debug, PartialEq, Eq)]
pub struct Party {
    pub text: String,
}

impl View for Party {
    type V = Seq<char>;

    open spec fn view(&self) -> Seq<char> {
        self.text@
    }
}

impl Clone for Party {
    fn clone(&self) -> (r: Self)
        ensures
            r == *self,
    {
        Party { text: self.text.clone() }
    }
}

impl Party {
    pub fn new(text: String) -> (r: Party)
        ensures
            r.text == text,
    {
        Party { text }
    }

    /// Whether two parties are the same identity.
    pub fn same_as(&self, other: &Party) -> (r: bool)
        ensures
            r == (self@ == other@),
    {
        self.text == other.text
    }
}

/// Legal business structure of a listed company.
#[derive(Clone, Copy, Debug, PartialEq, Eq, Structural)]
pub enum BusinessStructure {
    LLC,
    Corp,
    SoleProp,
}

/// Lifecycle of a business listing in the marketplace.
#[derive(Clone, Copy, Debug, PartialEq, Eq, Structural)]
pub enum ListingStatus {
    Active,
    Matched,
    Sold,
    Withdrawn,
}

/// Progress of a negotiation between matched parties.
#[derive(Clone, Copy, Debug, PartialEq, Eq, Structural)]
pub enum DealStatus {
    Active,
    InNegotiation,
    InEscrow,
    Completed,
    Disputed,
}

/// Status of a purchase offer.
#[derive(Clone, Copy, Debug, PartialEq, Eq, Structural)]
pub enum OfferStatus {
    Pending,
    Accepted,
    Rejected,
    Countered,
}

/// A payment milestone as proposed when an escrow is opened.
#[derive(Debug, PartialEq, Eq)]
pub struct Milestone {
    pub description: String,
    pub amount: u64,
    pub deadline: u64,
    pub completed: bool,
}

impl Clone for Milestone {
    fn clone(&self) -> (r: Self)
        ensures
            r == *self,
    {
        Milestone {
            description: self.description.clone(),
            amount: self.amount,
            deadline: self.deadline,
            completed: self.completed,
        }
    }
}

/// Phase of an escrow: `Created -> Locked -> MilestoneDone -> Released`.
#[derive(Clone, Copy, Debug, PartialEq, Eq, Structural)]
pub enum EscrowState {
    Created,
    Locked,
    MilestoneDone,
    Released,
}

impl EscrowState {
    /// Position of the phase along the forward path.
    pub open spec fn rank(self) -> nat {
        match self {
            EscrowState::Created => 0,
            EscrowState::Locked => 1,
            EscrowState::MilestoneDone => 2,
            EscrowState::Released => 3,
        }
    }
}

/// A milestone held by an escrow, with its completion and release status.
#[derive(Debug, PartialEq, Eq)]
pub struct EscrowMilestone {
    pub description: String,
    pub amount: u64,
    pub deadline: u64,
    pub completed: bool,
    pub released: bool,
    pub completed_at: Option<u64>,
    pub released_at: Option<u64>,
}

impl Clone for EscrowMilestone {
    fn clone(&self) -> (r: Self)
        ensures
            r == *self,
    {
        EscrowMilestone {
            description: self.description.clone(),
            amount: self.amount,
            deadline: self.deadline,
            completed: self.completed,
            released: self.released,
            completed_at: self.completed_at,
            released_at: self.released_at,
        }
    }
}

/// Sum of the amounts of proposed milestones.
pub open spec fn proposed_total(ms: Seq<Milestone>) -> nat
    decreases ms.len(),
{
    if ms.len() == 0 {
        0
    } else {
        proposed_total(ms.drop_last()) + ms.last().amount as nat
    }
}

/// Sum of the amounts of an escrow's milestones.
pub open spec fn amount_sum(ms: Seq<EscrowMilestone>) -> nat
    decreases ms.len(),
{
    if ms.len() == 0 {
        0
    } else {
        amount_sum(ms.drop_last()) + ms.last().amount as nat
    }
}

/// Sum of the amounts of the milestones whose funds were released.
pub open spec fn released_sum(ms: Seq<EscrowMilestone>) -> nat
    decreases ms.len(),
{
    if ms.len() == 0 {
        0
    } else {
        released_sum(ms.drop_last()) + if ms.last().released {
            ms.last().amount as nat
        } else {
            0
        }
    }
}

/// One escrow: the buyer (payer) pays the seller (payee) milestone by milestone.
#[derive(Debug, PartialEq, Eq)]
pub struct EscrowAccount {
    pub id: u64,
    pub listing_id: u64,
    pub buyer: Party,
    pub seller: Party,
    pub total_amount: u64,
    pub locked_amount: u64,
    pub released_amount: u64,
    pub state: EscrowState,
    pub milestones: Vec<EscrowMilestone>,
    pub escrow_address: String,
    pub created_at: u64,
    pub updated_at: u64,
}

impl Clone for EscrowAccount {
    fn clone(&self) -> (r: Self)
        ensures
            r.same_record(self),
    {
        let milestones = self.milestones.clone();
        assert(milestones@ =~= self.milestones@);
        EscrowAccount {
            id: self.id,
            listing_id: self.listing_id,
            buyer: self.buyer.clone(),
            seller: self.seller.clone(),
            total_amount: self.total_amount,
            locked_amount: self.locked_amount,
            released_amount: self.released_amount,
            state: self.state,
            milestones,
            escrow_address: self.escrow_address.clone(),
            created_at: self.created_at,
            updated_at: self.updated_at,
        }
    }
}

impl EscrowAccount {
    /// `self` and `other` hold the same data, field by field.
    pub open spec fn same_record(&self, other: &EscrowAccount) -> bool {
        &&& self.id == other.id
        &&& self.listing_id == other.listing_id
        &&& self.buyer == other.buyer
        &&& self.seller == other.seller
        &&& self.total_amount == other.total_amount
        &&& self.locked_amount == other.locked_amount
        &&& self.released_amount == other.released_amount
        &&& self.state == other.state
        &&& self.milestones@ == other.milestones@
        &&& self.escrow_address == other.escrow_address
        &&& self.created_at == other.created_at
        &&& self.updated_at == other.updated_at
    }

    /// The invariants every committed escrow record satisfies.
    pub open spec fn well_formed(&self) -> bool {
        let ms = self.milestones@;
        &&& ms.len() > 0
        &&& self.total_amount > 0
        &&& amount_sum(ms) == self.total_amount
        &&& self.released_amount == released_sum(ms)
        &&& forall|i: int| 0 <= i < ms.len() && #[trigger] ms[i].released ==> ms[i].completed
        &&& self.state == EscrowState::Created ==> {
            &&& self.locked_amount == 0
            &&& forall|i: int| 0 <= i < ms.len() ==> !#[trigger] ms[i].completed
        }
        &&& self.state != EscrowState::Created ==> self.locked_amount + self.released_amount
            == self.total_amount
        &&& self.state == EscrowState::Locked ==> forall|i: int|
            0 <= i < ms.len() ==> !#[trigger] ms[i].completed
        &&& (self.state == EscrowState::Released <==> forall|i: int|
            0 <= i < ms.len() ==> #[trigger] ms[i].released)
    }

    /// Checks at run time that the record satisfies its invariants.
    pub fn is_well_formed(&self) -> (r: bool)
        ensures
            r == self.well_formed(),
    {
        let ms = &self.milestones;
        if ms.len() == 0 || self.total_amount == 0 {
            return false;
        }
        let mut amount: u64 = 0;
        let mut released: u64 = 0;
        let mut any_completed = false;
        let mut all_paid = true;
        let mut i: usize = 0;
        while i < ms.len()
            invariant
                ms@ == self.milestones@,
                i <= ms@.len(),
                amount == amount_sum(ms@.take(i as int)),
                released == released_sum(ms@.take(i as int)),
                any_completed == exists|k: int| 0 <= k < i && #[trigger] ms@[k].completed,
                all_paid == forall|k: int| 0 <= k < i ==> #[trigger] ms@[k].released,
                forall|k: int| 0 <= k < i && #[trigger] ms@[k].released ==> ms@[k].completed,
            decreases ms@.len() - i,
        {
            let m = &ms[i];
            proof {
                lemma_sums_step(ms@, i as int);
                lemma_released_sum_bounded(ms@.take(i as int + 1));
            }
            if amount > u64::MAX - m.amount {
                proof {
                    lemma_amount_sum_prefix(ms@, i as int + 1);
                    assert(amount_sum(self.milestones@) > u64::MAX);
                }
                return false;
            }
            if m.released && !m.completed {
                assert(self.milestones@[i as int].released);
                return false;
            }
            amount = amount + m.amount;
            if m.released {
                released = released + m.amount;
            }
            if m.completed {
                any_completed = true;
            }
            if !m.released {
                all_paid = false;
            }
            i = i + 1;
        }
        assert(ms@.take(i as int) =~= ms@);
        if amount != self.total_amount || released != self.released_amount {
            return false;
        }
        if self.state == EscrowState::Created {
            if self.locked_amount != 0 || any_completed {
                return false;
            }
        } else if self.locked_amount as u128 + self.released_amount as u128
            != self.total_amount as u128 {
            return false;
        }
        if self.state == EscrowState::Locked && any_completed {
            return false;
        }
        (self.state == EscrowState::Released) == all_paid
    }

    /// Every milestone of the escrow has been paid out.
    pub open spec fn all_released(&self) -> bool {
        forall|i: int| 0 <= i < self.milestones@.len() ==> #[trigger] self.milestones@[i].released
    }
}

/// `copies` holds, in order, records identical to those of `originals`.
pub open spec fn same_records(copies: Seq<EscrowAccount>, originals: Seq<EscrowAccount>) -> bool {
    &&& copies.len() == originals.len()
    &&& forall|i: int| 0 <= i < copies.len() ==> (#[trigger] copies[i]).same_record(&originals[i])
}

/// An audit event recorded by the escrow engine.
#[derive(Debug, PartialEq, Eq)]
pub enum EscrowEvent {
    EscrowCreated {
        escrow_id: u64,
        listing_id: u64,
        buyer: Party,
        seller: Party,
        total_amount: u64,
    },
    FundsDeposited { escrow_id: u64, amount: u64, depositor: Party },
    MilestoneCompleted { escrow_id: u64, milestone_index: usize, completed_by: Party },
    FundsReleased { escrow_id: u64, amount: u64, released_to: Party },
    EscrowDisputed { escrow_id: u64, disputed_by: Party, reason: String },
}

impl Clone for EscrowEvent {
    fn clone(&self) -> (r: Self)
        ensures
            r == *self,
    {
        match self {
            EscrowEvent::EscrowCreated { escrow_id, listing_id, buyer, seller, total_amount } => {
                EscrowEvent::EscrowCreated {
                    escrow_id: *escrow_id,
                    listing_id: *listing_id,
                    buyer: buyer.clone(),
                    seller: seller.clone(),
                    total_amount: *total_amount,
                }
            },
            EscrowEvent::FundsDeposited { escrow_id, amount, depositor } => {
                EscrowEvent::FundsDeposited {
                    escrow_id: *escrow_id,
                    amount: *amount,
                    depositor: depositor.clone(),
                }
            },
            EscrowEvent::MilestoneCompleted { escrow_id, milestone_index, completed_by } => {
                EscrowEvent::MilestoneCompleted {
                    escrow_id: *escrow_id,
                    milestone_index: *milestone_index,
                    completed_by: completed_by.clone(),
                }
            },
            EscrowEvent::FundsReleased { escrow_id, amount, released_to } => {
                EscrowEvent::FundsReleased {
                    escrow_id: *escrow_id,
                    amount: *amount,
                    released_to: released_to.clone(),
                }
            },
            EscrowEvent::EscrowDisputed { escrow_id, disputed_by, reason } => {
                EscrowEvent::EscrowDisputed {
                    escrow_id: *escrow_id,
                    disputed_by: disputed_by.clone(),
                    reason: reason.clone(),
                }
            },
        }
    }
}

/// Why the token ledger refused or failed a transfer.
#[derive(Debug, PartialEq, Eq)]
pub enum LedgerError {
    BadFee { expected_fee: u128 },
    BadBurn { min_burn_amount: u128 },
    InsufficientFunds { balance: u128 },
    InsufficientAllowance { allowance: u128 },
    TooOld,
    CreatedInFuture { ledger_time: u64 },
    TemporarilyUnavailable,
    Duplicate { duplicate_of: u128 },
    GenericError { error_code: u128, message: String },
    /// The ledger could not be reached, or rejected the call itself.
    CallFailed { code: i32, message: String },
}

/// A failure of a collaborator outside the engine, with the upstream detail.
#[derive(Debug, PartialEq, Eq)]
pub enum ExternalFailure {
    Ledger(LedgerError),
    KeyDerivation(String),
}

/// Why an escrow operation was refused. A refused operation changes nothing.
#[derive(Debug, PartialEq, Eq)]
pub enum EscrowError {
    /// Malformed input, such as amounts that do not add up.
    Validation,
    /// The caller may not perform this operation on this escrow.
    Authorization,
    /// The operation does not fit the escrow's or the milestone's current status.
    State,
    /// Another operation on the same escrow or milestone is in progress.
    Conflict,
    /// The ledger or the key-derivation service failed.
    ExternalService(ExternalFailure),
    /// No such escrow, or no such milestone in it.
    NotFound,
}

} // verus!
