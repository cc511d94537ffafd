use vstd::prelude::*;

use crate::types::EscrowEvent;

verus! {

/// Most events the log holds at once.
pub const EVENT_LOG_CAPACITY: usize = 1000;

/// How many of the oldest events are dropped, in one batch, when the log overflows.
pub const EVENT_LOG_EVICTION: usize = 100;

/// The log after appending `e`: when it then holds more than the capacity,
/// its oldest batch is evicted.
pub open spec fn appended(log: Seq<EscrowEvent>, e: EscrowEvent) -> Seq<EscrowEvent> {
    let grown = log.push(e);
    if grown.len() > EVENT_LOG_CAPACITY {
        grown.subrange(EVENT_LOG_EVICTION as int, grown.len() as int)
    } else {
        grown
    }
}

/// The newest `limit` events of a log (all of them if it holds fewer), newest first.
pub open spec fn newest_first(log: Seq<EscrowEvent>, limit: nat) -> Seq<EscrowEvent> {
    let n = if log.len() < limit {
        log.len()
    } else {
        limit
    };
    Seq::new(n, |i: int| log[log.len() - 1 - i])
}

/// Append-only, capacity-bounded audit trail of escrow events, oldest first.
pub struct EventLog {
    events: Vec<EscrowEvent>,
}

impl View for EventLog {
    type V = Seq<EscrowEvent>;

    closed spec fn view(&self) -> Seq<EscrowEvent> {
        self.events@
    }
}

impl EventLog {
    pub open spec fn wf(&self) -> bool {
        self@.len() <= EVENT_LOG_CAPACITY
    }

    pub fn new() -> (r: EventLog)
        ensures
            r@ == Seq::<EscrowEvent>::empty(),
            r.wf(),
    {
        EventLog { events: Vec::new() }
    }

    pub fn len(&self) -> (r: usize)
        ensures
            r == self@.len(),
    {
        self.events.len()
    }

    /// Appends an event, evicting the oldest batch when the log overflows.
    pub fn log_event(&mut self, event: EscrowEvent)
        requires
            old(self).wf(),
        ensures
            final(self).wf(),
            final(self)@ == appended(old(self)@, event),
    {
        self.events.push(event);
        if self.events.len() > EVENT_LOG_CAPACITY {
            let kept = self.events.split_off(EVENT_LOG_EVICTION);
            self.events = kept;
        }
    }

    /// The newest `limit` events, newest first.
    pub fn recent(&self, limit: usize) -> (r: Vec<EscrowEvent>)
        ensures
            r@ == newest_first(self@, limit as nat),
    {
        let n = self.events.len();
        let count = if n < limit {
            n
        } else {
            limit
        };
        let mut r: Vec<EscrowEvent> = Vec::new();
        let mut i: usize = 0;
        while i < count
            invariant
                n == self.events@.len(),
                count <= n,
                count == newest_first(self@, limit as nat).len(),
                i <= count,
                r@ =~= newest_first(self@, limit as nat).take(i as int),
            decreases count - i,
        {
            let e = self.events[n - 1 - i].clone();
            r.push(e);
            i = i + 1;
        }
        r
    }
}

} // verus!
