//! Events: immutable facts about one account, and their stored form.
//!
//! A `BankAccountEvent` records one accepted state change.  Money-movement
//! events carry the absolute resulting balance rather than a delta, so replay
//! never recomputes arithmetic.  A `StoredEvent` is an event as the event log
//! keeps it: tagged with its aggregate id, its per-aggregate sequence number
//! (starting at 1), and the key/value metadata attached at write time.

use vstd::prelude::*;

verus! {

/// One accepted state change of a bank account.
pub enum BankAccountEvent {
    AccountOpened { account_id: String },
    CustomerDepositedMoney { amount: i64, balance: i64 },
    CustomerWithdrewCash { amount: i64, balance: i64 },
    CustomerWroteCheck { check_number: String, amount: i64, balance: i64 },
}

/// The mathematical model of an event: strings as character sequences,
/// machine integers as unbounded integers.
#[verifier::ext_equal]
pub enum EventView {
    AccountOpened { account_id: Seq<char> },
    CustomerDepositedMoney { amount: int, balance: int },
    CustomerWithdrewCash { amount: int, balance: int },
    CustomerWroteCheck { check_number: Seq<char>, amount: int, balance: int },
}

impl View for BankAccountEvent {
    type V = EventView;

    open spec fn view(&self) -> EventView {
        match self {
            BankAccountEvent::AccountOpened { account_id } => EventView::AccountOpened {
                account_id: account_id@,
            },
            BankAccountEvent::CustomerDepositedMoney { amount, balance } =>
                EventView::CustomerDepositedMoney { amount: *amount as int, balance: *balance as int },
            BankAccountEvent::CustomerWithdrewCash { amount, balance } =>
                EventView::CustomerWithdrewCash { amount: *amount as int, balance: *balance as int },
            BankAccountEvent::CustomerWroteCheck { check_number, amount, balance } =>
                EventView::CustomerWroteCheck {
                    check_number: check_number@,
                    amount: *amount as int,
                    balance: *balance as int,
                },
        }
    }
}

impl Clone for BankAccountEvent {
    /// Cloning an event preserves its model exactly.
    fn clone(&self) -> (r: Self)
        ensures
            r@ == self@,
    {
        match self {
            BankAccountEvent::AccountOpened { account_id } => BankAccountEvent::AccountOpened {
                account_id: account_id.clone(),
            },
            BankAccountEvent::CustomerDepositedMoney { amount, balance } =>
                BankAccountEvent::CustomerDepositedMoney { amount: *amount, balance: *balance },
            BankAccountEvent::CustomerWithdrewCash { amount, balance } =>
                BankAccountEvent::CustomerWithdrewCash { amount: *amount, balance: *balance },
            BankAccountEvent::CustomerWroteCheck { check_number, amount, balance } =>
                BankAccountEvent::CustomerWroteCheck {
                    check_number: check_number.clone(),
                    amount: *amount,
                    balance: *balance,
                },
        }
    }
}

/// The balance an account holds once this event has been applied.
/// Opening an account sets the balance to zero; every money-movement event
/// carries the resulting balance itself.
pub open spec fn balance_of(e: EventView) -> int {
    match e {
        EventView::AccountOpened { .. } => 0,
        EventView::CustomerDepositedMoney { balance, .. } => balance,
        EventView::CustomerWithdrewCash { balance, .. } => balance,
        EventView::CustomerWroteCheck { balance, .. } => balance,
    }
}

/// An event as committed to the event log.
pub struct StoredEvent {
    /// The account stream this event belongs to.
    pub aggregate_id: String,
    /// Position in the stream; the first committed event has sequence 1.
    pub sequence: u64,
    /// The domain event itself.
    pub payload: BankAccountEvent,
    /// Arbitrary key/value metadata attached at write time, e.g. a
    /// request-correlation identifier; carried through unmodified.
    pub metadata: Vec<(String, String)>,
}

/// The mathematical model of a stored event.
#[verifier::ext_equal]
pub struct StoredEventView {
    pub aggregate_id: Seq<char>,
    pub sequence: int,
    pub payload: EventView,
    pub metadata: Seq<(Seq<char>, Seq<char>)>,
}

/// The model of one metadata pair.
pub open spec fn metadata_pair_view(p: (String, String)) -> (Seq<char>, Seq<char>) {
    (p.0@, p.1@)
}

/// The model of a metadata table.
pub open spec fn metadata_views(m: Seq<(String, String)>) -> Seq<(Seq<char>, Seq<char>)> {
    m.map_values(|p: (String, String)| metadata_pair_view(p))
}

/// The models of a sequence of domain events.
pub open spec fn event_views(events: Seq<BankAccountEvent>) -> Seq<EventView> {
    events.map_values(|e: BankAccountEvent| e@)
}

/// The models of a sequence of stored events.
pub open spec fn stored_views(events: Seq<StoredEvent>) -> Seq<StoredEventView> {
    events.map_values(|e: StoredEvent| e@)
}

/// The domain events carried by a modelled stream, in stream order.
pub open spec fn stream_payloads(s: Seq<StoredEventView>) -> Seq<EventView> {
    s.map_values(|e: StoredEventView| e.payload)
}

impl View for StoredEvent {
    type V = StoredEventView;

    open spec fn view(&self) -> StoredEventView {
        StoredEventView {
            aggregate_id: self.aggregate_id@,
            sequence: self.sequence as int,
            payload: self.payload@,
            metadata: metadata_views(self.metadata@),
        }
    }
}

impl Clone for StoredEvent {
    /// Cloning a stored event preserves its model exactly.
    fn clone(&self) -> (r: Self)
        ensures
            r@ == self@,
    {
        StoredEvent {
            aggregate_id: self.aggregate_id.clone(),
            sequence: self.sequence,
            payload: self.payload.clone(),
            metadata: clone_metadata(&self.metadata),
        }
    }
}

/// Copies a metadata table; the copy equals the original.
pub fn clone_metadata(m: &Vec<(String, String)>) -> (r: Vec<(String, String)>)
    ensures
        r@ == m@,
{
    let mut r: Vec<(String, String)> = Vec::new();
    let mut i: usize = 0;
    while i < m.len()
        invariant
            i <= m.len(),
            r@ =~= m@.take(i as int),
        decreases m.len() - i,
    {
        r.push((m[i].0.clone(), m[i].1.clone()));
        i = i + 1;
        proof {
            assert(r@ =~= m@.take(i as int));
        }
    }
    proof {
        assert(m@.take(m@.len() as int) == m@);
    }
    r
}

} // verus!
