//! Aggregate state and reconstruction.
//!
//! An account's state is never stored: it is the fold of the account's event
//! stream, in sequence order, starting from the empty state.  Folding is a
//! pure function of the stream, so replay is deterministic, and because every
//! money-movement event carries the absolute resulting balance, each fold
//! step is O(1).

use vstd::prelude::*;
use crate::events::{BankAccountEvent, EventView, StoredEvent, balance_of};

verus! {

/// The reconstructed state of one account.
pub struct AggregateState {
    /// Whether an `AccountOpened` event has been folded.
    pub opened: bool,
    /// The current balance: zero until opened, afterwards the balance carried
    /// by the last folded money-movement event.
    pub balance: i64,
    /// The check numbers written so far, in the order they were written.
    pub written_checks: Vec<String>,
}

/// The mathematical model of an account's state.
#[verifier::ext_equal]
pub struct StateView {
    pub opened: bool,
    pub balance: int,
    pub written_checks: Seq<Seq<char>>,
}

impl View for AggregateState {
    type V = StateView;

    open spec fn view(&self) -> StateView {
        StateView {
            opened: self.opened,
            balance: self.balance as int,
            written_checks: self.written_checks@.map_values(|c: String| c@),
        }
    }
}

/// The state of an account with no events: not opened, zero balance, no
/// written checks.  This is a valid "does not yet exist" state, not an error.
pub open spec fn empty_state() -> StateView {
    StateView { opened: false, balance: 0, written_checks: Seq::empty() }
}

/// One fold step: the state after applying one event to a prior state.
pub open spec fn apply_event(s: StateView, e: EventView) -> StateView {
    match e {
        EventView::AccountOpened { .. } => StateView { opened: true, balance: 0, ..s },
        EventView::CustomerDepositedMoney { balance, .. } => StateView { balance, ..s },
        EventView::CustomerWithdrewCash { balance, .. } => StateView { balance, ..s },
        EventView::CustomerWroteCheck { check_number, balance, .. } => StateView {
            balance,
            written_checks: s.written_checks.push(check_number),
            ..s
        },
    }
}

/// The state reached by folding a whole event stream from the empty state.
pub open spec fn fold_events(events: Seq<EventView>) -> StateView
    decreases events.len(),
{
    if events.len() == 0 {
        empty_state()
    } else {
        apply_event(fold_events(events.drop_last()), events.last())
    }
}

/// The domain events of a stored stream, in stream order.
pub open spec fn payloads(events: Seq<StoredEvent>) -> Seq<EventView> {
    events.map_values(|e: StoredEvent| e.payload@)
}

/// Folding is a pure function of the stream: replaying equal streams from the
/// empty state yields identical states, however often the replay is run.
pub proof fn lemma_fold_deterministic(a: Seq<EventView>, b: Seq<EventView>)
    requires
        a == b,
    ensures
        fold_events(a) == fold_events(b),
{
}

/// Round-trip consistency of the balance: the balance reached by folding a
/// non-empty stream from the empty state is exactly the balance carried by
/// the stream's last event.
pub proof fn lemma_fold_balance_is_last(events: Seq<EventView>)
    requires
        events.len() > 0,
    ensures
        fold_events(events).balance == balance_of(events.last()),
{
}

impl AggregateState {
    /// The empty state.
    pub fn new() -> (r: AggregateState)
        ensures
            r@ == empty_state(),
    {
        let r = AggregateState { opened: false, balance: 0, written_checks: Vec::new() };
        proof {
            assert(r@.written_checks =~= empty_state().written_checks);
        }
        r
    }

    /// Folds one event into the state.
    pub fn apply(&mut self, e: &BankAccountEvent)
        ensures
            final(self)@ == apply_event(old(self)@, e@),
    {
        match e {
            BankAccountEvent::AccountOpened { .. } => {
                self.opened = true;
                self.balance = 0;
            },
            BankAccountEvent::CustomerDepositedMoney { balance, .. } => {
                self.balance = *balance;
            },
            BankAccountEvent::CustomerWithdrewCash { balance, .. } => {
                self.balance = *balance;
            },
            BankAccountEvent::CustomerWroteCheck { check_number, balance, .. } => {
                self.balance = *balance;
                self.written_checks.push(check_number.clone());
                proof {
                    assert(self@.written_checks =~= old(self)@.written_checks.push(check_number@));
                }
            },
        }
    }
}

/// Reconstructs an account's state from its full event stream: folds the
/// stream in sequence order from the empty state and reports the latest
/// sequence number, which for a well-formed stream is its length.
pub fn rebuild(events: &Vec<StoredEvent>) -> (r: (AggregateState, u64))
    requires
        events@.len() <= u64::MAX,
    ensures
        r.0@ == fold_events(payloads(events@)),
        r.1 == events@.len(),
{
    let mut state = AggregateState::new();
    let mut i: usize = 0;
    proof {
        assert(payloads(events@.take(0)) =~= Seq::<EventView>::empty());
    }
    while i < events.len()
        invariant
            i <= events.len(),
            events@.len() <= u64::MAX,
            state@ == fold_events(payloads(events@.take(i as int))),
        decreases events.len() - i,
    {
        state.apply(&events[i].payload);
        i = i + 1;
        proof {
            let taken = payloads(events@.take(i as int));
            assert(taken.drop_last() =~= payloads(events@.take(i as int - 1)));
            assert(taken.last() == events@[i as int - 1].payload@);
        }
    }
    proof {
        assert(events@.take(events@.len() as int) == events@);
    }
    (state, i as u64)
}

} // verus!
