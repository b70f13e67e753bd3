//! The command processor: the atomic unit of write-side work, and the
//! dispatcher that keeps the read model consistent with the event log.
//!
//! `handle` reconstructs the aggregate's current state from its event
//! stream, runs the engine (validation included), appends the accepted
//! event with optimistic concurrency at the sequence number it observed,
//! and delivers the newly committed event to the read-model projection in
//! commit order, all in one logical unit of work.  Because `handle` holds
//! the whole system exclusively from reconstruction to append, its append
//! can never lose a race: a concurrency conflict is impossible here and
//! `handle` never returns one.  The conflict path of the store itself is
//! exercised by callers that reconstruct and append separately.

use vstd::prelude::*;
use crate::events::{
    BankAccountEvent, EventView, StoredEvent, StoredEventView, balance_of, clone_metadata,
    event_views, metadata_views, stored_views, stream_payloads,
};
use crate::commands::{BankAccountCommand, CommandError, CommandErrorView, CommandView};
use crate::aggregate::{
    AggregateState, apply_event, fold_events, lemma_fold_balance_is_last, payloads, rebuild,
};
use crate::engine::{CommandValidator, decide, decide_spec, fits_i64, transition};
use crate::store::{EventStore, append_conflicts, stored_batch};
use crate::projection::ReadModel;

verus! {

/// The models of stored events and of their stream agree on the payloads.
pub proof fn lemma_payloads_agree(events: Seq<StoredEvent>)
    ensures
        payloads(events) == stream_payloads(stored_views(events)),
{
    assert(payloads(events) =~~= stream_payloads(stored_views(events)));
}

/// The state an event stream reconstructs to: the fold of its payloads from
/// the empty state.
pub open spec fn stream_state(stream: Seq<StoredEventView>) -> crate::aggregate::StateView {
    fold_events(stream_payloads(stream))
}

/// The whole write side and its read model, for one injected validation
/// policy.
pub struct Bank<V: CommandValidator> {
    pub store: EventStore,
    pub read_model: ReadModel,
    pub validator: V,
}

impl<V: CommandValidator> Bank<V> {
    /// The system invariant: the event log and the read model are
    /// well-formed, every committed event of an aggregate has been projected
    /// (the last applied sequence number is the stream length), and the
    /// `accounts` table shows, for every aggregate with events, exactly the
    /// balance carried by its latest event — and no row at all for an
    /// aggregate without events.
    pub open spec fn wf(self) -> bool {
        &&& self.store.wf()
        &&& self.read_model.wf()
        &&& forall|id: Seq<char>| #[trigger] self.read_model@.last_applied(id)
            == self.store.stream(id).len()
        &&& forall|id: Seq<char>|
            self.store.stream(id).len() == 0 ==> #[trigger] self.read_model@.account_balance(id)
                is None
        &&& forall|id: Seq<char>|
            self.store.stream(id).len() > 0 ==> #[trigger] self.read_model@.account_balance(id)
                == Some(balance_of(self.store.stream(id).last().payload))
    }

    /// A fresh system: empty event log, empty tables.
    pub fn new(validator: V) -> (r: Bank<V>)
        ensures
            r.wf(),
            forall|id: Seq<char>| #[trigger] r.store.stream(id) == Seq::<StoredEventView>::empty(),
            r.read_model@.ledger_entries == Seq::<crate::projection::LedgerEntryView>::empty(),
            r.read_model@.checks == Seq::<crate::projection::CheckRowView>::empty(),
            r.validator == validator,
    {
        let r = Bank { store: EventStore::new(), read_model: ReadModel::new(), validator };
        proof {
            assert forall|id: Seq<char>| #[trigger] r.read_model@.last_applied(id) == r.store.stream(
                id,
            ).len() by {
                assert(!r.read_model@.has_mark(id));
            }
            assert forall|id: Seq<char>| r.store.stream(id).len() == 0 implies #[trigger] r.read_model@.account_balance(
                id,
            ) is None by {
                assert(!r.read_model@.has_account(id));
            }
        }
        r
    }

    /// Reconstructs an aggregate's current state and latest sequence number
    /// by loading and folding its full event stream.  An aggregate with no
    /// events reconstructs to the empty state at sequence 0.
    pub fn rebuild_aggregate(&self, aggregate_id: &String) -> (r: (AggregateState, u64))
        requires
            self.wf(),
            self.store.stream(aggregate_id@).len() <= u64::MAX,
        ensures
            r.0@ == stream_state(self.store.stream(aggregate_id@)),
            r.1 == self.store.stream(aggregate_id@).len(),
    {
        let events = self.store.load(aggregate_id);
        proof {
            lemma_payloads_agree(events@);
        }
        rebuild(&events)
    }

    /// Processes one command against one aggregate: reconstruct, decide,
    /// append, project — one logical unit of work.
    ///
    /// On success the accepted event is committed at the next sequence
    /// number with the given metadata attached unmodified, the read model
    /// has it projected, and no other aggregate changes.  On rejection the
    /// error is exactly the engine's decision for the reconstructed state,
    /// and nothing at all changes.  A concurrency conflict is never
    /// returned: the append provably happens at the sequence number just
    /// observed.
    pub fn handle(
        &mut self,
        aggregate_id: &String,
        command: &BankAccountCommand,
        metadata: &Vec<(String, String)>,
    ) -> (r: Result<(), CommandError>)
        requires
            old(self).wf(),
            old(self).store.stream(aggregate_id@).len() < u64::MAX,
            old(self).read_model@.ledger_entries.len() < u64::MAX,
            old(self).read_model@.checks.len() < u64::MAX,
        ensures
            final(self).wf(),
            final(self).validator == old(self).validator,
            ({
                let stream0 = old(self).store.stream(aggregate_id@);
                let d = decide_spec(
                    old(self).validator,
                    aggregate_id@,
                    stream_state(stream0),
                    command@,
                );
                match r {
                    Ok(()) => {
                        let sev = StoredEventView {
                            aggregate_id: aggregate_id@,
                            sequence: stream0.len() as int + 1,
                            payload: d->Ok_0,
                            metadata: metadata_views(metadata@),
                        };
                        &&& d is Ok
                        &&& final(self).store.stream(aggregate_id@) == stream0.push(sev)
                        &&& final(self).read_model@ == old(self).read_model@.project_event(sev)
                        &&& forall|id2: Seq<char>|
                            id2 != aggregate_id@ ==> #[trigger] final(self).store.stream(id2)
                                == old(self).store.stream(id2)
                    },
                    Err(e) => {
                        &&& d == Err::<EventView, CommandErrorView>(e@)
                        &&& final(self).store == old(self).store
                        &&& final(self).read_model == old(self).read_model
                    },
                }
            }),
    {
        let (state, seq) = self.rebuild_aggregate(aggregate_id);
        let event = match decide(&self.validator, aggregate_id, &state, command) {
            Err(e) => {
                return Err(e);
            },
            Ok(event) => event,
        };
        let ghost stream0 = self.store.stream(aggregate_id@);
        let stored = StoredEvent {
            aggregate_id: aggregate_id.clone(),
            sequence: seq + 1,
            payload: event.clone(),
            metadata: clone_metadata(metadata),
        };
        let mut batch: Vec<BankAccountEvent> = Vec::new();
        batch.push(event);
        let append_result = self.store.append(aggregate_id, seq, &batch, metadata);
        proof {
            assert(!append_conflicts(stream0.len() as int, seq as int));
            assert(append_result is Ok);
            let b = stored_batch(
                aggregate_id@,
                seq as int,
                event_views(batch@),
                metadata_views(metadata@),
            );
            assert(b =~~= seq![stored@]);
            assert(self.store.stream(aggregate_id@) =~~= stream0.push(stored@));
        }
        self.read_model.apply(&stored);
        proof {
            let pre = *old(self);
            let id = aggregate_id@;
            let sev = stored@;
            let prerm = pre.read_model@;
            let postrm = self.read_model@;
            assert(sev.sequence == stream0.len() + 1);
            assert(prerm.last_applied(id) == stream0.len() as int);
            assert(sev.payload matches EventView::AccountOpened { account_id } ==> account_id
                == id);
            prerm.lemma_project_fresh(sev);
            assert forall|id2: Seq<char>| #[trigger] postrm.last_applied(id2) == self.store.stream(
                id2,
            ).len() by {
                if id2 != id {
                    assert(postrm.last_applied(id2) == prerm.last_applied(id2));
                    assert(self.store.stream(id2) == pre.store.stream(id2));
                }
            }
            assert forall|id2: Seq<char>| self.store.stream(id2).len() == 0 implies #[trigger] postrm.account_balance(
                id2,
            ) is None by {
                assert(id2 != id);
                assert(postrm.account_balance(id2) == prerm.account_balance(id2));
                assert(self.store.stream(id2) == pre.store.stream(id2));
            }
            assert forall|id2: Seq<char>| self.store.stream(id2).len() > 0 implies #[trigger] postrm.account_balance(
                id2,
            ) == Some(balance_of(self.store.stream(id2).last().payload)) by {
                if id2 == id {
                    assert(self.store.stream(id).last() == sev);
                } else {
                    assert(postrm.account_balance(id2) == prerm.account_balance(id2));
                    assert(self.store.stream(id2) == pre.store.stream(id2));
                }
            }
            assert(self.wf());
        }
        Ok(())
    }
}


/// Folding one more event is one fold step on the folded prefix.
pub proof fn lemma_fold_push(events: Seq<EventView>, e: EventView)
    ensures
        fold_events(events.push(e)) == apply_event(fold_events(events), e),
{
    assert(events.push(e).drop_last() =~~= events);
    assert(events.push(e).last() == e);
}

/// Committing a batch of one event extends the stream's payloads by that
/// event.
pub proof fn lemma_stream_payloads_push(
    stream: Seq<StoredEventView>,
    id: Seq<char>,
    expected: int,
    e: EventView,
    metadata: Seq<(Seq<char>, Seq<char>)>,
)
    ensures
        stream_payloads(stream + stored_batch(id, expected, seq![e], metadata))
            == stream_payloads(stream).push(e),
{
    assert(stream_payloads(stream + stored_batch(id, expected, seq![e], metadata))
        =~~= stream_payloads(stream).push(e));
}

/// Round-trip consistency between the event log and the read model: in every
/// reachable well-formed system state, the balance the `accounts` table shows
/// for an aggregate with events equals the balance carried by its stream's
/// last event, which equals the balance reached by folding the full stream
/// from the empty state.
pub proof fn lemma_balance_round_trip<V: CommandValidator>(b: Bank<V>, id: Seq<char>)
    requires
        b.wf(),
        b.store.stream(id).len() > 0,
    ensures
        b.read_model@.account_balance(id) == Some(balance_of(b.store.stream(id).last().payload)),
        b.read_model@.account_balance(id) == Some(stream_state(b.store.stream(id)).balance),
{
    let ps = stream_payloads(b.store.stream(id));
    lemma_fold_balance_is_last(ps);
    assert(ps.last() == b.store.stream(id).last().payload);
}

/// A command issued against a brand-new aggregate is rejected by the engine
/// unless it is `OpenAccount`: in particular a deposit before the account is
/// opened, under any validation policy, ends in `AggregateNotInitialized` —
/// and by `handle`'s contract such a rejection appends no event and leaves
/// the read model unchanged.
pub proof fn lemma_deposit_before_open_rejected<V: CommandValidator>(
    v: V,
    id: Seq<char>,
    amount: int,
)
    ensures
        decide_spec(v, id, stream_state(Seq::empty()), CommandView::DepositMoney { amount })
            == Err::<EventView, CommandErrorView>(CommandErrorView::AggregateNotInitialized),
{
    assert(stream_payloads(Seq::empty()) =~= Seq::<EventView>::empty());
    assert(!stream_state(Seq::empty()).opened);
}

/// Two concurrent deposits against the same aggregate serialize through the
/// optimistic append.  Both contenders reconstruct the same state at latest
/// sequence `n`.  An append at expected sequence `n` is accepted for the
/// first deposit; the stream then has length `n + 1`, so the second append
/// at expected sequence `n` is refused as a conflict.  Retrying the loser
/// from the grown stream commits its deposit at sequence `n + 1`, and the
/// final folded balance carries both deposits — never double-counted and
/// never lost.
pub proof fn lemma_concurrent_deposits_serialize(
    id: Seq<char>,
    stream: Seq<StoredEventView>,
    metadata: Seq<(Seq<char>, Seq<char>)>,
    d1: int,
    d2: int,
)
    requires
        stream_state(stream).opened,
        fits_i64(stream_state(stream).balance + d1),
        fits_i64(stream_state(stream).balance + d1 + d2),
    ensures
        ({
            let n = stream.len() as int;
            let s0 = stream_state(stream);
            let r1 = transition(id, s0, CommandView::DepositMoney { amount: d1 });
            let e1 = EventView::CustomerDepositedMoney { amount: d1, balance: s0.balance + d1 };
            let stream1 = stream + stored_batch(id, n, seq![e1], metadata);
            let r2 = transition(
                id,
                stream_state(stream1),
                CommandView::DepositMoney { amount: d2 },
            );
            let e2 = EventView::CustomerDepositedMoney {
                amount: d2,
                balance: s0.balance + d1 + d2,
            };
            &&& !append_conflicts(n, n)
            &&& r1 == Ok::<EventView, CommandErrorView>(e1)
            &&& append_conflicts(stream1.len() as int, n)
            &&& r2 == Ok::<EventView, CommandErrorView>(e2)
            &&& stream_state(
                stream1 + stored_batch(id, stream1.len() as int, seq![e2], metadata),
            ).balance == s0.balance + d1 + d2
        }),
{
    let n = stream.len() as int;
    let s0 = stream_state(stream);
    let e1 = EventView::CustomerDepositedMoney { amount: d1, balance: s0.balance + d1 };
    let stream1 = stream + stored_batch(id, n, seq![e1], metadata);
    lemma_stream_payloads_push(stream, id, n, e1, metadata);
    lemma_fold_push(stream_payloads(stream), e1);
    let s1 = stream_state(stream1);
    assert(s1.opened && s1.balance == s0.balance + d1);
    let e2 = EventView::CustomerDepositedMoney { amount: d2, balance: s0.balance + d1 + d2 };
    let stream2 = stream1 + stored_batch(id, stream1.len() as int, seq![e2], metadata);
    lemma_stream_payloads_push(stream1, id, stream1.len() as int, e2, metadata);
    lemma_fold_push(stream_payloads(stream1), e2);
    assert(stream_state(stream2).balance == s0.balance + d1 + d2);
}

} // verus!
