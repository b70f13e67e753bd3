//! The event log store: append-only, per-aggregate streams of ordered events
//! with optimistic concurrency.
//!
//! `append` commits a batch of new events atomically, with contiguous
//! sequence numbers, and fails with a concurrency conflict exactly when the
//! stream's actual latest sequence number differs from the expected one
//! supplied by the caller — this detects lost updates from concurrent
//! commands racing on the same aggregate.  Committed events are never
//! mutated or deleted.

use vstd::prelude::*;
use crate::events::{
    BankAccountEvent, EventView, StoredEvent, StoredEventView, clone_metadata, event_views,
    metadata_views, stored_views,
};
use crate::commands::CommandError;

verus! {

/// The model of a stream with one more event is the model of the stream with
/// the event's model appended.
proof fn lemma_stored_views_push(s: Seq<StoredEvent>, e: StoredEvent)
    ensures
        stored_views(s.push(e)) == stored_views(s).push(e@),
{
    assert(stored_views(s.push(e)) =~~= stored_views(s).push(e@));
}

/// One account's committed events, in commit order.
pub struct AccountStream {
    pub account_id: String,
    pub events: Vec<StoredEvent>,
}

impl AccountStream {
    /// Every event belongs to this stream, and sequence numbers are
    /// contiguous starting at 1.
    pub open spec fn wf(self) -> bool {
        forall|k: int|
            0 <= k < self.events@.len() ==> {
                &&& (#[trigger] self.events@[k])@.aggregate_id == self.account_id@
                &&& self.events@[k]@.sequence == k + 1
            }
    }

    /// The model of this stream.
    pub open spec fn view_events(self) -> Seq<StoredEventView> {
        stored_views(self.events@)
    }
}

/// The stored form of a freshly accepted batch: event `k` of the batch gets
/// sequence number `expected + 1 + k`, and every event carries the batch's
/// metadata unmodified.
pub open spec fn stored_batch(
    id: Seq<char>,
    expected: int,
    events: Seq<EventView>,
    metadata: Seq<(Seq<char>, Seq<char>)>,
) -> Seq<StoredEventView> {
    Seq::new(
        events.len(),
        |k: int| StoredEventView {
            aggregate_id: id,
            sequence: expected + 1 + k,
            payload: events[k],
            metadata: metadata,
        },
    )
}

/// Optimistic concurrency: an append is refused exactly when the expected
/// current sequence number differs from the stream's actual latest sequence
/// number (which, sequences being contiguous from 1, is the stream's length).
pub open spec fn append_conflicts(stream_len: int, expected: int) -> bool {
    expected != stream_len
}

/// The append-only event log.
pub struct EventStore {
    pub streams: Vec<AccountStream>,
}

impl EventStore {
    /// Whether some stream holds events for this aggregate.
    pub open spec fn has_stream(self, id: Seq<char>) -> bool {
        exists|i: int|
            0 <= i < self.streams@.len() && (#[trigger] self.streams@[i]).account_id@ == id
    }

    /// The position of this aggregate's stream; meaningful only when
    /// `has_stream` holds and ids are unique.
    pub open spec fn index_of(self, id: Seq<char>) -> int {
        choose|i: int|
            0 <= i < self.streams@.len() && (#[trigger] self.streams@[i]).account_id@ == id
    }

    /// The committed stream of one aggregate; empty when the aggregate has no
    /// events yet (a valid "does not yet exist" state, not an error).
    pub open spec fn stream(self, id: Seq<char>) -> Seq<StoredEventView> {
        if self.has_stream(id) {
            self.streams@[self.index_of(id)].view_events()
        } else {
            Seq::empty()
        }
    }

    /// Aggregate ids are unique and every stream is well-formed.
    pub open spec fn wf(self) -> bool {
        &&& forall|i: int, j: int|
            0 <= i < j < self.streams@.len() ==> (#[trigger] self.streams@[i]).account_id@ != (
            #[trigger] self.streams@[j]).account_id@
        &&& forall|i: int| 0 <= i < self.streams@.len() ==> (#[trigger] self.streams@[i]).wf()
    }

    /// With unique ids, a position whose stream carries the id is the
    /// position `index_of` names.
    pub proof fn lemma_index_unique(self, id: Seq<char>, i: int)
        requires
            self.wf(),
            0 <= i < self.streams@.len(),
            self.streams@[i].account_id@ == id,
        ensures
            self.has_stream(id),
            self.index_of(id) == i,
    {
        assert(self.has_stream(id));
        let j = self.index_of(id);
        if j != i {
            if i < j {
                assert(self.streams@[i].account_id@ != self.streams@[j].account_id@);
            } else {
                assert(self.streams@[j].account_id@ != self.streams@[i].account_id@);
            }
        }
    }

    /// Adding a stream for a new aggregate leaves every other aggregate's
    /// stream unchanged.
    proof fn lemma_stream_push_other(pre: EventStore, post: EventStore, s: AccountStream)
        requires
            pre.wf(),
            post.wf(),
            post.streams@ == pre.streams@.push(s),
        ensures
            forall|id2: Seq<char>|
                id2 != s.account_id@ ==> #[trigger] post.stream(id2) == pre.stream(id2),
    {
        let n = pre.streams@.len() as int;
        assert forall|id2: Seq<char>| id2 != s.account_id@ implies #[trigger] post.stream(id2)
            == pre.stream(id2) by {
            if post.has_stream(id2) {
                let j = post.index_of(id2);
                assert(post.streams@[j].account_id@ == id2);
                assert(j != n);
                assert(pre.streams@[j] == post.streams@[j]);
                pre.lemma_index_unique(id2, j);
                assert(pre.stream(id2) == pre.streams@[j].view_events());
            } else if pre.has_stream(id2) {
                let j = pre.index_of(id2);
                assert(post.streams@[j].account_id@ == id2);
                assert(post.has_stream(id2));
            }
        }
    }

    /// Two stores with the same stream ids and the same streams everywhere
    /// but possibly one position agree on every other aggregate's stream.
    proof fn lemma_streams_agree_off(pre: EventStore, post: EventStore, i: int)
        requires
            pre.wf(),
            post.wf(),
            0 <= i < pre.streams@.len(),
            post.streams@.len() == pre.streams@.len(),
            forall|j: int|
                0 <= j < pre.streams@.len() && j != i ==> #[trigger] post.streams@[j]
                    == pre.streams@[j],
            post.streams@[i].account_id@ == pre.streams@[i].account_id@,
        ensures
            forall|id2: Seq<char>|
                id2 != pre.streams@[i].account_id@ ==> #[trigger] post.stream(id2) == pre.stream(
                    id2,
                ),
    {
        assert forall|id2: Seq<char>|
            id2 != pre.streams@[i].account_id@ implies #[trigger] post.stream(id2) == pre.stream(
            id2,
        ) by {
            if post.has_stream(id2) {
                let j = post.index_of(id2);
                assert(post.streams@[j].account_id@ == id2);
                assert(j != i);
                assert(pre.streams@[j].account_id@ == id2);
                pre.lemma_index_unique(id2, j);
                assert(pre.stream(id2) == pre.streams@[j].view_events());
            } else if pre.has_stream(id2) {
                let j = pre.index_of(id2);
                assert(pre.streams@[j].account_id@ == id2);
                assert(j != i);
                assert(post.streams@[j].account_id@ == id2);
                assert(post.has_stream(id2));
            }
        }
    }

    /// An empty event log: no aggregate has a stream.
    pub fn new() -> (r: EventStore)
        ensures
            r.wf(),
            forall|id: Seq<char>| !(#[trigger] r.has_stream(id)),
            forall|id: Seq<char>| #[trigger] r.stream(id) == Seq::<StoredEventView>::empty(),
    {
        EventStore { streams: Vec::new() }
    }

    /// Finds the position of an aggregate's stream, if it has one.
    fn find(&self, aggregate_id: &String) -> (r: Option<usize>)
        requires
            self.wf(),
        ensures
            match r {
                Some(i) => {
                    &&& i < self.streams@.len()
                    &&& self.streams@[i as int].account_id@ == aggregate_id@
                    &&& self.has_stream(aggregate_id@)
                    &&& self.index_of(aggregate_id@) == i
                },
                None => !self.has_stream(aggregate_id@),
            },
    {
        let mut i: usize = 0;
        while i < self.streams.len()
            invariant
                self.wf(),
                i <= self.streams@.len(),
                forall|j: int|
                    0 <= j < i ==> (#[trigger] self.streams@[j]).account_id@ != aggregate_id@,
            decreases self.streams@.len() - i,
        {
            if self.streams[i].account_id == *aggregate_id {
                proof {
                    self.lemma_index_unique(aggregate_id@, i as int);
                }
                return Some(i);
            }
            i = i + 1;
        }
        None
    }

    /// The latest committed sequence number of an aggregate's stream: the
    /// stream's length, or 0 for an aggregate with no events yet.
    pub fn latest_sequence(&self, aggregate_id: &String) -> (r: u64)
        requires
            self.wf(),
        ensures
            r == self.stream(aggregate_id@).len(),
    {
        match self.find(aggregate_id) {
            Some(i) => self.streams[i].events.len() as u64,
            None => 0,
        }
    }

    /// Loads an aggregate's full event stream, in sequence order.
    pub fn load(&self, aggregate_id: &String) -> (r: Vec<StoredEvent>)
        requires
            self.wf(),
        ensures
            stored_views(r@) == self.stream(aggregate_id@),
    {
        let mut r: Vec<StoredEvent> = Vec::new();
        match self.find(aggregate_id) {
            None => {
                proof {
                    assert(stored_views(r@) =~= Seq::<StoredEventView>::empty());
                }
            },
            Some(i) => {
                let stream = &self.streams[i];
                let mut k: usize = 0;
                proof {
                    assert(stored_views(r@) =~= stream.view_events().take(0));
                }
                while k < stream.events.len()
                    invariant
                        k <= stream.events@.len(),
                        stored_views(r@) == stream.view_events().take(k as int),
                    decreases stream.events@.len() - k,
                {
                    let ghost r0 = r@;
                    let e = stream.events[k].clone();
                    r.push(e);
                    k = k + 1;
                    proof {
                        assert(r@ == r0.push(e));
                        lemma_stored_views_push(r0, e);
                        assert(stored_views(r@) == stored_views(r0).push(e@));
                        assert(e@ == stream.view_events()[k as int - 1]);
                        assert(stream.view_events().take(k as int) =~~= stream.view_events().take(
                            k as int - 1).push(stream.view_events()[k as int - 1]));
                        assert(stored_views(r@) =~~= stream.view_events().take(k as int));
                    }
                }
                proof {
                    assert(stream.view_events().take(stream.events@.len() as int)
                        == stream.view_events());
                }
            },
        }
        r
    }

    /// Appends a batch of new events to one aggregate's stream, atomically.
    ///
    /// Succeeds exactly when `expected` equals the stream's latest sequence
    /// number; the batch is then committed as one indivisible unit with
    /// contiguous sequence numbers and the given metadata attached to every
    /// event, and no other aggregate's stream changes.  Otherwise nothing
    /// changes and the result is a concurrency conflict.
    pub fn append(
        &mut self,
        aggregate_id: &String,
        expected: u64,
        new_events: &Vec<BankAccountEvent>,
        metadata: &Vec<(String, String)>,
    ) -> (r: Result<(), CommandError>)
        requires
            old(self).wf(),
            old(self).stream(aggregate_id@).len() + new_events@.len() <= u64::MAX,
        ensures
            final(self).wf(),
            append_conflicts(old(self).stream(aggregate_id@).len() as int, expected as int) ==> {
                &&& r == Err::<(), CommandError>(CommandError::ConcurrencyConflict)
                &&& *final(self) == *old(self)
            },
            !append_conflicts(old(self).stream(aggregate_id@).len() as int, expected as int) ==> {
                &&& r is Ok
                &&& final(self).stream(aggregate_id@) == old(self).stream(aggregate_id@)
                    + stored_batch(
                    aggregate_id@,
                    expected as int,
                    event_views(new_events@),
                    metadata_views(metadata@),
                )
                &&& forall|id2: Seq<char>|
                    id2 != aggregate_id@ ==> #[trigger] final(self).stream(id2) == old(
                        self,
                    ).stream(id2)
            },
    {
        let ghost pre = *self;
        let i: usize = match self.find(aggregate_id) {
            Some(i) => {
                if expected != self.streams[i].events.len() as u64 {
                    return Err(CommandError::ConcurrencyConflict);
                }
                i
            },
            None => {
                if expected != 0 {
                    return Err(CommandError::ConcurrencyConflict);
                }
                self.streams.push(
                    AccountStream { account_id: aggregate_id.clone(), events: Vec::new() },
                );
                proof {
                    let n = pre.streams@.len() as int;
                    let s = self.streams@[n];
                    assert(s.account_id@ == aggregate_id@);
                    assert forall|j: int| 0 <= j < n implies (#[trigger] self.streams@[j]).account_id@
                        != aggregate_id@ by {
                        if self.streams@[j].account_id@ == aggregate_id@ {
                            assert(pre.has_stream(aggregate_id@));
                        }
                    }
                    assert(s.wf());
                    assert(self.wf());
                    self.lemma_index_unique(aggregate_id@, n);
                    assert(s.view_events() =~= Seq::<StoredEventView>::empty());
                    assert(self.stream(aggregate_id@) == pre.stream(aggregate_id@));
                    EventStore::lemma_stream_push_other(pre, *self, s);
                }
                self.streams.len() - 1
            },
        };
        let ghost mid = *self;
        proof {
            assert(mid.stream(aggregate_id@) == pre.stream(aggregate_id@));
            assert(mid.index_of(aggregate_id@) == i as int);
            assert(mid.streams@[i as int].view_events() == pre.stream(aggregate_id@));
            assert(forall|id2: Seq<char>|
                id2 != aggregate_id@ ==> #[trigger] mid.stream(id2) == pre.stream(id2));
        }
        let ghost batch = stored_batch(
            aggregate_id@,
            expected as int,
            event_views(new_events@),
            metadata_views(metadata@),
        );
        let mut k: usize = 0;
        while k < new_events.len()
            invariant
                mid.wf(),
                (i as int) < mid.streams@.len(),
                self.streams@.len() == mid.streams@.len(),
                forall|j: int|
                    0 <= j < mid.streams@.len() && j != i as int ==> #[trigger] self.streams@[j]
                        == mid.streams@[j],
                self.streams@[i as int].account_id == mid.streams@[i as int].account_id,
                mid.streams@[i as int].account_id@ == aggregate_id@,
                k <= new_events@.len(),
                expected == mid.streams@[i as int].events@.len(),
                expected + new_events@.len() <= u64::MAX,
                batch == stored_batch(
                    aggregate_id@,
                    expected as int,
                    event_views(new_events@),
                    metadata_views(metadata@),
                ),
                self.streams@[i as int].view_events() == mid.streams@[i as int].view_events()
                    + batch.take(k as int),
                self.streams@[i as int].wf(),
            decreases new_events@.len() - k,
        {
            let se = StoredEvent {
                aggregate_id: aggregate_id.clone(),
                sequence: expected + (k as u64) + 1,
                payload: new_events[k].clone(),
                metadata: clone_metadata(metadata),
            };
            proof {
                assert(event_views(new_events@)[k as int] == new_events@[k as int]@);
                assert(se@ =~~= batch[k as int]);
            }
            let ghost pre_events = self.streams@[i as int].events@;
            self.streams[i].events.push(se);
            k = k + 1;
            proof {
                assert(self.streams@[i as int].events@ == pre_events.push(se));
                lemma_stored_views_push(pre_events, se);
                assert(self.streams@[i as int].view_events() == stored_views(pre_events).push(
                    se@));
                assert(batch.take(k as int) =~~= batch.take(k as int - 1).push(
                    batch[k as int - 1]));
                assert(self.streams@[i as int].view_events() =~~= mid.streams@[
                    i as int].view_events() + batch.take(k as int));
                let st = self.streams@[i as int];
                assert forall|kk: int| 0 <= kk < st.events@.len() implies {
                    &&& (#[trigger] st.events@[kk])@.aggregate_id == st.account_id@
                    &&& st.events@[kk]@.sequence == kk + 1
                } by {
                    if kk < pre_events.len() {
                        assert(st.events@[kk] == pre_events[kk]);
                    } else {
                        assert(st.events@[kk] == se);
                    }
                }
                assert(st.wf());
            }
        }
        proof {
            assert(batch.take(new_events@.len() as int) == batch);
            assert forall|ii: int, jj: int| 0 <= ii < jj < self.streams@.len() implies (
            #[trigger] self.streams@[ii]).account_id@ != (#[trigger] self.streams@[jj]).account_id@ by {
                assert(self.streams@[ii].account_id@ == mid.streams@[ii].account_id@);
                assert(self.streams@[jj].account_id@ == mid.streams@[jj].account_id@);
            }
            assert forall|j: int| 0 <= j < self.streams@.len() implies (
            #[trigger] self.streams@[j]).wf() by {
                if j != i as int {
                    assert(self.streams@[j] == mid.streams@[j]);
                }
            }
            assert(self.wf());
            self.lemma_index_unique(aggregate_id@, i as int);
            assert(self.stream(aggregate_id@) == pre.stream(aggregate_id@) + batch);
            EventStore::lemma_streams_agree_off(mid, *self, i as int);
            assert forall|id2: Seq<char>| id2 != aggregate_id@ implies #[trigger] self.stream(id2)
                == pre.stream(id2) by {
                assert(self.stream(id2) == mid.stream(id2));
                assert(mid.stream(id2) == pre.stream(id2));
            }
        }
        Ok(())
    }
}

} // verus!
