//! The durable state of an event backend, as a mathematical value: one
//! stream of stored events and at most one snapshot per aggregate, each
//! addressed by aggregate type and aggregate id.

use crate::contexts::{EventContextView, MetadataView};
use crate::domain::{replay, IAggregate};
use vstd::prelude::*;

verus! {

/// One stored event: its position in the stream, its payload and the
/// metadata of the batch it was committed with.
pub struct StoredEvent<E> {
    pub sequence: usize,
    pub payload: E,
    pub metadata: MetadataView,
}

/// The row that stores a committed event.
pub open spec fn stored<E>(context: EventContextView<E>) -> StoredEvent<E> {
    StoredEvent { sequence: context.sequence, payload: context.payload, metadata: context.metadata }
}

/// Whether some event of the stream carries this sequence number.
pub open spec fn stream_has<E>(stream: Seq<StoredEvent<E>>, sequence: usize) -> bool {
    exists|i: int| 0 <= i < stream.len() && (#[trigger] stream[i]).sequence == sequence
}

/// Whether the sequence numbers of the stream strictly increase.
pub open spec fn ascending<E>(stream: Seq<StoredEvent<E>>) -> bool {
    forall|i: int, j: int|
        0 <= i < j < stream.len() ==> (#[trigger] stream[i]).sequence < (#[trigger] stream[j]).sequence
}

/// The stream with one more event, placed in front of the trailing events
/// whose sequence number is not smaller than its own. On an ascending
/// stream that lacks the number this keeps the stream ascending; where the
/// new number exceeds the last one it is a plain append.
pub open spec fn stream_put<E>(stream: Seq<StoredEvent<E>>, event: StoredEvent<E>) -> Seq<StoredEvent<E>>
    decreases stream.len(),
{
    if stream.len() == 0 || stream.last().sequence < event.sequence {
        stream.push(event)
    } else {
        stream_put(stream.drop_last(), event).push(stream.last())
    }
}

/// The payloads of a stream, in stream order.
pub open spec fn stream_payloads<E>(stream: Seq<StoredEvent<E>>) -> Seq<E> {
    stream.map_values(|e: StoredEvent<E>| e.payload)
}

/// The sequence number of the last event of a stream, 0 for an empty one.
pub open spec fn last_sequence<E>(stream: Seq<StoredEvent<E>>) -> usize {
    if stream.len() == 0 {
        0
    } else {
        stream.last().sequence
    }
}

/// The address of a stream or snapshot: aggregate type, then aggregate id.
pub type StreamKey = (Seq<char>, Seq<char>);

/// Everything an event backend holds.
#[verifier::ext_equal]
pub struct EventLog<A: IAggregate> {
    pub streams: Map<StreamKey, Seq<StoredEvent<A::Event>>>,
    pub snapshots: Map<StreamKey, (usize, A)>,
}

impl<A: IAggregate> EventLog<A> {
    /// A backend that holds nothing.
    pub open spec fn empty() -> Self {
        EventLog { streams: Map::empty(), snapshots: Map::empty() }
    }

    /// The events stored for an aggregate, ascending by sequence number;
    /// empty for an aggregate that was never written.
    pub open spec fn stream(self, aggregate_type: Seq<char>, aggregate_id: Seq<char>) -> Seq<
        StoredEvent<A::Event>,
    > {
        if self.streams.contains_key((aggregate_type, aggregate_id)) {
            self.streams[(aggregate_type, aggregate_id)]
        } else {
            Seq::empty()
        }
    }

    /// The snapshot stored for an aggregate, if any: the sequence number it
    /// was taken at and the aggregate state.
    pub open spec fn snapshot(self, aggregate_type: Seq<char>, aggregate_id: Seq<char>) -> Option<
        (usize, A),
    > {
        if self.snapshots.contains_key((aggregate_type, aggregate_id)) {
            Some(self.snapshots[(aggregate_type, aggregate_id)])
        } else {
            None
        }
    }

    /// The sequence number of the stored snapshot, 0 where there is none.
    pub open spec fn snapshot_sequence(self, aggregate_type: Seq<char>, aggregate_id: Seq<char>) -> usize {
        match self.snapshot(aggregate_type, aggregate_id) {
            Some(s) => s.0,
            None => 0,
        }
    }

    /// Whether every stream is ascending by sequence number, so that no two
    /// events of an aggregate share a number.
    pub open spec fn ordered(self) -> bool {
        forall|aggregate_type: Seq<char>, aggregate_id: Seq<char>|
            ascending(#[trigger] self.stream(aggregate_type, aggregate_id))
    }

    /// Whether an event with this sequence number is stored for the aggregate.
    pub open spec fn has_sequence(
        self,
        aggregate_type: Seq<char>,
        aggregate_id: Seq<char>,
        sequence: usize,
    ) -> bool {
        stream_has(self.stream(aggregate_type, aggregate_id), sequence)
    }

    /// The log after one event was inserted into an aggregate's stream.
    pub open spec fn with_event(
        self,
        aggregate_type: Seq<char>,
        aggregate_id: Seq<char>,
        event: StoredEvent<A::Event>,
    ) -> Self {
        EventLog {
            streams: self.streams.insert(
                (aggregate_type, aggregate_id),
                stream_put(self.stream(aggregate_type, aggregate_id), event),
            ),
            snapshots: self.snapshots,
        }
    }

    /// The log after a batch was inserted, one event after the other.
    pub open spec fn with_events(
        self,
        aggregate_type: Seq<char>,
        aggregate_id: Seq<char>,
        batch: Seq<EventContextView<A::Event>>,
    ) -> Self
        decreases batch.len(),
    {
        if batch.len() == 0 {
            self
        } else {
            self.with_events(aggregate_type, aggregate_id, batch.drop_last()).with_event(
                aggregate_type,
                aggregate_id,
                stored(batch.last()),
            )
        }
    }

    /// The log after the aggregate's snapshot was written or replaced.
    pub open spec fn with_snapshot(
        self,
        aggregate_type: Seq<char>,
        aggregate_id: Seq<char>,
        last_sequence: usize,
        aggregate: A,
    ) -> Self {
        EventLog {
            streams: self.streams,
            snapshots: self.snapshots.insert((aggregate_type, aggregate_id), (last_sequence, aggregate)),
        }
    }

    /// Whether none of the batch's sequence numbers is taken yet.
    pub open spec fn accepts(
        self,
        aggregate_type: Seq<char>,
        aggregate_id: Seq<char>,
        batch: Seq<EventContextView<A::Event>>,
    ) -> bool {
        forall|i: int|
            0 <= i < batch.len() ==> !self.has_sequence(
                aggregate_type,
                aggregate_id,
                (#[trigger] batch[i]).sequence,
            )
    }

    /// The aggregate's stream as event contexts, with the stored metadata or
    /// with empty metadata.
    pub open spec fn contexts(
        self,
        aggregate_type: Seq<char>,
        aggregate_id: Seq<char>,
        with_metadata: bool,
    ) -> Seq<EventContextView<A::Event>> {
        self.stream(aggregate_type, aggregate_id).map_values(
            |e: StoredEvent<A::Event>|
                EventContextView {
                    aggregate_id,
                    sequence: e.sequence,
                    payload: e.payload,
                    metadata: if with_metadata {
                        e.metadata
                    } else {
                        Map::empty()
                    },
                },
        )
    }

    /// The aggregate rebuilt by folding its whole stream onto the initial
    /// state, with the sequence number of the last event.
    pub open spec fn replayed(self, aggregate_type: Seq<char>, aggregate_id: Seq<char>) -> (A, usize) {
        let stream = self.stream(aggregate_type, aggregate_id);
        (replay(A::spec_initial(), stream_payloads(stream)), last_sequence(stream))
    }

    /// The aggregate taken from its snapshot, at the snapshot's sequence
    /// number; the initial state at 0 where there is no snapshot. Events
    /// stored after the snapshot are not looked at.
    pub open spec fn snapshotted(self, aggregate_type: Seq<char>, aggregate_id: Seq<char>) -> (A, usize) {
        match self.snapshot(aggregate_type, aggregate_id) {
            Some(s) => (s.1, s.0),
            None => (A::spec_initial(), 0),
        }
    }

    /// What loading the aggregate yields, in snapshot mode or in replay mode.
    pub open spec fn hydrated(
        self,
        aggregate_type: Seq<char>,
        aggregate_id: Seq<char>,
        with_snapshots: bool,
    ) -> (A, usize) {
        if with_snapshots {
            self.snapshotted(aggregate_type, aggregate_id)
        } else {
            self.replayed(aggregate_type, aggregate_id)
        }
    }
}


/// Inserting an event adds its sequence number to those of the stream and
/// takes none away.
pub proof fn lemma_stream_put_has<E>(stream: Seq<StoredEvent<E>>, event: StoredEvent<E>, sequence: usize)
    ensures
        stream_has(stream_put(stream, event), sequence) <==> stream_has(stream, sequence) || event.sequence
            == sequence,
    decreases stream.len(),
{
    let after = stream_put(stream, event);
    if stream.len() == 0 || stream.last().sequence < event.sequence {
        assert(after == stream.push(event));
        if stream_has(after, sequence) {
            let i = choose|i: int| 0 <= i < after.len() && (#[trigger] after[i]).sequence == sequence;
            if i < stream.len() {
                assert(stream[i].sequence == sequence);
            }
        }
        if stream_has(stream, sequence) {
            let i = choose|i: int| 0 <= i < stream.len() && (#[trigger] stream[i]).sequence == sequence;
            assert(after[i].sequence == sequence);
        }
        if event.sequence == sequence {
            assert(after[stream.len() as int].sequence == sequence);
        }
    } else {
        let front = stream.drop_last();
        let inner = stream_put(front, event);
        lemma_stream_put_has(front, event, sequence);
        assert(after == inner.push(stream.last()));
        if stream_has(after, sequence) {
            let i = choose|i: int| 0 <= i < after.len() && (#[trigger] after[i]).sequence == sequence;
            if i < inner.len() {
                assert(inner[i].sequence == sequence);
                assert(stream_has(inner, sequence));
                if stream_has(front, sequence) {
                    let j = choose|j: int| 0 <= j < front.len() && (#[trigger] front[j]).sequence == sequence;
                    assert(stream[j].sequence == sequence);
                }
            } else {
                assert(stream[stream.len() - 1].sequence == sequence);
            }
        }
        if stream_has(stream, sequence) {
            let i = choose|i: int| 0 <= i < stream.len() && (#[trigger] stream[i]).sequence == sequence;
            if i < front.len() {
                assert(front[i].sequence == sequence);
                assert(stream_has(front, sequence));
                assert(stream_has(inner, sequence));
                let j = choose|j: int| 0 <= j < inner.len() && (#[trigger] inner[j]).sequence == sequence;
                assert(after[j].sequence == sequence);
            } else {
                assert(after[inner.len() as int].sequence == sequence);
            }
        }
        if event.sequence == sequence {
            assert(stream_has(inner, sequence));
            let j = choose|j: int| 0 <= j < inner.len() && (#[trigger] inner[j]).sequence == sequence;
            assert(after[j].sequence == sequence);
        }
    }
}

/// Where the new sequence number exceeds every stored one, inserting is
/// appending.
pub proof fn lemma_stream_put_appends<E>(stream: Seq<StoredEvent<E>>, event: StoredEvent<E>)
    requires
        ascending(stream),
        last_sequence(stream) < event.sequence || stream.len() == 0,
    ensures
        stream_put(stream, event) == stream.push(event),
        ascending(stream.push(event)),
{
}

impl<A: IAggregate> EventLog<A> {
    /// Inserting events leaves every snapshot as it was.
    pub proof fn lemma_with_events_keeps_snapshots(
        self,
        aggregate_type: Seq<char>,
        aggregate_id: Seq<char>,
        batch: Seq<EventContextView<A::Event>>,
    )
        ensures
            self.with_events(aggregate_type, aggregate_id, batch).snapshots == self.snapshots,
        decreases batch.len(),
    {
        if batch.len() > 0 {
            self.lemma_with_events_keeps_snapshots(aggregate_type, aggregate_id, batch.drop_last());
        }
    }

    /// A log without events is ordered.
    pub proof fn lemma_empty_is_ordered()
        ensures
            Self::empty().ordered(),
    {
    }

    /// Inserting an event with a free sequence number keeps the log ordered.
    pub proof fn lemma_with_event_keeps_ordered(
        self,
        aggregate_type: Seq<char>,
        aggregate_id: Seq<char>,
        event: StoredEvent<A::Event>,
    )
        requires
            self.ordered(),
            !self.has_sequence(aggregate_type, aggregate_id, event.sequence),
        ensures
            self.with_event(aggregate_type, aggregate_id, event).ordered(),
    {
        let inserted = self.with_event(aggregate_type, aggregate_id, event);
        assert(ascending(self.stream(aggregate_type, aggregate_id)));
        lemma_stream_put_keeps_ascending(self.stream(aggregate_type, aggregate_id), event);
        assert forall|t: Seq<char>, id: Seq<char>| ascending(#[trigger] inserted.stream(t, id)) by {
            if (t, id) != (aggregate_type, aggregate_id) {
                assert(inserted.stream(t, id) == self.stream(t, id));
            } else {
                assert(inserted.stream(t, id) == stream_put(self.stream(aggregate_type, aggregate_id), event));
            }
            assert(ascending(self.stream(t, id)));
        }
    }

    /// Writing a snapshot keeps the log ordered.
    pub proof fn lemma_with_snapshot_keeps_ordered(
        self,
        aggregate_type: Seq<char>,
        aggregate_id: Seq<char>,
        last_sequence: usize,
        aggregate: A,
    )
        requires
            self.ordered(),
        ensures
            self.with_snapshot(aggregate_type, aggregate_id, last_sequence, aggregate).ordered(),
    {
        let snapped = self.with_snapshot(aggregate_type, aggregate_id, last_sequence, aggregate);
        assert forall|t: Seq<char>, id: Seq<char>| ascending(#[trigger] snapped.stream(t, id)) by {
            assert(snapped.stream(t, id) == self.stream(t, id));
        }
    }

    /// Inserting events of one aggregate leaves the streams of the others
    /// as they were.
    pub proof fn lemma_with_events_keeps_other_streams(
        self,
        aggregate_type: Seq<char>,
        aggregate_id: Seq<char>,
        batch: Seq<EventContextView<A::Event>>,
        other_type: Seq<char>,
        other_id: Seq<char>,
    )
        requires
            (other_type, other_id) != (aggregate_type, aggregate_id),
        ensures
            self.with_events(aggregate_type, aggregate_id, batch).stream(other_type, other_id) == self.stream(
                other_type,
                other_id,
            ),
        decreases batch.len(),
    {
        if batch.len() > 0 {
            self.lemma_with_events_keeps_other_streams(
                aggregate_type,
                aggregate_id,
                batch.drop_last(),
                other_type,
                other_id,
            );
        }
    }

    /// After a batch was inserted, the taken sequence numbers are those
    /// taken before and those of the batch.
    pub proof fn lemma_with_events_has_sequence(
        self,
        aggregate_type: Seq<char>,
        aggregate_id: Seq<char>,
        batch: Seq<EventContextView<A::Event>>,
        sequence: usize,
    )
        ensures
            self.with_events(aggregate_type, aggregate_id, batch).has_sequence(
                aggregate_type,
                aggregate_id,
                sequence,
            ) <==> self.has_sequence(aggregate_type, aggregate_id, sequence) || exists|i: int|
                0 <= i < batch.len() && (#[trigger] batch[i]).sequence == sequence,
        decreases batch.len(),
    {
        if batch.len() > 0 {
            let front = batch.drop_last();
            let before = self.with_events(aggregate_type, aggregate_id, front);
            self.lemma_with_events_has_sequence(aggregate_type, aggregate_id, front, sequence);
            lemma_stream_put_has(before.stream(aggregate_type, aggregate_id), stored(batch.last()), sequence);
            if exists|i: int| 0 <= i < front.len() && (#[trigger] front[i]).sequence == sequence {
                let i = choose|i: int| 0 <= i < front.len() && (#[trigger] front[i]).sequence == sequence;
                assert(batch[i].sequence == sequence);
            }
            if batch.last().sequence == sequence {
                assert(batch[batch.len() - 1].sequence == sequence);
            }
            if exists|i: int| 0 <= i < batch.len() && (#[trigger] batch[i]).sequence == sequence {
                let i = choose|i: int| 0 <= i < batch.len() && (#[trigger] batch[i]).sequence == sequence;
                if i < front.len() {
                    assert(front[i].sequence == sequence);
                }
            }
        }
    }
}


/// Inserting in front of the trailing events that are not smaller is what
/// `stream_put` does.
pub proof fn lemma_stream_put_is_insert<E>(stream: Seq<StoredEvent<E>>, event: StoredEvent<E>, position: int)
    requires
        0 <= position <= stream.len(),
        forall|j: int| position <= j < stream.len() ==> (#[trigger] stream[j]).sequence >= event.sequence,
        position == 0 || stream[position - 1].sequence < event.sequence,
    ensures
        stream_put(stream, event) == stream.insert(position, event),
    decreases stream.len() - position,
{
    if position == stream.len() {
        assert(stream.push(event) =~= stream.insert(position, event));
    } else {
        let front = stream.drop_last();
        assert(stream[stream.len() - 1].sequence >= event.sequence);
        assert forall|j: int| position <= j < front.len() implies (#[trigger] front[j]).sequence
            >= event.sequence by {
            assert(front[j] == stream[j]);
        }
        lemma_stream_put_is_insert(front, event, position);
        assert(front.insert(position, event).push(stream.last()) =~= stream.insert(position, event));
    }
}


/// Whether the stream is numbered 1, 2, 3, ... without a gap.
pub open spec fn gap_free<E>(stream: Seq<StoredEvent<E>>) -> bool {
    forall|i: int| 0 <= i < stream.len() ==> (#[trigger] stream[i]).sequence == i + 1
}

/// On an ascending stream that lacks the new sequence number, inserting
/// keeps the stream ascending, keeps every stored event, and adds exactly
/// the new one.
pub proof fn lemma_stream_put_keeps_ascending<E>(stream: Seq<StoredEvent<E>>, event: StoredEvent<E>)
    requires
        ascending(stream),
        !stream_has(stream, event.sequence),
    ensures
        ascending(stream_put(stream, event)),
        stream_put(stream, event).len() == stream.len() + 1,
        stream_put(stream, event).contains(event),
        forall|i: int| 0 <= i < stream.len() ==> stream_put(stream, event).contains(#[trigger] stream[i]),
    decreases stream.len(),
{
    let after = stream_put(stream, event);
    if stream.len() == 0 || stream.last().sequence < event.sequence {
        assert(after == stream.push(event));
        assert(after[stream.len() as int] == event);
        assert forall|i: int| 0 <= i < stream.len() implies after.contains(#[trigger] stream[i]) by {
            assert(after[i] == stream[i]);
        }
    } else {
        let front = stream.drop_last();
        let inner = stream_put(front, event);
        assert(ascending(front)) by {
            assert forall|i: int, j: int| 0 <= i < j < front.len() implies (#[trigger] front[i]).sequence < (
            #[trigger] front[j]).sequence by {
                assert(front[i] == stream[i] && front[j] == stream[j]);
            }
        }
        assert(!stream_has(front, event.sequence)) by {
            if stream_has(front, event.sequence) {
                let i = choose|i: int| 0 <= i < front.len() && (#[trigger] front[i]).sequence == event.sequence;
                assert(stream[i].sequence == event.sequence);
            }
        }
        lemma_stream_put_keeps_ascending(front, event);
        assert(after == inner.push(stream.last()));
        assert(stream[stream.len() - 1].sequence != event.sequence);
        // every event of `inner` is the new one or one of `front`, so it is smaller than the last
        assert forall|i: int| 0 <= i < inner.len() implies (#[trigger] inner[i]).sequence
            < stream.last().sequence by {
            lemma_stream_put_has(front, event, inner[i].sequence);
            assert(stream_has(inner, inner[i].sequence));
            if inner[i].sequence != event.sequence {
                let j = choose|j: int| 0 <= j < front.len() && (#[trigger] front[j]).sequence == inner[i].sequence;
                assert(front[j] == stream[j]);
                assert(stream[j].sequence < stream[stream.len() - 1].sequence);
            }
        }
        assert forall|i: int, j: int| 0 <= i < j < after.len() implies (#[trigger] after[i]).sequence < (
        #[trigger] after[j]).sequence by {
            if j < inner.len() {
                assert(after[i] == inner[i] && after[j] == inner[j]);
            } else {
                assert(after[i] == inner[i]);
            }
        }
        let at = choose|i: int| 0 <= i < inner.len() && inner[i] == event;
        assert(after[at] == event);
        assert forall|i: int| 0 <= i < stream.len() implies after.contains(#[trigger] stream[i]) by {
            if i < front.len() {
                assert(front[i] == stream[i]);
                assert(inner.contains(front[i]));
                let k = choose|k: int| 0 <= k < inner.len() && inner[k] == front[i];
                assert(after[k] == stream[i]);
            } else {
                assert(after[inner.len() as int] == stream[i]);
            }
        }
    }
}

} // verus!
