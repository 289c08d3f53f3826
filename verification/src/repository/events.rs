//! The log of the cluster's events: numbered, dated, and told in order.

use crate::json::{Json, JsonView};
use crate::order::page;
use crate::repository::{ClusterEvent, EventView, Repository, RepositoryView};
use crate::text;
use vstd::prelude::*;
use vstd::slice::slice_subrange;

verus! {

/// An event that the log holds.
pub struct StoredEvent {
    pub sequence: u64,
    pub event_type: String,
    pub payload: Json,
    pub created_at: i128,
}

/// An event that the log holds, as values.
pub struct StoredEventView {
    pub sequence: u64,
    pub event: EventView,
    pub created_at: i128,
}

impl StoredEvent {
    pub open spec fn view(&self) -> StoredEventView {
        StoredEventView {
            sequence: self.sequence,
            event: EventView { event_type: self.event_type@, payload: self.payload@ },
            created_at: self.created_at,
        }
    }
}

/// Whether events are numbered from one on without gaps.
pub open spec fn numbered(events: Seq<StoredEventView>) -> bool {
    forall|i: int| 0 <= i < events.len() ==> (#[trigger] events[i]).sequence == i + 1
}

/// Whether events are numbered upwards.
pub open spec fn in_sequence(events: Seq<StoredEventView>) -> bool {
    &&& forall|i: int| 0 <= i < events.len() ==> 0 < (#[trigger] events[i]).sequence
    &&& forall|i: int, j: int|
        0 <= i < j < events.len() ==> (#[trigger] events[i]).sequence < (
        #[trigger] events[j]).sequence
}

/// The events as values.
pub open spec fn event_views(events: Seq<StoredEvent>) -> Seq<StoredEventView> {
    events.map_values(|e: StoredEvent| e@)
}

/// The events of the cluster, numbered upwards.
pub struct EventLog {
    events: Vec<StoredEvent>,
}

impl EventLog {
    pub closed spec fn view(&self) -> Seq<StoredEventView> {
        event_views(self.events@)
    }

    #[verifier::type_invariant]
    spec fn all_numbered(self) -> bool {
        numbered(event_views(self.events@))
    }

    /// A log without events.
    pub fn new() -> (log: EventLog)
        ensures
            log@ == Seq::<StoredEventView>::empty(),
    {
        let events: Vec<StoredEvent> = Vec::new();
        assert(event_views(events@) =~= Seq::empty());
        EventLog { events }
    }

    /// Adds an event under the next number. A log has room for as many events as a vector can hold, and
    /// the numbers reach as far.
    fn append(&mut self, event: &ClusterEvent, created_at: i128) -> (sequence: u64)
        ensures
            numbered(old(self)@),
            sequence == old(self)@.len() + 1,
            final(self)@ == appended(old(self)@, event@, created_at),
    {
        proof {
            use_type_invariant(&*self);
        }
        let events: Vec<StoredEvent> = Vec::new();
        assert(event_views(events@) =~= Seq::empty());
        let mut whole = EventLog { events };
        std::mem::swap(self, &mut whole);
        let EventLog { mut events } = whole;
        let ghost before = event_views(events@);
        events.push(
            StoredEvent {
                sequence: 0,
                event_type: text::owned(event.event_type.as_str()),
                payload: event.payload.copy(),
                created_at,
            },
        );
        let last: usize = events.len() - 1;
        let sequence: u64 = events.len() as u64;
        let ghost pushed = events@;
        events[last].sequence = sequence;
        assert(event_views(events@) =~= appended(before, event@, created_at));
        *self = EventLog { events };
        sequence
    }

    /// The number of the last event, or zero where there is none.
    fn last_sequence(&self) -> (sequence: u64)
        ensures
            sequence == self@.len(),
    {
        self.events.len() as u64
    }

    /// The events after a number, in their order, at most so many.
    fn told(&self, after: u64, count: usize) -> (found: &[StoredEvent])
        ensures
            numbered(self@),
            event_views(found@) == first_events(after_sequence(self@, after as int), count as int),
            in_sequence(event_views(found@)),
    {
        proof {
            use_type_invariant(self);
        }
        let mut from: usize = 0;
        while from < self.events.len() && self.events[from].sequence <= after
            invariant
                from <= self.events@.len(),
                forall|i: int| 0 <= i < from ==> (#[trigger] self.events@[i]).sequence <= after,
            decreases self.events@.len() - from,
        {
            from += 1;
        }
        let left: usize = self.events.len() - from;
        let to: usize = if left <= count {
            self.events.len()
        } else {
            from + count
        };
        proof {
            let all = self@;
            assert forall|i: int| 0 <= i < from implies (#[trigger] all[i]).sequence <= after by {
                assert(all[i] == self.events@[i]@);
            }
            if from < all.len() {
                assert(all[from as int] == self.events@[from as int]@);
            }
            lemma_after_sequence(all, after as int, from as int);
            assert(event_views(self.events@.subrange(from as int, to as int)) =~= first_events(
                all.skip(from as int),
                count as int,
            ));
        }
        slice_subrange(self.events.as_slice(), from, to)
    }
}

/// The log after one more event.
pub open spec fn appended(
    events: Seq<StoredEventView>,
    event: EventView,
    created_at: i128,
) -> Seq<StoredEventView> {
    events.push(StoredEventView { sequence: (events.len() + 1) as u64, event, created_at })
}

/// The log after more events, one after the other.
pub open spec fn all_appended(
    events: Seq<StoredEventView>,
    more: Seq<EventView>,
    created_at: i128,
) -> Seq<StoredEventView>
    decreases more.len(),
{
    if more.len() == 0 {
        events
    } else {
        appended(all_appended(events, more.drop_last(), created_at), more.last(), created_at)
    }
}

/// A state whose log holds one more event.
pub open spec fn logged(v: RepositoryView, event: EventView, now: i128) -> RepositoryView {
    RepositoryView { events: appended(v.events, event, now), ..v }
}

/// A state whose log holds the event that a change brings, where it brings one.
pub open spec fn logged_any(v: RepositoryView, e: Option<ClusterEvent>, now: i128) -> RepositoryView {
    match e {
        Some(e) => logged(v, e@, now),
        None => v,
    }
}

/// A state whose log holds more events.
pub open spec fn all_logged(v: RepositoryView, more: Seq<EventView>, now: i128) -> RepositoryView {
    RepositoryView { events: all_appended(v.events, more, now), ..v }
}

/// The events after a number, in their order.
pub open spec fn after_sequence(events: Seq<StoredEventView>, after: int) -> Seq<StoredEventView> {
    events.filter(|e: StoredEventView| e.sequence > after)
}

/// The first so many events.
pub open spec fn first_events(events: Seq<StoredEventView>, count: int) -> Seq<StoredEventView> {
    if events.len() <= count {
        events
    } else {
        events.take(count)
    }
}

/// The events that are told to one who knows those up to a number: none before the first counts, and
/// at least one and at most a thousand are told.
pub open spec fn told_events(events: Seq<StoredEventView>, after: int, limit: i64) -> Seq<
    StoredEventView,
> {
    first_events(
        after_sequence(
            events,
            if after < 0 {
                0
            } else {
                after
            },
        ),
        page(limit as int),
    )
}

/// Where events are in sequence, those after a number are the ones behind the last that is not.
proof fn lemma_after_sequence(events: Seq<StoredEventView>, after: int, from: int)
    requires
        in_sequence(events),
        0 <= from <= events.len(),
        forall|i: int| 0 <= i < from ==> (#[trigger] events[i]).sequence <= after,
        from < events.len() ==> events[from].sequence > after,
    ensures
        after_sequence(events, after) == events.skip(from),
    decreases events.len(),
{
    let later = |e: StoredEventView| e.sequence > after;
    reveal(Seq::filter);
    if events.len() > 0 {
        let n = events.len() - 1;
        let front = events.drop_last();
        if from == events.len() {
            lemma_after_sequence(front, after, n as int);
            assert(!later(events.last()));
            assert(events.skip(from) =~= front.skip(n as int));
        } else {
            assert(events[n as int].sequence > after);
            lemma_after_sequence(front, after, from);
            assert(later(events.last()));
            assert(events.skip(from) =~= front.skip(from).push(events.last()));
        }
    } else {
        assert(events.skip(from) =~= events);
    }
}

impl Repository {
    /// Numbers and dates an event, and keeps it.
    pub fn insert_event(&mut self, event: &ClusterEvent, now: i128) -> (sequence: u64)
        ensures
            sequence == old(self)@.events.len() + 1,
            final(self)@ == logged(old(self)@, event@, now),
            final(self).nodes == old(self).nodes,
    {
        self.events.append(event, now)
    }

    /// The number of the last event, or zero where there is none.
    pub fn last_sequence(&self) -> (sequence: u64)
        ensures
            sequence == self@.events.len(),
    {
        self.events.last_sequence()
    }

    /// Keeps the event of a change, and hands it on.
    pub(crate) fn record(&mut self, event: ClusterEvent, now: i128) -> (r: ClusterEvent)
        ensures
            r == event,
            final(self)@ == logged(old(self)@, event@, now),
            final(self).nodes == old(self).nodes,
    {
        let _sequence: u64 = self.insert_event(&event, now);
        event
    }

    /// Returns ordered events after a sequence, bounded by the supplied limit.
    pub fn events_after(&self, after: i64, limit: i64) -> (found: &[StoredEvent])
        ensures
            event_views(found@) == told_events(self@.events, after as int, limit),
            in_sequence(event_views(found@)),
            numbered(self@.events),
    {
        let from: u64 = if after < 0 {
            0
        } else {
            after as u64
        };
        let count: usize = if limit < 1 {
            1
        } else if limit > 1_000 {
            1_000
        } else {
            limit as usize
        };
        self.events.told(from, count)
    }
}

/// Events are numbered from one on without gaps, and stay so.
pub proof fn law_events_are_numbered_upwards(
    events: Seq<StoredEventView>,
    event: EventView,
    created_at: i128,
)
    requires
        numbered(events),
        events.len() < u64::MAX,
    ensures
        numbered(appended(events, event, created_at)),
        in_sequence(appended(events, event, created_at)),
{
}

/// An event that a change has put in the log is told to whoever asks for those after an earlier one:
/// the next events begin with it.
pub proof fn law_a_logged_event_is_told(v: RepositoryView, event: EventView, now: i128, limit: i64)
    requires
        numbered(v.events),
        v.events.len() < u64::MAX,
    ensures
        told_events(logged(v, event, now).events, v.events.len() as int, limit) == Seq::empty().push(
            StoredEventView {
                sequence: (v.events.len() + 1) as u64,
                event,
                created_at: now,
            },
        ),
{
    let after = logged(v, event, now).events;
    let n = v.events.len() as int;
    lemma_after_sequence(after, n, n);
    assert(after.skip(n) =~= Seq::empty().push(after.last()));
}

/// Nobody misses an event or hears one twice: who asks for events, and then for those after the last
/// one heard, has heard the same as one who asked for as many at once.
pub proof fn law_no_event_is_missed(
    events: Seq<StoredEventView>,
    after: int,
    limit: i64,
    next_limit: i64,
)
    requires
        in_sequence(events),
        told_events(events, after, limit).len() > 0,
    ensures
        ({
            let first = told_events(events, after, limit);
            let next = told_events(events, first.last().sequence as int, next_limit);
            let from = if after < 0 {
                0
            } else {
                after
            };
            first + next == after_sequence(events, from).take((first.len() + next.len()) as int)
        }),
{
    let from = if after < 0 {
        0
    } else {
        after
    };
    let p = lemma_split(events, from);
    lemma_after_sequence(events, from, p);
    let first = told_events(events, after, limit);
    let q = p + first.len();
    assert(first =~= events.subrange(p, q));
    assert(first.last() == events[q - 1]);
    let last = first.last().sequence as int;
    assert(last > 0);
    lemma_after_sequence(events, last, q);
    let next = told_events(events, last, next_limit);
    assert(first + next =~= events.skip(p).take((first.len() + next.len()) as int));
}

/// There is a place before which all events have at most a number, and behind which they have more.
proof fn lemma_split(events: Seq<StoredEventView>, after: int) -> (p: int)
    requires
        in_sequence(events),
    ensures
        0 <= p <= events.len(),
        forall|i: int| 0 <= i < p ==> (#[trigger] events[i]).sequence <= after,
        p < events.len() ==> events[p].sequence > after,
    decreases events.len(),
{
    if events.len() == 0 {
        0
    } else {
        let front = events.drop_last();
        let p = lemma_split(front, after);
        assert forall|i: int| 0 <= i < p implies (#[trigger] events[i]).sequence <= after by {
            assert(events[i] == front[i]);
        }
        if p < front.len() {
            assert(events[p] == front[p]);
            p
        } else if events.last().sequence > after {
            p
        } else {
            p + 1
        }
    }
}

} // verus!
