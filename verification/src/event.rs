//! Event system — double-buffered event storage with reader/writer handles.

use vstd::prelude::*;

use std::marker::PhantomData;

verus! {

/// Marker trait for event types. Any `'static + Send + Sync` type is an event.
pub trait Event: 'static + Send + Sync {}

impl<T: 'static + Send + Sync> Event for T {}

/// The abstract state of an event store: the events of this frame and those
/// of the previous frame, each in the order they were sent, and the number
/// of the current frame (it changes, wrapping, at every flush and clear).
pub struct EventsView<E> {
    pub current: Seq<E>,
    pub previous: Seq<E>,
    pub frame: u64,
}

/// The number of the frame that follows frame `f`.
pub open spec fn next_frame(f: u64) -> u64 {
    if f == u64::MAX {
        0
    } else {
        (f + 1) as u64
    }
}

/// The state after sending `e`: it is appended to this frame's events.
pub open spec fn events_after_send<E>(v: EventsView<E>, e: E) -> EventsView<E> {
    EventsView { current: v.current.push(e), ..v }
}

/// The state after sending each of `es`, in order.
pub open spec fn events_after_sends<E>(v: EventsView<E>, es: Seq<E>) -> EventsView<E>
    decreases es.len(),
{
    if es.len() == 0 {
        v
    } else {
        events_after_send(events_after_sends(v, es.drop_last()), es.last())
    }
}

/// The state after a flush: this frame's events become the previous frame's,
/// and a new, empty frame starts (the old previous frame is dropped).
pub open spec fn events_after_flush<E>(v: EventsView<E>) -> EventsView<E> {
    EventsView { current: Seq::empty(), previous: v.current, frame: next_frame(v.frame) }
}

/// The state after a clear: both frames empty, and a new frame starts.
pub open spec fn events_after_clear<E>(v: EventsView<E>) -> EventsView<E> {
    EventsView { current: Seq::empty(), previous: Seq::empty(), frame: next_frame(v.frame) }
}

/// The events of frame `current` from position `cursor` on.
pub open spec fn unread<E>(current: Seq<E>, cursor: nat) -> Seq<E> {
    if cursor <= current.len() {
        current.subrange(cursor as int, current.len() as int)
    } else {
        Seq::empty()
    }
}

/// The events of the store's current frame that a reader has not returned
/// yet: those past its cursor when it last read this frame, and all of them
/// when it last read in another frame.
pub open spec fn pending<E>(v: EventsView<E>, cursor: nat, frame: u64) -> Seq<E> {
    if frame == v.frame {
        unread(v.current, cursor)
    } else {
        v.current
    }
}

/// Double-buffered event storage for a single event type.
///
/// Events sent this frame are available to readers. At the end of the frame
/// (or when `flush` is called), the buffer rotates: current events become
/// "previous" and can still be read for one more frame, then they're cleared.
pub struct Events<E> {
    buffer_a: Vec<E>,
    buffer_b: Vec<E>,
    /// Whether `buffer_a` is the "current" (write) buffer.
    current_is_a: bool,
    /// Number of events in the current buffer at the start of this frame.
    start_count: usize,
    /// Number of the current frame.
    frame: u64,
}

impl<E> Events<E> {
    /// The abstract state of the store.
    pub closed spec fn view(&self) -> EventsView<E> {
        if self.current_is_a {
            EventsView { current: self.buffer_a@, previous: self.buffer_b@, frame: self.frame }
        } else {
            EventsView { current: self.buffer_b@, previous: self.buffer_a@, frame: self.frame }
        }
    }

    /// An empty store.
    pub fn new() -> (s: Self)
        ensures
            s@.current == Seq::<E>::empty(),
            s@.previous == Seq::<E>::empty(),
            s@.frame == 0,
    {
        Events { buffer_a: Vec::new(), buffer_b: Vec::new(), current_is_a: true, start_count: 0, frame: 0 }
    }

    /// Send an event.
    pub fn send(&mut self, event: E)
        ensures
            final(self)@ == events_after_send(old(self)@, event),
    {
        self.current_buffer_mut().push(event);
    }

    fn current_buffer(&self) -> (b: &Vec<E>)
        ensures
            b@ == self@.current,
    {
        if self.current_is_a {
            &self.buffer_a
        } else {
            &self.buffer_b
        }
    }

    fn current_buffer_mut(&mut self) -> (b: &mut Vec<E>)
        ensures
            b@ == old(self)@.current,
            final(self)@ == (EventsView { current: final(b)@, ..old(self)@ }),
    {
        if self.current_is_a {
            &mut self.buffer_a
        } else {
            &mut self.buffer_b
        }
    }

    fn previous_buffer(&self) -> (b: &Vec<E>)
        ensures
            b@ == self@.previous,
    {
        if self.current_is_a {
            &self.buffer_b
        } else {
            &self.buffer_a
        }
    }

    /// The events sent this frame, in sending order.
    pub fn iter_current(&self) -> (s: &[E])
        ensures
            s@ == self@.current,
    {
        self.current_buffer().as_slice()
    }

    /// The events of the previous frame, in sending order.
    pub fn iter_previous(&self) -> (s: &[E])
        ensures
            s@ == self@.previous,
    {
        self.previous_buffer().as_slice()
    }

    /// Number of events this frame.
    pub fn len(&self) -> (n: usize)
        ensures
            n == self@.current.len(),
    {
        self.current_buffer().len()
    }

    /// True when no event was sent this frame.
    pub fn is_empty(&self) -> (b: bool)
        ensures
            b == (self@.current.len() == 0),
    {
        self.current_buffer().len() == 0
    }

    /// Flush: rotate buffers. Call at end of frame.
    pub fn flush(&mut self)
        ensures
            final(self)@ == events_after_flush(old(self)@),
    {
        if self.current_is_a {
            self.buffer_b.clear();
        } else {
            self.buffer_a.clear();
        }
        self.current_is_a = !self.current_is_a;
        self.start_count = self.current_buffer().len();
        self.frame = self.frame.wrapping_add(1);
    }

    /// Clear all events of both frames.
    pub fn clear(&mut self)
        ensures
            final(self)@ == events_after_clear(old(self)@),
    {
        self.buffer_a.clear();
        self.buffer_b.clear();
        self.start_count = 0;
        self.frame = self.frame.wrapping_add(1);
    }
}

/// Reader for events of type `E`: remembers the frame it last read and how
/// many events of that frame it has already returned.
pub struct EventReader<E> {
    cursor: usize,
    frame: u64,
    _marker: PhantomData<E>,
}

impl<E> EventReader<E> {
    /// The number of events of frame `frame()` already returned.
    pub closed spec fn cursor(&self) -> nat {
        self.cursor as nat
    }

    /// The frame the reader last read.
    pub closed spec fn frame(&self) -> u64 {
        self.frame
    }

    /// A reader that has read nothing.
    pub fn new() -> (r: Self)
        ensures
            r.cursor() == 0,
            r.frame() == 0,
    {
        EventReader { cursor: 0, frame: 0, _marker: PhantomData }
    }

    /// Where reading the current frame of `events` starts.
    fn start(&self, events: &Events<E>) -> (start: usize)
        ensures
            start <= events@.current.len(),
            events@.current.subrange(start as int, events@.current.len() as int) == pending(
                events@,
                self.cursor(),
                self.frame(),
            ),
    {
        let count = events.len();
        if self.frame != events.frame {
            assert(events@.current.subrange(0, count as int) =~= events@.current);
            0
        } else if self.cursor < count {
            self.cursor
        } else {
            assert(events@.current.subrange(count as int, count as int) =~= Seq::<E>::empty());
            count
        }
    }

    /// Read all events of the current frame that this reader has not yet
    /// returned; afterwards the whole current frame counts as read.
    pub fn read<'w>(&mut self, events: &'w Events<E>) -> (s: &'w [E])
        ensures
            s@ == pending(events@, old(self).cursor(), old(self).frame()),
            final(self).cursor() == events@.current.len(),
            final(self).frame() == events@.frame,
    {
        let buffer = events.current_buffer().as_slice();
        let count = buffer.len();
        let start = self.start(events);
        self.cursor = count;
        self.frame = events.frame;
        vstd::slice::slice_subrange(buffer, start, count)
    }

    /// Read the unread events of the current frame together with all events
    /// of the previous frame (useful for catching events even if a system
    /// runs late). The first slice holds the unread current events, the
    /// second the previous frame's.
    pub fn read_with_previous<'w>(&mut self, events: &'w Events<E>) -> (r: (&'w [E], &'w [E]))
        ensures
            r.0@ == pending(events@, old(self).cursor(), old(self).frame()),
            r.1@ == events@.previous,
            final(self).cursor() == events@.current.len(),
            final(self).frame() == events@.frame,
    {
        let buffer = events.current_buffer().as_slice();
        let count = buffer.len();
        let start = self.start(events);
        self.cursor = count;
        self.frame = events.frame;
        (vstd::slice::slice_subrange(buffer, start, count), events.previous_buffer().as_slice())
    }

    /// Forget what was read in the frame last read.
    pub fn reset(&mut self)
        ensures
            final(self).cursor() == 0,
            final(self).frame() == old(self).frame(),
    {
        self.cursor = 0;
    }
}

/// Writer for events of type `E`.
pub struct EventWriter<E> {
    _marker: PhantomData<E>,
}

impl<E> EventWriter<E> {
    /// A writer.
    pub fn new() -> (w: Self) {
        EventWriter { _marker: PhantomData }
    }

    /// Send an event into the store of its type.
    pub fn send(&self, events: &mut Events<E>, event: E)
        ensures
            final(events)@ == events_after_send(old(events)@, event),
    {
        events.send(event);
    }
}

impl<E> Default for Events<E> {
    fn default() -> (s: Self)
        ensures
            s@.current == Seq::<E>::empty(),
            s@.previous == Seq::<E>::empty(),
            s@.frame == 0,
    {
        Events::new()
    }
}

impl<E> Default for EventReader<E> {
    fn default() -> (r: Self)
        ensures
            r.cursor() == 0,
            r.frame() == 0,
    {
        EventReader::new()
    }
}

impl<E> Default for EventWriter<E> {
    fn default() -> (w: Self) {
        EventWriter::new()
    }
}

/// Law: an event sent this frame is readable this frame, is still readable as
/// a previous-frame event after one flush, and is gone after a second flush.
pub proof fn law_event_lifetime<E>(v: EventsView<E>, e: E)
    ensures
        events_after_send(v, e).current.last() == e,
        events_after_flush(events_after_send(v, e)).previous.last() == e,
        events_after_flush(events_after_send(v, e)).current.len() == 0,
        events_after_flush(events_after_flush(events_after_send(v, e))).current.len() == 0,
        events_after_flush(events_after_flush(events_after_send(v, e))).previous.len() == 0,
{
}

/// Sending `es` appends them to the current frame and keeps the rest.
proof fn lemma_sends<E>(v: EventsView<E>, es: Seq<E>)
    ensures
        events_after_sends(v, es) == (EventsView { current: v.current + es, ..v }),
    decreases es.len(),
{
    if es.len() > 0 {
        lemma_sends(v, es.drop_last());
        assert(v.current + es.drop_last() + seq![es.last()] =~= v.current + es);
        assert((v.current + es.drop_last()).push(es.last()) =~= v.current + es);
    } else {
        assert(v.current + es =~= v.current);
    }
}

/// Law: a reader sees each event of a frame once. Right after it read the
/// store, the events sent since are exactly what it has not returned; after
/// a flush or a clear, it has not returned any event of the new frame,
/// whatever it read before.
pub proof fn law_reader_sees_each_event_once<E>(v: EventsView<E>, es: Seq<E>, cursor: nat, frame: u64)
    ensures
        pending(events_after_sends(v, es), v.current.len(), v.frame) == es,
        pending(events_after_sends(events_after_flush(v), es), cursor, v.frame) == es,
        pending(events_after_sends(events_after_clear(v), es), cursor, v.frame) == es,
{
    lemma_sends(v, es);
    lemma_sends(events_after_flush(v), es);
    lemma_sends(events_after_clear(v), es);
    assert(unread(v.current + es, v.current.len()) =~= es);
    assert(Seq::<E>::empty() + es =~= es);
}

/// Law: the length of a store is the number of events sent since it was
/// made (empty) or last flushed or cleared.
pub proof fn law_len_counts_sends<E>(v: EventsView<E>, es: Seq<E>)
    ensures
        v.current.len() == 0 ==> events_after_sends(v, es).current.len() == es.len(),
        events_after_sends(events_after_flush(v), es).current.len() == es.len(),
        events_after_sends(events_after_clear(v), es).current.len() == es.len(),
        events_after_sends(events_after_flush(v), es).current == es,
{
    lemma_sends(v, es);
    lemma_sends(events_after_flush(v), es);
    lemma_sends(events_after_clear(v), es);
    assert(Seq::<E>::empty() + es =~= es);
}

/// A change made to an event store through `send`, `flush` or `clear`.
pub enum EventChange<E> {
    /// `send` of this event.
    Send(E),
    /// `flush`.
    Flush,
    /// `clear`.
    Clear,
}

/// The state after `change`.
pub open spec fn events_after_change<E>(v: EventsView<E>, change: EventChange<E>) -> EventsView<E> {
    match change {
        EventChange::Send(e) => events_after_send(v, e),
        EventChange::Flush => events_after_flush(v),
        EventChange::Clear => events_after_clear(v),
    }
}

/// The state after each of `changes`, in order.
pub open spec fn events_after_changes<E>(v: EventsView<E>, changes: Seq<EventChange<E>>) -> EventsView<E>
    decreases changes.len(),
{
    if changes.len() == 0 {
        v
    } else {
        events_after_change(events_after_changes(v, changes.drop_last()), changes.last())
    }
}

/// Whether `changes` hold a flush or a clear.
pub open spec fn has_reset<E>(changes: Seq<EventChange<E>>) -> bool {
    exists|k: int| 0 <= k < changes.len() && !(#[trigger] changes[k] is Send)
}

/// The events sent after the last flush or clear of `changes` (all sent
/// events when there is none), in order.
pub open spec fn sent_since_reset<E>(changes: Seq<EventChange<E>>) -> Seq<E>
    decreases changes.len(),
{
    if changes.len() == 0 {
        Seq::empty()
    } else {
        match changes.last() {
            EventChange::Send(e) => sent_since_reset(changes.drop_last()).push(e),
            _ => Seq::empty(),
        }
    }
}

/// Law: the events of a store's current frame, after any run of sends,
/// flushes and clears, are those sent since the last flush or clear (after
/// the events it held, when the run has neither); so its length is the
/// number of those sends.
pub proof fn law_current_after_changes<E>(v: EventsView<E>, changes: Seq<EventChange<E>>)
    ensures
        events_after_changes(v, changes).current == if has_reset(changes) {
            sent_since_reset(changes)
        } else {
            v.current + sent_since_reset(changes)
        },
        v.current.len() == 0 ==> events_after_changes(v, changes).current.len() == sent_since_reset(changes).len(),
    decreases changes.len(),
{
    if changes.len() == 0 {
        assert(v.current + Seq::<E>::empty() =~= v.current);
        assert(!has_reset(changes));
    } else {
        let rest = changes.drop_last();
        law_current_after_changes(v, rest);
        assert forall|k: int| 0 <= k < rest.len() implies rest[k] == changes[k] by {}
        match changes.last() {
            EventChange::Send(e) => {
                if has_reset(rest) {
                    let k = choose|k: int| 0 <= k < rest.len() && !(#[trigger] rest[k] is Send);
                    assert(!(changes[k] is Send));
                } else {
                    assert(v.current + sent_since_reset(rest).push(e) =~= (v.current + sent_since_reset(rest)).push(e));
                    assert(!has_reset(changes)) by {
                        assert forall|k: int| 0 <= k < changes.len() implies (#[trigger] changes[k] is Send) by {
                            if k < rest.len() {
                                assert(changes[k] == rest[k]);
                            }
                        }
                    }
                }
                if has_reset(changes) {
                    let k = choose|k: int| 0 <= k < changes.len() && !(#[trigger] changes[k] is Send);
                    assert(k < rest.len());
                    assert(!(rest[k] is Send));
                }
            },
            _ => {
                assert(!(changes[changes.len() - 1] is Send));
                assert(has_reset(changes));
            },
        }
        if v.current.len() == 0 {
            assert(v.current + sent_since_reset(changes) =~= sent_since_reset(changes));
        }
    }
}

} // verus!
