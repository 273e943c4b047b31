use ringbuf::traits::{Consumer, Producer};
use ringbuf::HeapRb;
use vstd::prelude::*;

use crate::frame::RawFrame;

verus! {

/// ringbuf's heap ring buffer of frames, kept out of Verus's sight; what it
/// holds is described by `ring_items` and `ring_capacity`.
#[verifier::external_body]
pub struct FrameRing {
    rb: HeapRb<RawFrame>,
}

/// The frames a ring buffer holds, oldest first.
pub uninterp spec fn ring_items(rb: FrameRing) -> Seq<RawFrame>;

/// The number of slots a ring buffer was made with.
pub uninterp spec fn ring_capacity(rb: FrameRing) -> nat;

/// Relies on ringbuf's `HeapRb::new`: an empty buffer with `capacity` slots
/// (it panics on zero, which `requires` leaves out).
#[verifier::external_body]
fn ring_new(capacity: usize) -> (rb: FrameRing)
    requires
        capacity > 0,
    ensures
        ring_items(rb) == Seq::<RawFrame>::empty(),
        ring_capacity(rb) == capacity,
{
    FrameRing { rb: HeapRb::new(capacity) }
}

/// Relies on ringbuf's `Producer::try_push`: appends when a slot is vacant,
/// and hands the item back untouched when the buffer is full.
#[verifier::external_body]
fn ring_try_push(rb: &mut FrameRing, frame: RawFrame) -> (r: Result<(), RawFrame>)
    ensures
        ring_capacity(*final(rb)) == ring_capacity(*old(rb)),
        ring_items(*old(rb)).len() < ring_capacity(*old(rb)) ==> r is Ok && ring_items(*final(rb))
            == ring_items(*old(rb)).push(frame),
        ring_items(*old(rb)).len() >= ring_capacity(*old(rb)) ==> r is Err && ring_items(*final(rb))
            == ring_items(*old(rb)),
        r matches Err(back) ==> back == frame,
{
    rb.rb.try_push(frame)
}

/// Relies on ringbuf's `Consumer::try_pop`: removes and returns the oldest
/// item, or `None` when the buffer is empty.
#[verifier::external_body]
fn ring_try_pop(rb: &mut FrameRing) -> (r: Option<RawFrame>)
    ensures
        ring_capacity(*final(rb)) == ring_capacity(*old(rb)),
        ring_items(*old(rb)).len() == 0 ==> r is None && ring_items(*final(rb)) == ring_items(*old(rb)),
        ring_items(*old(rb)).len() > 0 ==> r == Some(ring_items(*old(rb))[0]) && ring_items(*final(rb))
            == ring_items(*old(rb)).drop_first(),
{
    rb.rb.try_pop()
}

/// What a channel holds, as a mathematical value.
pub ghost struct ChannelView {
    pub items: Seq<RawFrame>,
    pub capacity: nat,
    pub dropped: u64,
}

impl ChannelView {
    /// The state after offering `frame`: appended when there is room,
    /// otherwise dropped and counted.
    pub open spec fn after_push(self, frame: RawFrame) -> ChannelView {
        if self.items.len() < self.capacity {
            ChannelView { items: self.items.push(frame), ..self }
        } else {
            ChannelView {
                dropped: if self.dropped < u64::MAX { (self.dropped + 1) as u64 } else { self.dropped },
                ..self
            }
        }
    }

    /// The state after offering each of `frames` in turn.
    pub open spec fn after_pushes(self, frames: Seq<RawFrame>) -> ChannelView
        decreases frames.len(),
    {
        if frames.len() == 0 {
            self
        } else {
            self.after_pushes(frames.drop_last()).after_push(frames.last())
        }
    }
}

/// Single-producer, single-consumer bounded channel of frames that never
/// blocks: a push onto a full channel drops the incoming frame and counts it.
pub struct FrameChannel {
    ring: FrameRing,
    dropped: u64,
}

impl View for FrameChannel {
    type V = ChannelView;

    closed spec fn view(&self) -> ChannelView {
        ChannelView {
            items: ring_items(self.ring),
            capacity: ring_capacity(self.ring),
            dropped: self.dropped,
        }
    }
}

impl FrameChannel {
    /// The channel holds no more frames than it has slots, and has at least one.
    pub closed spec fn wf(&self) -> bool {
        &&& ring_capacity(self.ring) > 0
        &&& ring_items(self.ring).len() <= ring_capacity(self.ring)
    }

    /// An empty channel with `capacity` slots and no drops.
    pub fn new(capacity: usize) -> (r: Self)
        requires
            capacity > 0,
        ensures
            r.wf(),
            r@.items == Seq::<RawFrame>::empty(),
            r@.capacity == capacity,
            r@.dropped == 0,
    {
        FrameChannel { ring: ring_new(capacity), dropped: 0 }
    }

    /// Offers a frame without blocking; returns whether it was kept.
    pub fn push(&mut self, frame: RawFrame) -> (accepted: bool)
        requires
            old(self).wf(),
        ensures
            final(self).wf(),
            final(self)@ == old(self)@.after_push(frame),
            accepted == (old(self)@.items.len() < old(self)@.capacity),
    {
        match ring_try_push(&mut self.ring, frame) {
            Ok(()) => true,
            Err(_) => {
                self.dropped = self.dropped.saturating_add(1);
                false
            },
        }
    }

    /// Takes the oldest frame, or `None` at once when the channel is empty.
    pub fn pop(&mut self) -> (r: Option<RawFrame>)
        requires
            old(self).wf(),
        ensures
            final(self).wf(),
            final(self)@.capacity == old(self)@.capacity,
            final(self)@.dropped == old(self)@.dropped,
            old(self)@.items.len() == 0 ==> r is None && final(self)@.items == old(self)@.items,
            old(self)@.items.len() > 0 ==> r == Some(old(self)@.items[0]) && final(self)@.items
                == old(self)@.items.drop_first(),
    {
        ring_try_pop(&mut self.ring)
    }

    /// How many frames were dropped because the channel was full.
    pub fn dropped(&self) -> (r: u64)
        ensures
            r == self@.dropped,
    {
        self.dropped
    }
}

/// Filling an empty channel up to its capacity keeps every frame, in order,
/// and drops none.
pub proof fn lemma_fill_keeps_order(v: ChannelView, frames: Seq<RawFrame>)
    requires
        v.items.len() == 0,
        frames.len() <= v.capacity,
    ensures
        v.after_pushes(frames).items == frames,
        v.after_pushes(frames).capacity == v.capacity,
        v.after_pushes(frames).dropped == v.dropped,
    decreases frames.len(),
{
    if frames.len() > 0 {
        lemma_fill_keeps_order(v, frames.drop_last());
        assert(frames.drop_last().push(frames.last()) == frames);
    }
}

/// With capacity N, pushing N + 1 frames onto an empty channel without a pop
/// drops exactly one frame, the last, and keeps the first N in their order.
pub proof fn lemma_overflow_drops_newest(v: ChannelView, frames: Seq<RawFrame>)
    requires
        v.items.len() == 0,
        v.dropped == 0,
        frames.len() == v.capacity + 1,
    ensures
        v.after_pushes(frames).items == frames.take(v.capacity as int),
        v.after_pushes(frames).dropped == 1,
{
    lemma_fill_keeps_order(v, frames.drop_last());
    assert(frames.drop_last() == frames.take(v.capacity as int));
}

} // verus!
