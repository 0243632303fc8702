//! Input events and the bounded, lossy input queue that carries them from
//! the receiver's window back to the sender.
//!
//! Coordinates are normalised to the display surface and carried as
//! millionths (`0` is the left/top edge, `1_000_000` the right/bottom edge),
//! the fixed-point form of the wire's unit-interval values.  Deltas,
//! magnification and rotation use the same millionth scale and may be
//! negative.  Keycodes are X11 keysym values.

use vstd::prelude::*;

verus! {

/// One millionth steps of the unit interval: the value for 1.0.
pub const COORD_ONE_MICRO: i64 = 1_000_000;

#[derive(Debug, Clone, Copy, PartialEq, Eq, Structural)]
pub enum MouseButton {
    Left,
    Right,
    Middle,
}

/// Phase of a trackpad gesture.
#[derive(Debug, Clone, Copy, PartialEq, Eq, Structural)]
pub enum GesturePhase {
    Begin,
    Changed,
    End,
    Cancelled,
}

/// A user input event captured on the receiver and injected on the sender.
#[derive(Debug, Clone, PartialEq, Eq)]
pub enum InputEvent {
    /// Mouse moved to a normalised position.
    MouseMove { x_micro: i64, y_micro: i64 },
    /// Mouse button pressed.
    MouseDown { x_micro: i64, y_micro: i64, button: MouseButton },
    /// Mouse button released.
    MouseUp { x_micro: i64, y_micro: i64, button: MouseButton },
    /// Mouse scroll; deltas are in points, scaled by a million.
    MouseScroll { x_micro: i64, y_micro: i64, delta_x_micro: i64, delta_y_micro: i64 },
    /// Key pressed; `text` carries the printable text, if any.
    KeyDown { keycode: u32, text: Option<String> },
    /// Key released.
    KeyUp { keycode: u32 },
    /// Pinch-to-zoom gesture; positive magnification zooms in.
    GesturePinch { x_micro: i64, y_micro: i64, magnification_micro: i64, phase: GesturePhase },
    /// Two-finger rotation; the delta is in degrees, scaled by a million.
    GestureRotation { x_micro: i64, y_micro: i64, rotation_micro: i64, phase: GesturePhase },
    /// Multi-finger swipe.
    GestureSwipe { delta_x_micro: i64, delta_y_micro: i64, phase: GesturePhase },
    /// Smooth scroll with momentum phase information.
    ScrollSmooth {
        x_micro: i64,
        y_micro: i64,
        delta_x_micro: i64,
        delta_y_micro: i64,
        phase: GesturePhase,
    },
}

/// Capacity of the input channel.
pub const INPUT_QUEUE_CAPACITY: usize = 256;

/// What one offered event does to the queue: appended when there is room,
/// dropped when the queue is full.
pub open spec fn spec_offer(q: Seq<InputEvent>, e: InputEvent, cap: int) -> Seq<InputEvent> {
    if q.len() < cap {
        q.push(e)
    } else {
        q
    }
}

/// Offering a whole sequence of events, oldest first.
pub open spec fn spec_offer_all(q: Seq<InputEvent>, events: Seq<InputEvent>, cap: int) -> Seq<
    InputEvent,
>
    decreases events.len(),
{
    if events.len() == 0 {
        q
    } else {
        spec_offer(spec_offer_all(q, events.drop_last(), cap), events.last(), cap)
    }
}

/// `a` is `b` with zero or more elements left out, order kept.
pub open spec fn spec_is_subsequence(a: Seq<InputEvent>, b: Seq<InputEvent>) -> bool
    decreases b.len(),
{
    if a.len() == 0 {
        true
    } else if b.len() == 0 {
        false
    } else {
        ||| a.last() == b.last() && spec_is_subsequence(a.drop_last(), b.drop_last())
        ||| spec_is_subsequence(a, b.drop_last())
    }
}

/// A subsequence of `b` is a subsequence of `b` extended at the end.
pub proof fn lemma_subsequence_extend(a: Seq<InputEvent>, b: Seq<InputEvent>, e: InputEvent)
    requires
        spec_is_subsequence(a, b),
    ensures
        spec_is_subsequence(a, b.push(e)),
{
    if a.len() > 0 {
        assert(b.push(e).drop_last() =~= b);
    }
}

/// A bounded multi-producer queue of input events that drops on overflow:
/// input is latency-critical and lossy by design.
pub struct InputQueue {
    items: Vec<InputEvent>,
    capacity: usize,
}

impl View for InputQueue {
    type V = Seq<InputEvent>;

    closed spec fn view(&self) -> Seq<InputEvent> {
        self.items@
    }
}

impl InputQueue {
    /// The queue's fixed capacity.
    pub closed spec fn spec_capacity(&self) -> int {
        self.capacity as int
    }

    /// An empty queue with the given capacity.
    pub fn with_capacity(capacity: usize) -> (q: InputQueue)
        ensures
            q@ == Seq::<InputEvent>::empty(),
            q.spec_capacity() == capacity,
    {
        InputQueue { items: Vec::new(), capacity }
    }

    /// An empty queue with the input channel's standard capacity.
    pub fn new() -> (q: InputQueue)
        ensures
            q@ == Seq::<InputEvent>::empty(),
            q.spec_capacity() == INPUT_QUEUE_CAPACITY,
    {
        InputQueue { items: Vec::new(), capacity: INPUT_QUEUE_CAPACITY }
    }

    pub fn len(&self) -> (n: usize)
        ensures
            n == self@.len(),
    {
        self.items.len()
    }

    /// Offer one event: appended when there is room, dropped — with `false`
    /// returned — when the queue is full.
    pub fn try_send(&mut self, event: InputEvent) -> (accepted: bool)
        ensures
            final(self)@ == spec_offer(old(self)@, event, old(self).spec_capacity()),
            final(self).spec_capacity() == old(self).spec_capacity(),
            accepted == (old(self)@.len() < old(self).spec_capacity()),
    {
        if self.items.len() < self.capacity {
            self.items.push(event);
            true
        } else {
            false
        }
    }

    /// Take the oldest event, if any.
    pub fn recv(&mut self) -> (e: Option<InputEvent>)
        ensures
            final(self).spec_capacity() == old(self).spec_capacity(),
            old(self)@.len() == 0 ==> e is None && final(self)@ == old(self)@,
            old(self)@.len() > 0 ==> e == Option::Some(old(self)@[0]) && final(self)@ == old(
                self,
            )@.drop_first(),
    {
        if self.items.len() == 0 {
            None
        } else {
            let e = self.items.remove(0);
            proof {
                assert(self.items@ =~= old(self)@.drop_first());
            }
            Some(e)
        }
    }
}

/// Law: the events held by the queue — and therefore the events later
/// drained and written to the wire — are the offered events in their
/// original order, with only the offers that found the queue full missing.
pub proof fn lemma_offered_events_keep_order(events: Seq<InputEvent>, cap: int)
    ensures
        spec_is_subsequence(spec_offer_all(Seq::empty(), events, cap), events),
{
    lemma_offer_all_subsequence(Seq::empty(), events, cap);
    assert(spec_offer_all(Seq::empty(), events, cap).skip(0) =~= spec_offer_all(
        Seq::empty(),
        events,
        cap,
    ));
}

/// Helper generalised over the starting queue: what `spec_offer_all` adds on
/// top of `q` is a subsequence of the offered events.
proof fn lemma_offer_all_subsequence(q: Seq<InputEvent>, events: Seq<InputEvent>, cap: int)
    ensures
        spec_is_subsequence(
            spec_offer_all(q, events, cap).skip(q.len() as int),
            events,
        ),
    decreases events.len(),
{
    if events.len() == 0 {
        assert(spec_offer_all(q, events, cap) =~= q);
        assert(q.skip(q.len() as int) =~= Seq::<InputEvent>::empty());
    } else {
        lemma_offer_all_subsequence(q, events.drop_last(), cap);
        let before = spec_offer_all(q, events.drop_last(), cap);
        lemma_offer_all_grows(q, events.drop_last(), cap);
        let added = before.skip(q.len() as int);
        if before.len() < cap {
            assert(spec_offer_all(q, events, cap) == before.push(events.last()));
            assert(before.push(events.last()).skip(q.len() as int) =~= added.push(
                events.last(),
            ));
            assert(events.drop_last().push(events.last()) =~= events);
            assert(added.push(events.last()).drop_last() =~= added);
            assert(added.push(events.last()).last() == events.last());
            assert(spec_is_subsequence(added.push(events.last()), events));
        } else {
            assert(spec_offer_all(q, events, cap) == before);
            lemma_subsequence_extend(added, events.drop_last(), events.last());
            assert(events.drop_last().push(events.last()) =~= events);
        }
    }
}

/// Offering events never shortens the queue below its starting contents.
proof fn lemma_offer_all_grows(q: Seq<InputEvent>, events: Seq<InputEvent>, cap: int)
    ensures
        spec_offer_all(q, events, cap).len() >= q.len(),
        spec_offer_all(q, events, cap).take(q.len() as int) == q.take(q.len() as int),
    decreases events.len(),
{
    if events.len() > 0 {
        lemma_offer_all_grows(q, events.drop_last(), cap);
        let before = spec_offer_all(q, events.drop_last(), cap);
        if before.len() < cap {
            assert(before.push(events.last()).take(q.len() as int) =~= before.take(
                q.len() as int,
            ));
        }
    } else {
        assert(spec_offer_all(q, events, cap) =~= q);
    }
}

/// Law: while the queue never fills, nothing is lost — the queue holds
/// exactly the offered events in order.
pub proof fn lemma_no_overflow_no_loss(events: Seq<InputEvent>, cap: int)
    requires
        events.len() <= cap,
    ensures
        spec_offer_all(Seq::empty(), events, cap) == events,
    decreases events.len(),
{
    if events.len() > 0 {
        lemma_no_overflow_no_loss(events.drop_last(), cap);
        assert(spec_offer_all(Seq::empty(), events, cap) =~= events);
    } else {
        assert(spec_offer_all(Seq::empty(), events, cap) =~= events);
    }
}

} // verus!
