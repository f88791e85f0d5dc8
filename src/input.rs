//! Pointer and keyboard input: dragging the ball, and the request to stop.

use vstd::prelude::*;
use crate::physics::{Ball, UNITS_PER_PIXEL};

verus! {

/// The keys that the simulation tells apart.
#[derive(Clone, Copy, Debug, PartialEq, Eq, Structural)]
pub enum Key {
    Escape,
    Other,
}

/// One input event, with pointer coordinates in whole pixels.
#[derive(Clone, Copy, Debug, PartialEq, Eq, Structural)]
pub enum Event {
    Quit,
    KeyDown { key: Key },
    MouseMotion { x: i32, y: i32, left_held: bool },
    MouseButtonUp,
    Other,
}

/// Whether the loop goes on after an event.
#[derive(Clone, Copy, Debug, PartialEq, Eq, Structural)]
pub enum Control {
    Continue,
    Quit,
}

/// Whether the event asks the simulation to stop.
pub open spec fn ends_run(e: Event) -> bool {
    e is Quit || e == (Event::KeyDown { key: Key::Escape })
}

/// Whether the pointer at `(px, py)` (in micro-pixels) takes hold of the ball:
/// it lies within the ball's radius, or the ball is already held.
pub open spec fn grabs(b: Ball, px: int, py: int) -> bool {
    let dx = px - b.x;
    let dy = py - b.y;
    dx * dx + dy * dy <= b.radius * b.radius || b.dragged
}

/// The ball after one event.
pub open spec fn after_event(b: Ball, e: Event) -> Ball {
    match e {
        Event::MouseMotion { x, y, left_held } => {
            let px = x * UNITS_PER_PIXEL;
            let py = y * UNITS_PER_PIXEL;
            if left_held && grabs(b, px, py) {
                Ball { x: px as i64, y: py as i64, vx: 0, vy: 0, dragged: true, ..b }
            } else {
                b
            }
        },
        Event::MouseButtonUp => Ball { dragged: false, ..b },
        _ => b,
    }
}

impl Ball {
    /// Applies one event to the ball and says whether the run goes on.
    /// Motion with the primary button held snaps a grabbed ball to the pointer
    /// and stops it; releasing any button lets the ball go.
    pub fn handle_event(&mut self, e: &Event) -> (c: Control)
        requires
            old(self).wf(),
        ensures
            final(self).wf(),
            *final(self) == after_event(*old(self), *e),
            c == (if ends_run(*e) { Control::Quit } else { Control::Continue }),
    {
        match e {
            Event::Quit => Control::Quit,
            Event::KeyDown { key } => {
                match key {
                    Key::Escape => Control::Quit,
                    Key::Other => Control::Continue,
                }
            },
            Event::MouseMotion { x, y, left_held } => {
                if *left_held {
                    let px = *x as i64 * UNITS_PER_PIXEL;
                    let py = *y as i64 * UNITS_PER_PIXEL;
                    let dx = px as i128 - self.x as i128;
                    let dy = py as i128 - self.y as i128;
                    let r = self.radius as i128;
                    assert(0 <= dx * dx <= 64_000_000_000_000_000_000_000_000_000_000) by (nonlinear_arith)
                        requires
                            -8_000_000_000_000_000 <= dx <= 8_000_000_000_000_000,
                    ;
                    assert(0 <= dy * dy <= 64_000_000_000_000_000_000_000_000_000_000) by (nonlinear_arith)
                        requires
                            -8_000_000_000_000_000 <= dy <= 8_000_000_000_000_000,
                    ;
                    assert(0 <= r * r <= 64_000_000_000_000_000_000_000_000_000_000) by (nonlinear_arith)
                        requires
                            0 <= r <= 8_000_000_000_000_000,
                    ;
                    if dx * dx + dy * dy <= r * r || self.dragged {
                        self.dragged = true;
                        self.x = px;
                        self.y = py;
                        self.vx = 0;
                        self.vy = 0;
                    }
                }
                Control::Continue
            },
            Event::MouseButtonUp => {
                self.dragged = false;
                Control::Continue
            },
            Event::Other => Control::Continue,
        }
    }
}


/// The ball after a sequence of events, applied in order.
pub open spec fn after_events(b: Ball, es: Seq<Event>) -> Ball
    decreases es.len(),
{
    if es.len() == 0 {
        b
    } else {
        after_event(after_events(b, es.drop_last()), es.last())
    }
}

/// The position of the first event that ends the run, if any.
pub open spec fn first_stop(es: Seq<Event>, k: int) -> bool {
    &&& 0 <= k < es.len()
    &&& ends_run(es[k])
    &&& forall|j: int| 0 <= j < k ==> !ends_run(#[trigger] es[j])
}

impl Ball {
    /// Applies a batch of events in arrival order. An event that ends the run
    /// stops the batch there: the events after it are not applied.
    pub fn handle_events(&mut self, events: &Vec<Event>) -> (c: Control)
        requires
            old(self).wf(),
        ensures
            final(self).wf(),
            c == Control::Quit <==> exists|i: int| 0 <= i < events@.len() && ends_run(#[trigger] events@[i]),
            c == Control::Continue ==> *final(self) == after_events(*old(self), events@),
            c == Control::Quit ==> exists|k: int|
                first_stop(events@, k) && *final(self) == after_events(*old(self), events@.take(k)),
    {
        let mut i: usize = 0;
        while i < events.len()
            invariant
                0 <= i <= events@.len(),
                self.wf(),
                *self == after_events(*old(self), events@.take(i as int)),
                forall|j: int| 0 <= j < i ==> !ends_run(#[trigger] events@[j]),
            decreases events@.len() - i,
        {
            let ghost before = *self;
            if self.handle_event(&events[i]) == Control::Quit {
                assert(after_event(before, events@[i as int]) == before);
                assert(first_stop(events@, i as int));
                return Control::Quit;
            }
            assert(events@.take(i + 1).drop_last() =~= events@.take(i as int));
            i = i + 1;
        }
        assert(events@.take(i as int) =~= events@);
        Control::Continue
    }
}


/// Releasing a button lets the ball go whatever its state, keeps its position
/// and velocity, and releasing again changes nothing. The released ball is
/// free, so the next step integrates it under gravity.
pub proof fn law_release(b: Ball)
    ensures
        !after_event(b, Event::MouseButtonUp).dragged,
        after_event(after_event(b, Event::MouseButtonUp), Event::MouseButtonUp) == after_event(
            b,
            Event::MouseButtonUp,
        ),
        ({
            let r = after_event(b, Event::MouseButtonUp);
            r.x == b.x && r.y == b.y && r.vx == b.vx && r.vy == b.vy && r.radius == b.radius
        }),
{
}

/// A held ball follows the pointer wherever it goes, near the ball or far
/// from it: the flag, not the distance, keeps the drag going.
pub proof fn law_drag_sticky(b: Ball, x: i32, y: i32)
    requires
        b.wf(),
        b.dragged,
    ensures
        ({
            let r = after_event(b, Event::MouseMotion { x, y, left_held: true });
            &&& r.x == x * UNITS_PER_PIXEL
            &&& r.y == y * UNITS_PER_PIXEL
            &&& r.vx == 0 && r.vy == 0
            &&& r.dragged
            &&& r.radius == b.radius
        }),
{
}

} // verus!
