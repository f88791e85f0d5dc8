//! The simulation as a whole: one ball in one arena, advanced tick by tick.

use vstd::prelude::*;
use crate::input::{Control, Event, after_events, ends_run, first_stop};
use crate::physics::{Arena, Ball, SIZE_LIMIT, horizontal, step_micros, vertical};
use crate::raster::{box_fits, circle_points, disc_points, pixel_of, to_pixel};

verus! {

/// The ball and the arena it moves in.
pub struct Simulation {
    pub ball: Ball,
    pub arena: Arena,
}

impl Simulation {
    /// The ball and the arena are both well formed.
    pub open spec fn wf(&self) -> bool {
        self.ball.wf() && self.arena.wf()
    }

    /// A simulation whose ball rests at the centre of `arena`.
    pub fn new(arena: Arena, radius: i64) -> (s: Simulation)
        requires
            arena.wf(),
            0 < radius <= SIZE_LIMIT,
        ensures
            s.wf(),
            s.arena == arena,
            s.ball.x == arena.width / 2 && s.ball.y == arena.height / 2,
            s.ball.vx == 0 && s.ball.vy == 0 && s.ball.radius == radius && !s.ball.dragged,
    {
        let ball = Ball::centered(&arena, radius);
        Simulation { ball, arena }
    }

    /// One tick: the pending events in order, then, unless one of them ends
    /// the run, a physics step over the elapsed time.
    pub fn tick(&mut self, events: &Vec<Event>, elapsed_micros: u64) -> (c: Control)
        requires
            old(self).wf(),
        ensures
            final(self).wf(),
            final(self).arena == old(self).arena,
            c == Control::Quit <==> exists|i: int| 0 <= i < events@.len() && ends_run(#[trigger] events@[i]),
            c == Control::Quit ==> exists|k: int|
                first_stop(events@, k) && final(self).ball == after_events(old(self).ball, events@.take(k)),
            c == Control::Continue ==> {
                let b = after_events(old(self).ball, events@);
                let dt = step_micros(elapsed_micros as int);
                &&& b.dragged ==> final(self).ball == b
                &&& !b.dragged ==> {
                    &&& final(self).ball.x == horizontal(b, dt, old(self).arena).0
                    &&& final(self).ball.vx == horizontal(b, dt, old(self).arena).1
                    &&& final(self).ball.y == vertical(b, dt, old(self).arena).0
                    &&& final(self).ball.vy == vertical(b, dt, old(self).arena).1
                    &&& final(self).ball.radius == b.radius
                    &&& !final(self).ball.dragged
                }
            },
    {
        let c = self.ball.handle_events(events);
        if c == Control::Quit {
            return c;
        }
        self.ball.integrate(elapsed_micros, &self.arena);
        c
    }

    /// The pixels that draw the ball: a disc at the ball's pixel position
    /// with its radius in whole pixels. `None` where that disc's bounding box
    /// leaves the range of `i32`.
    pub fn frame_points(&self) -> (pts: Option<Vec<(i32, i32)>>)
        ensures
            ({
                let cx = pixel_of(self.ball.x as int);
                let cy = pixel_of(self.ball.y as int);
                let r = pixel_of(self.ball.radius as int);
                match pts {
                    Some(v) => box_fits(cx, cy, r) && v@ == disc_points(cx, cy, r),
                    None => !box_fits(cx, cy, r),
                }
            }),
    {
        let cx = to_pixel(self.ball.x);
        let cy = to_pixel(self.ball.y);
        let r = to_pixel(self.ball.radius);
        if r > 0 && ((cx as i64) - (r as i64) < i32::MIN as i64 || (cx as i64) + (r as i64) - 1
            > i32::MAX as i64 || (cy as i64) - (r as i64) < i32::MIN as i64 || (cy as i64) + (
        r as i64) - 1 > i32::MAX as i64) {
            return None;
        }
        Some(circle_points(cx, cy, r))
    }
}

} // verus!
