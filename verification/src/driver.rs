//! The frame loop driver: the simulation state, the input transitions and
//! one whole loop iteration.
//!
//! The driver owns the only cross-frame state: the agents, the overlay
//! flag, the frame clock's last counter sample and the delta-time derived
//! from it.  The presentation boundary drains its event queue, hands the
//! events and a fresh counter sample to `step_frame`, then renders from
//! the positions left behind.

use vstd::prelude::*;
use crate::clock::{FrameClock, FrameMetrics, ELAPSED_LIMIT, FREQ_LIMIT};
use crate::fixed::FIXED_ONE_SQ;
use crate::flock::{flock_stepped, flock_wf, gain_of, stepped_flock, Boid};

verus! {

/// An input event as the driver sees it: a quit request, the escape key,
/// the key that toggles the performance overlay, or anything else.
#[derive(Clone, Copy, Debug, PartialEq, Eq, Structural)]
pub enum InputEvent {
    Quit,
    EscapeKeyDown,
    ToggleKeyDown,
    Other,
}

/// Whether the frame loop keeps running; `Stopped` is terminal.
#[derive(Clone, Copy, Debug, PartialEq, Eq, Structural)]
pub enum LoopState {
    Running,
    Stopped,
}

/// Where draining a queue of events leaves the loop state and the overlay
/// flag: a quit or escape event stops the loop at once and the rest of
/// the queue is not looked at; the toggle key flips the overlay; any
/// other event changes nothing.
pub open spec fn events_outcome(status: LoopState, overlay: bool, s: Seq<InputEvent>) -> (
    LoopState,
    bool,
)
    decreases s.len(),
{
    if s.len() == 0 || status is Stopped {
        (status, overlay)
    } else {
        match s.first() {
            InputEvent::Quit => (LoopState::Stopped, overlay),
            InputEvent::EscapeKeyDown => (LoopState::Stopped, overlay),
            InputEvent::ToggleKeyDown => events_outcome(status, !overlay, s.drop_first()),
            InputEvent::Other => events_outcome(status, overlay, s.drop_first()),
        }
    }
}

/// The overlay toggle: the flag starts false when the simulation is
/// built, one toggle-key event flips it, a second flips it back, and an
/// event that is not the toggle key never changes it.
pub proof fn lemma_toggle_round_trip(status: LoopState, overlay: bool, e: InputEvent)
    requires
        status is Running,
    ensures
        events_outcome(status, overlay, seq![InputEvent::ToggleKeyDown]).0 == status,
        events_outcome(status, overlay, seq![InputEvent::ToggleKeyDown]).1 == !overlay,
        events_outcome(
            status,
            overlay,
            seq![InputEvent::ToggleKeyDown, InputEvent::ToggleKeyDown],
        ).1 == overlay,
        !(e is ToggleKeyDown) ==> events_outcome(status, overlay, seq![e]).1 == overlay,
{
    let one = seq![InputEvent::ToggleKeyDown];
    assert(one.drop_first() =~= Seq::<InputEvent>::empty());
    assert(one.first() == InputEvent::ToggleKeyDown);
    assert(events_outcome(status, !overlay, one.drop_first()) == (status, !overlay));
    assert(events_outcome(status, overlay, one) == (status, !overlay));
    let two = seq![InputEvent::ToggleKeyDown, InputEvent::ToggleKeyDown];
    assert(two.drop_first() =~= one);
    assert(two.first() == InputEvent::ToggleKeyDown);
    assert(events_outcome(status, !(!overlay), one.drop_first()) == (status, !(!overlay)));
    assert(events_outcome(status, !overlay, one) == (status, !(!overlay)));
    assert(events_outcome(status, overlay, two) == events_outcome(status, !overlay, one));
    let se = seq![e];
    assert(se.first() == e);
    assert(se.drop_first() =~= Seq::<InputEvent>::empty());
    if !(e is ToggleKeyDown) {
        assert(events_outcome(status, overlay, se.drop_first()) == (status, overlay));
        assert(events_outcome(status, overlay, se).1 == overlay);
    }
}

/// The whole cross-frame state of the simulation, owned by the driver.
pub struct Simulation {
    pub boids: Vec<Boid>,
    pub speed: i64,
    pub overlay_enabled: bool,
    pub clock: FrameClock,
    pub delta_time: i64,
    pub status: LoopState,
}

impl Simulation {
    /// The state is usable: the flock and the clock are well formed, the
    /// speed is a non-negative fixed-point scalar and the carried
    /// delta-time is non-negative.
    pub open spec fn wf(self) -> bool {
        &&& flock_wf(self.boids@)
        &&& 0 <= self.speed
        &&& self.clock.wf()
        &&& 0 <= self.delta_time
    }

    /// A fresh simulation: the given flock and speed, the overlay off,
    /// the loop running, and no elapsed time yet, so the first frame
    /// moves nobody.
    pub fn new(boids: Vec<Boid>, speed: i64, initial_counter: u64, frequency: u64) -> (r:
        Simulation)
        requires
            flock_wf(boids@),
            0 <= speed,
            1 <= frequency <= FREQ_LIMIT,
        ensures
            r.boids@ == boids@,
            r.speed == speed,
            r.overlay_enabled == false,
            r.status is Running,
            r.clock.last_counter == initial_counter,
            r.clock.frequency == frequency,
            r.delta_time == 0,
            r.wf(),
    {
        Simulation {
            boids,
            speed,
            overlay_enabled: false,
            clock: FrameClock::new(initial_counter, frequency),
            delta_time: 0,
            status: LoopState::Running,
        }
    }

    /// One input transition: quit or escape stops the loop, the toggle
    /// key flips the overlay flag, any other event changes nothing.
    /// Agents, clock and speed are never touched by input.
    pub fn handle_event(&mut self, event: InputEvent)
        ensures
            final(self).boids@ == old(self).boids@,
            final(self).speed == old(self).speed,
            final(self).clock == old(self).clock,
            final(self).delta_time == old(self).delta_time,
            (event is Quit || event is EscapeKeyDown) ==> final(self).status is Stopped
                && final(self).overlay_enabled == old(self).overlay_enabled,
            event is ToggleKeyDown ==> final(self).status == old(self).status
                && final(self).overlay_enabled == !old(self).overlay_enabled,
            event is Other ==> final(self).status == old(self).status
                && final(self).overlay_enabled == old(self).overlay_enabled,
    {
        match event {
            InputEvent::Quit => {
                self.status = LoopState::Stopped;
            },
            InputEvent::EscapeKeyDown => {
                self.status = LoopState::Stopped;
            },
            InputEvent::ToggleKeyDown => {
                self.overlay_enabled = !self.overlay_enabled;
            },
            InputEvent::Other => {},
        }
    }

    /// Drain one frame's whole event queue, stopping at the first quit or
    /// escape event, exactly as `events_outcome` says.  No event is
    /// starved: every queued event up to a stop is processed.
    pub fn process_events(&mut self, events: &Vec<InputEvent>)
        ensures
            final(self).boids@ == old(self).boids@,
            final(self).speed == old(self).speed,
            final(self).clock == old(self).clock,
            final(self).delta_time == old(self).delta_time,
            final(self).status == events_outcome(
                old(self).status,
                old(self).overlay_enabled,
                events@,
            ).0,
            final(self).overlay_enabled == events_outcome(
                old(self).status,
                old(self).overlay_enabled,
                events@,
            ).1,
    {
        let n = events.len();
        let mut i: usize = 0;
        proof {
            assert(events@.skip(0) =~= events@);
        }
        while i < n
            invariant
                0 <= i <= n,
                n == events@.len(),
                self.boids@ == old(self).boids@,
                self.speed == old(self).speed,
                self.clock == old(self).clock,
                self.delta_time == old(self).delta_time,
                events_outcome(old(self).status, old(self).overlay_enabled, events@)
                    == events_outcome(self.status, self.overlay_enabled, events@.skip(i as int)),
            decreases n - i,
        {
            match self.status {
                LoopState::Stopped => {
                    return ;
                },
                LoopState::Running => {},
            }
            let ev = events[i];
            proof {
                assert(events@.skip(i as int).first() == events@[i as int]);
                assert(events@.skip(i as int).drop_first() =~= events@.skip(i as int + 1));
            }
            self.handle_event(ev);
            i = i + 1;
        }
        proof {
            assert(events@.skip(n as int) =~= Seq::<InputEvent>::empty());
        }
    }

    /// One whole iteration of the frame loop.  The frame's queued events
    /// are drained first; if a quit or escape event arrived the loop is
    /// stopped and nothing else happens.  Otherwise every agent moves one
    /// cohesion step scaled by the previous frame's delta-time, the frame
    /// clock advances to the counter sample taken this frame, and the
    /// derived metrics are returned for the overlay.  The per-step gain
    /// `speed * delta_time` is capped at `FIXED_ONE_SQ` (one whole step
    /// onto the centroid), the guard this driver adds so that a stalled
    /// frame cannot hurl the flock past its goal.
    pub fn step_frame(&mut self, events: &Vec<InputEvent>, new_counter: u64) -> (m: Option<
        FrameMetrics,
    >)
        requires
            old(self).wf(),
            old(self).clock.last_counter <= new_counter,
            new_counter - old(self).clock.last_counter <= ELAPSED_LIMIT,
        ensures
            final(self).wf(),
            final(self).speed == old(self).speed,
            final(self).status == events_outcome(
                old(self).status,
                old(self).overlay_enabled,
                events@,
            ).0,
            final(self).overlay_enabled == events_outcome(
                old(self).status,
                old(self).overlay_enabled,
                events@,
            ).1,
            final(self).status is Stopped ==> m is None && final(self).boids@ == old(self).boids@
                && final(self).clock == old(self).clock
                && final(self).delta_time == old(self).delta_time,
            final(self).status is Running ==> flock_stepped(
                old(self).boids@,
                final(self).boids@,
                gain_of(old(self).speed as int, old(self).delta_time as int),
            ) && final(self).clock.last_counter == new_counter && final(self).clock.frequency
                == old(self).clock.frequency && (m matches Some(fm)
                && fm.delta_time == final(self).delta_time && ({
                let elapsed = new_counter - old(self).clock.last_counter;
                let freq = old(self).clock.frequency as int;
                &&& fm.delta_time == (elapsed * crate::fixed::FIXED_ONE) as int / freq
                &&& fm.ms_per_frame == (elapsed * 1000 * crate::fixed::FIXED_ONE) as int / freq
                &&& elapsed > 0 ==> fm.fps == (old(self).clock.frequency
                    * crate::fixed::FIXED_ONE) as int / elapsed as int
                &&& elapsed == 0 ==> fm.fps == 0
            })),
    {
        self.process_events(events);
        match self.status {
            LoopState::Stopped => None,
            LoopState::Running => {
                proof {
                    assert(0 <= self.speed * self.delta_time) by (nonlinear_arith)
                        requires
                            0 <= self.speed,
                            0 <= self.delta_time,
                    ;
                }
                let g: i64 = match self.speed.checked_mul(self.delta_time) {
                    None => FIXED_ONE_SQ,
                    Some(p) => if p > FIXED_ONE_SQ {
                        FIXED_ONE_SQ
                    } else {
                        p
                    },
                };
                let moved = stepped_flock(&self.boids, g);
                self.boids = moved;
                let metrics = self.clock.tick(new_counter);
                self.delta_time = metrics.delta_time;
                Some(metrics)
            },
        }
    }
}

} // verus!
