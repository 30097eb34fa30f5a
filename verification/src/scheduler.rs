//! The cycle scheduler: which edge is lit, for how long it has been, and when
//! the highlight moves on to the next one.
//!
//! The scheduler does no waiting and starts no animation itself. Each tick it
//! is told how much time has passed and what the animation of the active
//! label reports, and it answers with what is to be done. Times are whole
//! numbers of one unit of the caller's choice, the same for the dwell
//! duration and for every tick.

use vstd::prelude::*;
use crate::geometry::Point;
use crate::interpolator::{band, point_along, position_along, windowed_segment};
use crate::polygon::Slot;
use crate::units::ONE;

verus! {

/// What the scheduler asks of the animation of the labels after a tick.
#[derive(Clone, Copy, Debug, PartialEq, Eq, Structural)]
pub enum Command {
    /// Nothing: the active edge stays lit.
    Wait,
    /// Start the pulse of this label, which has just become the active one.
    StartPulse { label: u64 },
}

/// The moving part of a scheduler: the active slot, the time spent on it, and
/// the label and end points bound to it.
#[derive(Clone, Copy, Debug, PartialEq, Eq, Structural)]
pub struct CycleState {
    pub slot_index: usize,
    pub dwell_elapsed: u64,
    pub label: u64,
    pub start: Point,
    pub end: Point,
}

/// The cycle as mathematics sees it: the index of the active slot and the
/// time spent on it.
pub struct Cycle {
    pub slot: int,
    pub elapsed: int,
}

/// A scheduler as mathematics sees it: the table of slots, the dwell
/// duration and the cycle.
pub struct SchedulerModel {
    pub slots: Seq<Slot>,
    pub dwell: int,
    pub cycle: Cycle,
}

/// Whether a report says that no animation of the label is running. The
/// report is the number of animations that run, or `None` where the count
/// could not be had; the scheduler then goes on as if none ran, since a
/// pulse too many does less harm than a cycle that stands still.
pub open spec fn idle(report: Option<usize>) -> bool {
    match report {
        None => true,
        Some(running) => running < 1,
    }
}

/// Whether a tick of `dt` moves the cycle on: the time spent, `dt` included,
/// is over the dwell duration, and the active label is idle.
pub open spec fn advances(dwell: int, cycle: Cycle, dt: int, is_idle: bool) -> bool {
    cycle.elapsed + dt > dwell && is_idle
}

/// The cycle after a tick of `dt` over a table of `slots` slots: moved on to
/// the next slot, the first one after the last, with no time spent there yet;
/// or on the same slot with `dt` more time spent.
pub open spec fn step(slots: int, dwell: int, cycle: Cycle, dt: int, is_idle: bool) -> Cycle {
    if advances(dwell, cycle, dt, is_idle) {
        Cycle { slot: (cycle.slot + 1) % slots, elapsed: 0 }
    } else {
        Cycle { slot: cycle.slot, elapsed: cycle.elapsed + dt }
    }
}

/// The cycle in which every scheduler starts: on the first slot, with no time
/// spent.
pub open spec fn initial() -> Cycle {
    Cycle { slot: 0, elapsed: 0 }
}

/// The share of the span `span` that `elapsed` has covered, as a fraction
/// that stops at `ONE`. A span of zero is covered at once.
pub open spec fn progress_of(elapsed: int, span: int) -> int {
    if elapsed >= span {
        ONE as int
    } else {
        elapsed * ONE / span
    }
}

/// Whether a report says that no animation of the label is running.
pub fn is_idle(report: Option<usize>) -> (none_running: bool)
    ensures
        none_running == idle(report),
{
    match report {
        None => true,
        Some(running) => running < 1,
    }
}

/// The share of the span `span` that `elapsed` has covered, as a fraction
/// that stops at `ONE`.
pub fn progress(elapsed: u64, span: u64) -> (fraction: u32)
    ensures
        fraction == progress_of(elapsed as int, span as int),
        fraction <= ONE,
{
    if elapsed >= span {
        ONE
    } else {
        assert(elapsed * ONE <= u128::MAX && elapsed * ONE / (span as int) < ONE)
            by (nonlinear_arith)
            requires
                elapsed < span,
                span <= u64::MAX,
                ONE == 1_000_000,
        ;
        ((elapsed as u128 * ONE as u128) / span as u128) as u32
    }
}

/// The scheduler of one cycle over a table of slots.
pub struct Scheduler {
    slots: Vec<Slot>,
    dwell_duration: u64,
    state: CycleState,
}

impl View for Scheduler {
    type V = SchedulerModel;

    closed spec fn view(&self) -> SchedulerModel {
        SchedulerModel {
            slots: self.slots@,
            dwell: self.dwell_duration as int,
            cycle: Cycle {
                slot: self.state.slot_index as int,
                elapsed: self.state.dwell_elapsed as int,
            },
        }
    }
}

impl Scheduler {
    /// The active slot is one of the table, and the label and end points of
    /// the state are those of the active slot.
    #[verifier::type_invariant]
    spec fn bound(&self) -> bool {
        &&& self.state.slot_index < self.slots.len()
        &&& self.state.label == self.slots[self.state.slot_index as int].label
        &&& self.state.start == self.slots[self.state.slot_index as int].start
        &&& self.state.end == self.slots[self.state.slot_index as int].end
    }

    /// A scheduler over `slots` that dwells on each for `dwell_duration`,
    /// together with the command to start the pulse of the first label: the
    /// first pulse is due at once, not after the first dwell.
    pub fn new(slots: Vec<Slot>, dwell_duration: u64) -> (started: (Scheduler, Command))
        requires
            slots.len() > 0,
        ensures
            started.0@.slots == slots@,
            started.0@.dwell == dwell_duration,
            started.0@.cycle == initial(),
            started.1 == (Command::StartPulse { label: slots[0].label }),
    {
        let first: Slot = slots[0];
        let state = CycleState {
            slot_index: 0,
            dwell_elapsed: 0,
            label: first.label,
            start: first.start,
            end: first.end,
        };
        (Scheduler { slots, dwell_duration, state }, Command::StartPulse { label: first.label })
    }

    /// One tick: `dt` more time has passed, and `report` is what the
    /// animation of the active label says of itself. The table and the dwell
    /// duration stay; the cycle takes one step; and where it moved on, the
    /// command is to start the pulse of the label that is now active.
    pub fn tick(&mut self, dt: u64, report: Option<usize>) -> (command: Command)
        requires
            old(self)@.cycle.elapsed + dt <= u64::MAX,
        ensures
            final(self)@.slots == old(self)@.slots,
            final(self)@.dwell == old(self)@.dwell,
            final(self)@.cycle == step(
                old(self)@.slots.len() as int,
                old(self)@.dwell,
                old(self)@.cycle,
                dt as int,
                idle(report),
            ),
            final(self)@.cycle.slot < final(self)@.slots.len(),
            command == if advances(old(self)@.dwell, old(self)@.cycle, dt as int, idle(report)) {
                Command::StartPulse { label: old(self)@.slots[final(self)@.cycle.slot].label }
            } else {
                Command::Wait
            },
    {
        proof {
            use_type_invariant(&*self);
        }
        let elapsed: u64 = self.state.dwell_elapsed + dt;
        if elapsed > self.dwell_duration && is_idle(report) {
            let next: usize = if self.state.slot_index + 1 < self.slots.len() {
                self.state.slot_index + 1
            } else {
                0
            };
            proof {
                let count = self.slots.len() as int;
                if self.state.slot_index + 1 < count {
                    vstd::arithmetic::div_mod::lemma_small_mod(
                        (self.state.slot_index + 1) as nat,
                        count as nat,
                    );
                } else {
                    vstd::arithmetic::div_mod::lemma_mod_self_0(count);
                }
            }
            let slot: Slot = self.slots[next];
            self.state = CycleState {
                slot_index: next,
                dwell_elapsed: 0,
                label: slot.label,
                start: slot.start,
                end: slot.end,
            };
            Command::StartPulse { label: slot.label }
        } else {
            self.state = CycleState {
                slot_index: self.state.slot_index,
                dwell_elapsed: elapsed,
                label: self.state.label,
                start: self.state.start,
                end: self.state.end,
            };
            Command::Wait
        }
    }

    /// The table of slots that the cycle goes through.
    pub fn slots(&self) -> (slots: &Vec<Slot>)
        ensures
            slots@ == self@.slots,
    {
        &self.slots
    }

    /// How long the scheduler dwells on a slot at the least.
    pub fn dwell_duration(&self) -> (dwell: u64)
        ensures
            dwell == self@.dwell,
    {
        self.dwell_duration
    }

    /// The state of the cycle: the active slot, which is one of the table,
    /// the time spent on it, and the label and end points of that slot.
    pub fn state(&self) -> (state: CycleState)
        ensures
            state.slot_index == self@.cycle.slot,
            state.dwell_elapsed == self@.cycle.elapsed,
            0 <= self@.cycle.slot < self@.slots.len(),
            state.label == self@.slots[self@.cycle.slot].label,
            state.start == self@.slots[self@.cycle.slot].start,
            state.end == self@.slots[self@.cycle.slot].end,
    {
        proof {
            use_type_invariant(self);
        }
        self.state
    }

    /// How far the highlight has come on the active edge before easing: the
    /// share of the dwell duration that has been spent, stopping at `ONE`.
    pub fn travel_raw(&self) -> (fraction: u32)
        ensures
            fraction == progress_of(self@.cycle.elapsed, self@.dwell),
            fraction <= ONE,
    {
        progress(self.state.dwell_elapsed, self.dwell_duration)
    }

    /// The lit part of the active edge when the eased travel is `fraction`:
    /// from the start of the edge to the point that lies that fraction of the
    /// way to its end.
    pub fn lit_segment(&self, fraction: u32) -> (ends: (Point, Point))
        requires
            fraction <= ONE,
        ensures
            0 <= self@.cycle.slot < self@.slots.len(),
            ends.0 == self@.slots[self@.cycle.slot].start,
            ends.1@ == position_along(
                self@.slots[self@.cycle.slot].start@,
                self@.slots[self@.cycle.slot].end@,
                fraction as int,
            ),
    {
        proof {
            use_type_invariant(self);
        }
        (self.state.start, point_along(self.state.start, self.state.end, fraction))
    }

    /// The lit band on the active edge when the eased travel is `fraction`,
    /// for a window of the given width.
    pub fn lit_band(&self, fraction: u32, window: u32) -> (ends: (Point, Point))
        requires
            fraction <= ONE,
            window <= ONE,
        ensures
            0 <= self@.cycle.slot < self@.slots.len(),
            (ends.0@, ends.1@) == band(
                self@.slots[self@.cycle.slot].start@,
                self@.slots[self@.cycle.slot].end@,
                fraction as int,
                window as int,
            ),
    {
        proof {
            use_type_invariant(self);
        }
        windowed_segment(self.state.start, self.state.end, fraction, window)
    }
}

/// The cycle after a run of ticks, each a time step and whether the active
/// label was idle then, taken in order.
pub open spec fn run(slots: int, dwell: int, cycle: Cycle, ticks: Seq<(int, bool)>) -> Cycle
    decreases ticks.len(),
{
    if ticks.len() == 0 {
        cycle
    } else {
        let before = run(slots, dwell, cycle, ticks.drop_last());
        step(slots, dwell, before, ticks.last().0, ticks.last().1)
    }
}

/// The time that a run of ticks takes in all.
pub open spec fn total(ticks: Seq<(int, bool)>) -> int
    decreases ticks.len(),
{
    if ticks.len() == 0 {
        0
    } else {
        total(ticks.drop_last()) + ticks.last().0
    }
}

/// A step leaves the active slot in the table.
pub proof fn step_stays_in_table(slots: int, dwell: int, cycle: Cycle, dt: int, is_idle: bool)
    requires
        0 <= cycle.slot < slots,
    ensures
        0 <= step(slots, dwell, cycle, dt, is_idle).slot < slots,
{
    vstd::arithmetic::div_mod::lemma_mod_bound(cycle.slot + 1, slots);
}

/// While the active label is reported as running, the scheduler never moves
/// on, however much time passes: after any run of such ticks the slot is the
/// one it was, and all the time of the run has been added to the time spent
/// on it.
pub proof fn never_advances_while_running(
    slots: int,
    dwell: int,
    cycle: Cycle,
    ticks: Seq<(int, bool)>,
)
    requires
        forall|i: int| 0 <= i < ticks.len() ==> !(#[trigger] ticks[i]).1,
    ensures
        run(slots, dwell, cycle, ticks).slot == cycle.slot,
        run(slots, dwell, cycle, ticks).elapsed == cycle.elapsed + total(ticks),
    decreases ticks.len(),
{
    if ticks.len() > 0 {
        let earlier = ticks.drop_last();
        assert forall|i: int| 0 <= i < earlier.len() implies !(#[trigger] earlier[i]).1 by {
            assert(earlier[i] == ticks[i]);
        }
        never_advances_while_running(slots, dwell, cycle, earlier);
        assert(!ticks[ticks.len() - 1].1);
    }
}

/// As long as the time spent has not gone over the dwell duration, the
/// scheduler stays on its slot, whatever is reported.
pub proof fn stays_until_dwell_is_over(
    slots: int,
    dwell: int,
    cycle: Cycle,
    ticks: Seq<(int, bool)>,
)
    requires
        forall|i: int| 0 <= i < ticks.len() ==> (#[trigger] ticks[i]).0 >= 0,
        cycle.elapsed + total(ticks) <= dwell,
    ensures
        run(slots, dwell, cycle, ticks).slot == cycle.slot,
        run(slots, dwell, cycle, ticks).elapsed == cycle.elapsed + total(ticks),
    decreases ticks.len(),
{
    if ticks.len() > 0 {
        let earlier = ticks.drop_last();
        assert forall|i: int| 0 <= i < earlier.len() implies (#[trigger] earlier[i]).0 >= 0 by {
            assert(earlier[i] == ticks[i]);
        }
        assert(ticks[ticks.len() - 1].0 >= 0);
        stays_until_dwell_is_over(slots, dwell, cycle, earlier);
    }
}

/// Once the time spent goes over the dwell duration while the active label is
/// idle, the scheduler moves on exactly once: through all the ticks but the
/// last it stays on its slot, and the last tick, the one that takes the time
/// over the dwell duration, brings it to the next slot with no time spent.
/// From the initial cycle over a table of two slots or more, that is slot 1.
pub proof fn advances_once_when_dwell_is_over(
    slots: int,
    dwell: int,
    cycle: Cycle,
    ticks: Seq<(int, bool)>,
)
    requires
        ticks.len() > 0,
        forall|i: int| 0 <= i < ticks.len() ==> (#[trigger] ticks[i]).0 >= 0,
        ticks.last().1,
        cycle.elapsed + total(ticks.drop_last()) <= dwell,
        cycle.elapsed + total(ticks) > dwell,
    ensures
        run(slots, dwell, cycle, ticks.drop_last()).slot == cycle.slot,
        run(slots, dwell, cycle, ticks) == (Cycle { slot: (cycle.slot + 1) % slots, elapsed: 0 }),
        cycle == initial() && slots >= 2 ==> run(slots, dwell, cycle, ticks) == (Cycle {
            slot: 1,
            elapsed: 0,
        }),
{
    let earlier = ticks.drop_last();
    assert forall|i: int| 0 <= i < earlier.len() implies (#[trigger] earlier[i]).0 >= 0 by {
        assert(earlier[i] == ticks[i]);
    }
    stays_until_dwell_is_over(slots, dwell, cycle, earlier);
    if cycle == initial() && slots >= 2 {
        vstd::arithmetic::div_mod::lemma_small_mod(1, slots as nat);
    }
}

} // verus!
