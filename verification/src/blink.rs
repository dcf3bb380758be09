//! The blink scheduler: a three-state timing machine that decides, once per
//! frame, whether the cursor is shown.

use vstd::prelude::*;
use crate::cursor::Cursor;
use std::time::{Duration, Instant};

verus! {

/// Nanoseconds in one millisecond.
pub const NANOS_PER_MILLI: u128 = 1_000_000;

/// The phase of the blink cycle.
#[derive(Clone, Copy, Debug, PartialEq, Eq, Structural)]
pub enum BlinkState {
    /// The grace period after a cursor event, before blinking starts.
    Waiting,
    On,
    Off,
}

/// What the scheduler remembers between frames. Times are nanoseconds on the
/// scheduler's own clock, which starts at zero when the scheduler is made.
pub struct BlinkModel {
    pub state: BlinkState,
    pub last_transition: nat,
    pub previous_cursor: Option<Cursor>,
}

/// The scheduler as it is made: waiting, at time zero, with no cursor seen.
pub open spec fn initial_model() -> BlinkModel {
    BlinkModel { state: BlinkState::Waiting, last_transition: 0, previous_cursor: None }
}

/// The snapshot is a new cursor event: the first one, or one that differs
/// from the snapshot seen last.
pub open spec fn is_new_event(model: BlinkModel, cursor: Cursor) -> bool {
    model.previous_cursor != Some(cursor)
}

/// A present, nonzero wait before blinking.
pub open spec fn has_wait(cursor: Cursor) -> bool {
    cursor.blinkwait matches Some(millis) && millis != 0
}

/// The phase in which a new cursor event starts the cycle.
pub open spec fn restart_state(cursor: Cursor) -> BlinkState {
    if has_wait(cursor) {
        BlinkState::Waiting
    } else {
        BlinkState::On
    }
}

/// A zero in any of the three durations switches blinking off: the cursor is
/// shown steadily.
pub open spec fn is_steady(cursor: Cursor) -> bool {
    cursor.blinkwait == Some(0u64) || cursor.blinkoff == Some(0u64) || cursor.blinkon == Some(0u64)
}

/// The duration that governs a phase.
pub open spec fn governing_duration(state: BlinkState, cursor: Cursor) -> Option<u64> {
    match state {
        BlinkState::Waiting => cursor.blinkwait,
        BlinkState::On => cursor.blinkon,
        BlinkState::Off => cursor.blinkoff,
    }
}

/// The phase that follows when a phase expires.
pub open spec fn next_state(state: BlinkState) -> BlinkState {
    match state {
        BlinkState::Waiting => BlinkState::On,
        BlinkState::On => BlinkState::Off,
        BlinkState::Off => BlinkState::On,
    }
}

/// Time since the last transition; a reading that lies before it counts as none.
pub open spec fn elapsed(model: BlinkModel, now: nat) -> nat {
    if now >= model.last_transition {
        (now - model.last_transition) as nat
    } else {
        0
    }
}

/// The model after the snapshot has been looked at: a new cursor event
/// restarts the cycle at `now`, anything else leaves the model alone.
pub open spec fn observe(model: BlinkModel, cursor: Cursor, now: nat) -> BlinkModel {
    if is_new_event(model, cursor) {
        BlinkModel {
            state: restart_state(cursor),
            last_transition: now,
            previous_cursor: Some(cursor),
        }
    } else {
        model
    }
}

/// The current phase has run out: its duration is present and positive, and
/// strictly more time than that has passed since the last transition.
pub open spec fn is_expired(model: BlinkModel, cursor: Cursor, now: nat) -> bool {
    match governing_duration(model.state, cursor) {
        Some(millis) => millis > 0 && elapsed(model, now) > millis * NANOS_PER_MILLI,
        None => false,
    }
}

/// One frame of the scheduler: the model after a snapshot arrives at `now`.
pub open spec fn advance(model: BlinkModel, cursor: Cursor, now: nat) -> BlinkModel {
    let seen = observe(model, cursor, now);
    if !is_steady(cursor) && is_expired(seen, cursor, now) {
        BlinkModel { state: next_state(seen.state), last_transition: now, ..seen }
    } else {
        seen
    }
}

/// Whether the cursor is shown in a frame that leaves the scheduler in `state`.
pub open spec fn is_shown(state: BlinkState, cursor: Cursor) -> bool {
    is_steady(cursor) || state == BlinkState::On
}

/// The model after a run of frames that all bring the same snapshot, at the
/// given clock readings in turn.
pub open spec fn advance_all(model: BlinkModel, cursor: Cursor, readings: Seq<nat>) -> BlinkModel
    decreases readings.len(),
{
    if readings.len() == 0 {
        model
    } else {
        advance(advance_all(model, cursor, readings.drop_last()), cursor, readings.last())
    }
}

/// A snapshot that differs from the one fed just before it restarts the
/// cycle, whatever went before: the scheduler is left waiting if the new
/// snapshot has a nonzero wait and on otherwise, its transition time is the
/// moment of the restart, and the cursor is shown at that moment unless the
/// wait is positive.
pub proof fn lemma_new_event_restarts(
    model: BlinkModel,
    first: Cursor,
    second: Cursor,
    first_reading: nat,
    second_reading: nat,
)
    requires
        first != second,
    ensures
        ({
            let after = advance(advance(model, first, first_reading), second, second_reading);
            &&& after.state == restart_state(second)
            &&& after.last_transition == second_reading
            &&& after.previous_cursor == Some(second)
            &&& !has_wait(second) ==> is_shown(after.state, second)
            &&& has_wait(second) && !is_steady(second) ==> !is_shown(after.state, second)
        }),
{
    let between = advance(model, first, first_reading);
    assert(between.previous_cursor == Some(first));
    let seen = observe(between, second, second_reading);
    assert(elapsed(seen, second_reading) == 0);
    assert(!is_expired(seen, second, second_reading));
}

/// A zero in any of the three durations forces steady display: the cursor is
/// shown in every frame, from any earlier state and at any clock reading, and
/// no phase ever expires.
pub proof fn lemma_zero_duration_shows(model: BlinkModel, cursor: Cursor, now: nat)
    requires
        cursor.blinkwait == Some(0u64) || cursor.blinkon == Some(0u64) || cursor.blinkoff == Some(
            0u64,
        ),
    ensures
        is_shown(advance(model, cursor, now).state, cursor),
        advance(model, cursor, now) == observe(model, cursor, now),
{
}

/// While the snapshot stays the same, a frame either keeps the phase or moves
/// it one step along the cycle. It moves exactly when blinking is not
/// switched off and the phase's duration is positive and has been exceeded;
/// the transition time then becomes the moment of that frame, and is left
/// alone otherwise. No frame leads back into the waiting phase.
pub proof fn lemma_cycle_step(model: BlinkModel, cursor: Cursor, now: nat)
    requires
        model.previous_cursor == Some(cursor),
    ensures
        ({
            let after = advance(model, cursor, now);
            let moves = !is_steady(cursor) && is_expired(model, cursor, now);
            &&& after.previous_cursor == Some(cursor)
            &&& moves ==> after.state == next_state(model.state) && after.last_transition == now
            &&& !moves ==> after == model
            &&& after.state == BlinkState::Waiting ==> model.state == BlinkState::Waiting
            &&& moves ==> now - model.last_transition > governing_duration(
                model.state,
                cursor,
            ).unwrap() * NANOS_PER_MILLI
        }),
{
}

/// While the snapshot stays the same, a scheduler that has left the waiting
/// phase never waits again, however many frames follow and whenever they
/// come: the hidden stretches after the first are all off phases.
pub proof fn lemma_wait_comes_once(model: BlinkModel, cursor: Cursor, readings: Seq<nat>)
    requires
        model.previous_cursor == Some(cursor),
        model.state != BlinkState::Waiting,
    ensures
        advance_all(model, cursor, readings).previous_cursor == Some(cursor),
        advance_all(model, cursor, readings).state != BlinkState::Waiting,
    decreases readings.len(),
{
    if readings.len() > 0 {
        lemma_wait_comes_once(model, cursor, readings.drop_last());
        lemma_cycle_step(
            advance_all(model, cursor, readings.drop_last()),
            cursor,
            readings.last(),
        );
    }
}

/// While the snapshot stays the same and blinking is not switched off, the
/// cursor is shown in a frame exactly when that frame leaves the scheduler
/// in the on phase, so the shown and hidden stretches are the phases of the
/// cycle.
pub proof fn lemma_shown_is_on(model: BlinkModel, cursor: Cursor, readings: Seq<nat>)
    requires
        !is_steady(cursor),
    ensures
        is_shown(advance_all(model, cursor, readings).state, cursor) <==> advance_all(
            model,
            cursor,
            readings,
        ).state == BlinkState::On,
{
}

/// `std::time::Instant`, a reading of the monotonic clock. It is carried
/// through as it is; nothing is known of what is inside.
#[verifier::external_type_specification]
#[verifier::external_body]
pub struct ExInstant(Instant);

/// `Instant::now`: some reading of the monotonic clock. Nothing is claimed of it.
#[verifier::external_body]
fn clock_start() -> (origin: Instant) {
    Instant::now()
}

/// `Instant::elapsed`: the time that has passed since `origin`, as the clock
/// has it at the moment of the call. Nothing is claimed of it.
#[verifier::external_body]
fn clock_elapsed(origin: &Instant) -> (passed: Duration) {
    origin.elapsed()
}

/// `Duration::as_nanos`: the duration in whole nanoseconds. Nothing is
/// claimed of the number.
#[verifier::external_body]
fn whole_nanos(passed: &Duration) -> (nanos: u128) {
    passed.as_nanos()
}

/// The blink scheduler.
pub struct BlinkStatus {
    state: BlinkState,
    last_transition: u128,
    previous_cursor: Option<Cursor>,
    origin: Instant,
}

impl View for BlinkStatus {
    type V = BlinkModel;

    closed spec fn view(&self) -> BlinkModel {
        BlinkModel {
            state: self.state,
            last_transition: self.last_transition as nat,
            previous_cursor: self.previous_cursor,
        }
    }
}

impl BlinkStatus {
    /// A scheduler that waits for its first snapshot; its clock starts now.
    pub fn new() -> (status: BlinkStatus)
        ensures
            status@ == initial_model(),
    {
        BlinkStatus {
            state: BlinkState::Waiting,
            last_transition: 0,
            previous_cursor: None,
            origin: clock_start(),
        }
    }

    /// The current phase.
    pub fn state(&self) -> (state: BlinkState)
        ensures
            state == self@.state,
    {
        self.state
    }

    /// One frame at the clock reading `now`, in nanoseconds since the
    /// scheduler was made. Returns whether the cursor is shown.
    pub fn update_status_at(&mut self, new_cursor: &Cursor, now: u128) -> (visible: bool)
        ensures
            final(self)@ == advance(old(self)@, *new_cursor, now as nat),
            visible == is_shown(final(self)@.state, *new_cursor),
    {
        let is_new: bool = match self.previous_cursor {
            None => true,
            Some(previous) => previous != *new_cursor,
        };
        if is_new {
            self.previous_cursor = Some(*new_cursor);
            self.last_transition = now;
            self.state = match new_cursor.blinkwait {
                Some(millis) => if millis != 0 { BlinkState::Waiting } else { BlinkState::On },
                None => BlinkState::On,
            };
        }
        if is_zero(new_cursor.blinkwait) || is_zero(new_cursor.blinkoff) || is_zero(
            new_cursor.blinkon,
        ) {
            return true;
        }
        let delay: Option<u64> = match self.state {
            BlinkState::Waiting => new_cursor.blinkwait,
            BlinkState::Off => new_cursor.blinkoff,
            BlinkState::On => new_cursor.blinkon,
        };
        let expired: bool = match delay {
            Some(millis) => {
                let passed: u128 = if now >= self.last_transition {
                    now - self.last_transition
                } else {
                    0
                };
                assert(millis * NANOS_PER_MILLI <= u128::MAX) by (nonlinear_arith)
                    requires
                        millis <= u64::MAX,
                ;
                millis > 0 && passed > (millis as u128) * NANOS_PER_MILLI
            },
            None => false,
        };
        if expired {
            self.state = match self.state {
                BlinkState::Waiting => BlinkState::On,
                BlinkState::On => BlinkState::Off,
                BlinkState::Off => BlinkState::On,
            };
            self.last_transition = now;
        }
        match self.state {
            BlinkState::Waiting | BlinkState::Off => false,
            BlinkState::On => true,
        }
    }

    /// One frame at the moment of the call. The clock decides the reading;
    /// the frame is the one that `update_status_at` makes of it.
    pub fn update_status(&mut self, new_cursor: &Cursor) -> (visible: bool)
        ensures
            exists|now: nat| #[trigger]
                advance(old(self)@, *new_cursor, now) == final(self)@,
            visible == is_shown(final(self)@.state, *new_cursor),
    {
        let passed: Duration = clock_elapsed(&self.origin);
        let now: u128 = whole_nanos(&passed);
        let visible: bool = self.update_status_at(new_cursor, now);
        assert(advance(old(self)@, *new_cursor, now as nat) == self@);
        visible
    }
}

/// The duration is present and zero.
fn is_zero(duration: Option<u64>) -> (zero: bool)
    ensures
        zero == (duration == Some(0u64)),
{
    match duration {
        Some(millis) => millis == 0,
        None => false,
    }
}

} // verus!
