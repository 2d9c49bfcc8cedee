//! When a bar repaints: at most once per loop dispatch, and at most once per
//! compositor frame.
//!
//! A change only *requests* a repaint. The host loop asks [`take_due`] once per
//! dispatch, after every pending message has been applied, so a burst of
//! messages paints one frame instead of one each. A commit then holds further
//! repaints until the compositor's frame callback, which caps the rate at the
//! output's refresh and stops a hidden bar from painting frames nobody sees.
//!
//! [`take_due`]: RedrawScheduler::take_due

use crate::time::{Moment, SECOND};
use vstd::prelude::*;

verus! {

/// How long a requested repaint waits for a frame callback before painting
/// anyway, in nanoseconds. A compositor sends none while a surface is hidden, so
/// this is what keeps a bar from going stale forever if a callback is never
/// delivered.
pub const FRAME_CALLBACK_TIMEOUT: u64 = SECOND;

/// One surface's pending-repaint state.
#[derive(Debug)]
pub struct RedrawScheduler {
    /// Why the pending repaint was first requested; `None` when clean.
    cause: Option<&'static str>,
    /// When the last commit asked for a frame callback that has yet to arrive.
    awaiting_frame: Option<Moment>,
}

/// What a [`RedrawScheduler`] has in hand.
#[verifier::ext_equal]
pub struct RedrawState {
    /// Why the pending repaint was first requested.
    pub cause: Option<Seq<char>>,
    /// When the last commit asked for a frame callback that has yet to arrive.
    pub awaiting_frame: Option<Moment>,
}

/// The text of a cause.
pub open spec fn cause_text(cause: Option<&'static str>) -> Option<Seq<char>> {
    match cause {
        Some(cause) => Some(cause@),
        None => None,
    }
}

impl View for RedrawScheduler {
    type V = RedrawState;

    closed spec fn view(&self) -> RedrawState {
        RedrawState { cause: cause_text(self.cause), awaiting_frame: self.awaiting_frame }
    }
}

impl RedrawState {
    /// Nothing requested and nothing outstanding.
    pub open spec fn clean() -> RedrawState {
        RedrawState { cause: None, awaiting_frame: None }
    }

    /// Whether a frame callback holds repaints back at `now`.
    pub open spec fn is_held(self, now: Moment) -> bool {
        match self.awaiting_frame {
            Some(since) => now.since_spec(since) < FRAME_CALLBACK_TIMEOUT,
            None => false,
        }
    }

    /// What is due at `now`.
    pub open spec fn due(self, now: Moment) -> Option<Seq<char>> {
        if self.is_held(now) {
            None
        } else {
            self.cause
        }
    }

    /// After a request: the first cause stays.
    pub open spec fn requested(self, cause: Seq<char>) -> RedrawState {
        RedrawState {
            cause: match self.cause {
                Some(first) => Some(first),
                None => Some(cause),
            },
            ..self
        }
    }

    /// After what is due at `now` was taken.
    pub open spec fn taken(self, now: Moment) -> RedrawState {
        if self.is_held(now) {
            self
        } else {
            RedrawState { cause: None, ..self }
        }
    }

    /// After a commit at `now`.
    pub open spec fn after_commit(self, now: Moment) -> RedrawState {
        RedrawState { awaiting_frame: Some(now), ..self }
    }

    /// After the frame callback.
    pub open spec fn after_frame(self) -> RedrawState {
        RedrawState { awaiting_frame: None, ..self }
    }
}

impl RedrawScheduler {
    /// A clean scheduler with no commit outstanding.
    pub fn new() -> (scheduler: Self)
        ensures
            scheduler@ == RedrawState::clean(),
    {
        RedrawScheduler { cause: None, awaiting_frame: None }
    }

    /// Ask for a repaint. Requests made before the next
    /// [`take_due`](Self::take_due) collapse into one frame, labelled with the
    /// first `cause` for diagnostics.
    pub fn request(&mut self, cause: &'static str)
        ensures
            final(self)@ == old(self)@.requested(cause@),
    {
        if self.cause.is_none() {
            self.cause = Some(cause);
        }
    }

    /// Whether a repaint has been requested and not yet taken.
    pub fn is_dirty(&self) -> (dirty: bool)
        ensures
            dirty == (self@.cause is Some),
    {
        self.cause.is_some()
    }

    /// The cause to paint for, if a repaint is requested and the compositor is
    /// ready for another frame. Taking it leaves the scheduler clean.
    ///
    /// While a frame callback is outstanding this returns `None` and the request
    /// stays pending, until [`FRAME_CALLBACK_TIMEOUT`] has passed since the
    /// commit that asked for it.
    pub fn take_due(&mut self, now: Moment) -> (cause: Option<&'static str>)
        ensures
            cause_text(cause) == old(self)@.due(now),
            final(self)@ == old(self)@.taken(now),
    {
        if let Some(since) = self.awaiting_frame {
            if now.since(since) < FRAME_CALLBACK_TIMEOUT {
                return None;
            }
        }
        let cause: Option<&'static str> = self.cause;
        self.cause = None;
        cause
    }

    /// A frame was committed at `now` together with a frame-callback request.
    pub fn committed(&mut self, now: Moment)
        ensures
            final(self)@ == old(self)@.after_commit(now),
    {
        self.awaiting_frame = Some(now);
    }

    /// The compositor's frame callback arrived: the next repaint may go ahead.
    pub fn frame_done(&mut self)
        ensures
            final(self)@ == old(self)@.after_frame(),
    {
        self.awaiting_frame = None;
    }

    /// When a requested repaint stops waiting for its frame callback, if one is
    /// waiting: the moment by which the loop has to look again.
    pub fn wake_deadline(&self) -> (deadline: Option<Moment>)
        ensures
            deadline == match (self@.cause, self@.awaiting_frame) {
                (Some(_), Some(since)) => Some(since.later_spec(FRAME_CALLBACK_TIMEOUT as int)),
                _ => None,
            },
    {
        match (self.cause, self.awaiting_frame) {
            (Some(_), Some(since)) => Some(since.later(FRAME_CALLBACK_TIMEOUT)),
            _ => None,
        }
    }
}

impl Default for RedrawScheduler {
    fn default() -> (scheduler: Self)
        ensures
            scheduler@ == RedrawState::clean(),
    {
        RedrawScheduler::new()
    }
}

/// However many changes request a repaint before it is taken, one frame is
/// painted, for the first of them; a second take finds nothing.
pub proof fn lemma_requests_collapse(
    state: RedrawState,
    first: Seq<char>,
    second: Seq<char>,
    now: Moment,
    later: Moment,
)
    requires
        state.cause is None,
        !state.is_held(now),
    ensures
        state.requested(first).requested(second) == state.requested(first),
        state.requested(first).requested(second).due(now) == Some(first),
        state.requested(first).requested(second).taken(now).due(later) is None,
{
}

/// A request is never lost: while a frame callback holds it back it stays, and
/// the callback releases it.
pub proof fn lemma_a_held_request_is_kept(state: RedrawState, cause: Seq<char>, now: Moment)
    requires
        state.cause is None,
        state.is_held(now),
    ensures
        state.requested(cause).due(now) is None,
        state.requested(cause).taken(now) == state.requested(cause),
        state.requested(cause).taken(now).after_frame().due(now) == Some(cause),
{
}

/// A frame callback that never comes stops blocking once its time is up.
pub proof fn lemma_a_missing_callback_stops_blocking(
    state: RedrawState,
    cause: Seq<char>,
    committed: Moment,
    now: Moment,
)
    requires
        state.cause is None,
        now.nanos >= committed.nanos + FRAME_CALLBACK_TIMEOUT,
    ensures
        state.after_commit(committed).requested(cause).due(now) == Some(cause),
{
}

/// Between a commit and its frame callback nothing is painted before the time is
/// up: the rate is capped at the output's refresh.
pub proof fn lemma_one_paint_per_frame(state: RedrawState, committed: Moment, now: Moment)
    requires
        committed.nanos <= now.nanos < committed.nanos + FRAME_CALLBACK_TIMEOUT,
    ensures
        state.after_commit(committed).due(now) is None,
{
}

/// A request makes a repaint pending, for the first cause of those that are, and does not
/// change what is awaited.
pub proof fn lemma_a_request_is_pending(
    scheduler: &mut RedrawScheduler,
    cause: &'static str,
    dirty: bool,
)
    requires
        call_ensures(RedrawScheduler::request, (scheduler, cause), ()),
    ensures
        final(scheduler)@.cause is Some,
        old(scheduler)@.cause is None ==> final(scheduler)@.cause == Some(cause@),
        old(scheduler)@.cause is Some ==> final(scheduler)@.cause == old(scheduler)@.cause,
        final(scheduler)@.awaiting_frame == old(scheduler)@.awaiting_frame,
{
}

/// What is pending is taken unless a frame is awaited since less than a second; what is
/// taken is pending no longer, and what is not stays.
pub proof fn lemma_a_frame_is_awaited_for_a_second(
    scheduler: &mut RedrawScheduler,
    now: Moment,
    cause: Option<&'static str>,
)
    requires
        call_ensures(RedrawScheduler::take_due, (scheduler, now), cause),
    ensures
        ({
            let before = old(scheduler)@;
            let held = before.awaiting_frame is Some && now.nanos
                < before.awaiting_frame->0.nanos + 1_000_000_000;
            &&& cause is Some <==> before.cause is Some && !held
            &&& cause is Some ==> cause->0@ == before.cause->0
            &&& held ==> final(scheduler)@.cause == before.cause
            &&& !held ==> final(scheduler)@.cause is None
            &&& final(scheduler)@.awaiting_frame == before.awaiting_frame
        }),
{
}

/// A commit is what a frame is awaited for, from then on; the frame ends it. Neither
/// touches what is pending.
pub proof fn lemma_a_commit_awaits_its_frame(
    committing: &mut RedrawScheduler,
    now: Moment,
    shown: &mut RedrawScheduler,
)
    requires
        call_ensures(RedrawScheduler::committed, (committing, now), ()),
        call_ensures(RedrawScheduler::frame_done, (shown,), ()),
    ensures
        final(committing)@.awaiting_frame == Some(now),
        final(committing)@.cause == old(committing)@.cause,
        final(shown)@.awaiting_frame is None,
        final(shown)@.cause == old(shown)@.cause,
{
}

/// The loop is woken exactly when a repaint waits for a frame, a second after the commit.
pub proof fn lemma_the_loop_wakes_after_a_second(
    scheduler: RedrawScheduler,
    deadline: Option<Moment>,
    dirty: bool,
)
    requires
        call_ensures(RedrawScheduler::wake_deadline, (&scheduler,), deadline),
        call_ensures(RedrawScheduler::is_dirty, (&scheduler,), dirty),
    ensures
        deadline is Some <==> dirty && scheduler@.awaiting_frame is Some,
        deadline is Some && scheduler@.awaiting_frame->0.nanos + 1_000_000_000 <= u64::MAX
            ==> deadline->0.nanos == scheduler@.awaiting_frame->0.nanos + 1_000_000_000,
        dirty <==> scheduler@.cause is Some,
{
}

} // verus!
