//! swaync (SwayNotificationCenter) readings and toggles.
//!
//! swaync reports its state in two tuples with different field orders: the seed
//! read `(dnd, cc_open, count, inhibited)` and the change signal `(count, dnd,
//! cc_open, inhibited)`. Both normalize into a [`Notifications`] snapshot.

use crate::widget::{Command, Notifications};
use vstd::prelude::*;

verus! {

/// Normalize a swaync reading into a [`Notifications`] snapshot.
///
/// The daemon also reports whether the panel is open and whether notifications
/// are inhibited; both are deliberately dropped, because the bar renders only the
/// pending count and do-not-disturb, and folding unrendered fields into the
/// snapshot would force repaints on invisible changes.
pub fn notifications_from_swaync(count: u32, dnd: bool) -> (snapshot: Notifications)
    ensures
        snapshot@ == (count, dnd),
{
    Notifications::new(count, dnd)
}

/// The snapshot of the seed read `(dnd, cc_open, count, inhibited)`: none when
/// the read failed, because then swaync is not on the bus.
pub fn seed_snapshot(seed: Option<(bool, bool, u32, bool)>) -> (snapshot: Option<Notifications>)
    ensures
        match seed {
            Some((dnd, _, count, _)) => snapshot is Some && snapshot->0@ == (count, dnd),
            None => snapshot is None,
        },
{
    match seed {
        Some((dnd, _, count, _)) => Some(notifications_from_swaync(count, dnd)),
        None => None,
    }
}

/// The snapshot of the change signal `(count, dnd, cc_open, inhibited)`.
pub fn signal_snapshot(signal: (u32, bool, bool, bool)) -> (snapshot: Notifications)
    ensures
        snapshot@ == (signal.0, signal.1),
{
    notifications_from_swaync(signal.0, signal.1)
}

/// A request to swaync.
#[derive(Debug, Clone, Copy, PartialEq, Eq, Structural)]
pub enum Toggle {
    /// Show or hide the panel.
    Panel,
    /// Turn do-not-disturb on or off.
    Dnd,
}

/// What swaync is asked for a command; commands for other executors are ignored.
pub fn toggle_for(command: &Command) -> (toggle: Option<Toggle>)
    ensures
        toggle == match *command {
            Command::ToggleNotificationPanel => Some(Toggle::Panel),
            Command::ToggleNotificationsDnd => Some(Toggle::Dnd),
            _ => None,
        },
{
    match command {
        Command::ToggleNotificationPanel => Some(Toggle::Panel),
        Command::ToggleNotificationsDnd => Some(Toggle::Dnd),
        _ => None,
    }
}

/// What follows an event on the bus while swaync is followed.
#[derive(Debug, Clone, Copy, PartialEq, Eq, Structural)]
pub enum BusEvent {
    /// swaync pushed its state.
    State(u32, bool, bool, bool),
    /// swaync pushed a message that cannot be read.
    Malformed,
    /// swaync appeared, vanished, or restarted.
    OwnerChanged,
    /// The bus itself is gone.
    Closed,
}

/// What the follower does next.
#[derive(Debug, PartialEq, Eq)]
pub enum BusAction {
    /// Emit a snapshot and keep listening.
    Emit(Notifications),
    /// Keep listening.
    Skip,
    /// Read the state anew and listen to the new owner.
    Reseed,
    /// Stop.
    Stop,
}

/// Decide what an event asks of the follower: one bad message never takes the
/// source down, and any owner change makes the signal stream stale.
pub fn on_bus_event(event: BusEvent) -> (action: BusAction)
    ensures
        match event {
            BusEvent::State(count, dnd, _, _) => action matches BusAction::Emit(snapshot)
                && snapshot@ == (count, dnd),
            BusEvent::Malformed => action is Skip,
            BusEvent::OwnerChanged => action is Reseed,
            BusEvent::Closed => action is Stop,
        },
{
    match event {
        BusEvent::State(count, dnd, cc_open, inhibited) => BusAction::Emit(
            signal_snapshot((count, dnd, cc_open, inhibited)),
        ),
        BusEvent::Malformed => BusAction::Skip,
        BusEvent::OwnerChanged => BusAction::Reseed,
        BusEvent::Closed => BusAction::Stop,
    }
}

/// Follows swaync's state.
pub struct NotificationsProducer;

impl NotificationsProducer {
    /// Create a notifications producer.
    pub fn new() -> (producer: Self)
        ensures
            producer == NotificationsProducer,
    {
        NotificationsProducer
    }

    /// What the producer is called in logs.
    pub fn name(&self) -> (name: String)
        ensures
            name@ == "notifications"@,
    {
        "notifications".to_owned()
    }
}

impl Default for NotificationsProducer {
    fn default() -> (producer: Self)
        ensures
            producer == NotificationsProducer,
    {
        NotificationsProducer::new()
    }
}

/// A reading keeps the number and the silence it tells, whichever way it came.
pub proof fn lemma_a_reading_keeps_number_and_silence(
    count: u32,
    dnd: bool,
    open: bool,
    inhibited: bool,
    seeded: Option<Notifications>,
    signalled: Notifications,
    action: BusAction,
    told: (u32, bool),
)
    requires
        call_ensures(seed_snapshot, (Some((dnd, open, count, inhibited)),), seeded),
        call_ensures(signal_snapshot, ((count, dnd, open, inhibited),), signalled),
        call_ensures(on_bus_event, (BusEvent::State(count, dnd, open, inhibited),), action),
        call_ensures(Notifications::count, (&signalled,), told.0),
        call_ensures(Notifications::dnd, (&signalled,), told.1),
    ensures
        seeded is Some,
        seeded->0@ == (count, dnd),
        told == (count, dnd),
        action matches BusAction::Emit(snapshot) && snapshot@ == (count, dnd),
{
}

/// One bad message is passed over, a new owner is read anew, and only the end of the bus
/// ends the source. Without a daemon there is no reading.
pub proof fn lemma_only_the_end_of_the_bus_ends_the_source(
    event: BusEvent,
    action: BusAction,
    seeded: Option<Notifications>,
)
    requires
        call_ensures(on_bus_event, (event,), action),
        call_ensures(seed_snapshot, (None,), seeded),
    ensures
        action is Stop <==> event == BusEvent::Closed,
        action is Reseed <==> event == BusEvent::OwnerChanged,
        action is Skip <==> event == BusEvent::Malformed,
        action is Emit <==> event is State,
        seeded is None,
{
}

/// Each of the two commands asks for its own toggle, and no other command for any.
pub proof fn lemma_each_command_asks_for_its_toggle(command: Command, toggle: Option<Toggle>)
    requires
        call_ensures(toggle_for, (&command,), toggle),
    ensures
        toggle == Some(Toggle::Panel) <==> command is ToggleNotificationPanel,
        toggle == Some(Toggle::Dnd) <==> command is ToggleNotificationsDnd,
{
}

} // verus!
