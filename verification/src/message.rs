//! What the sources tell the bars, and which of it a rebuilt bar is told again.

use crate::text;
use crate::tray::{TrayMenu, TrayState};
use crate::widget::{Battery, Command, Network, Notifications, PowerProfilesState, Volume};
use vstd::prelude::*;

verus! {

/// The workspaces of a session.
#[derive(Debug, PartialEq, Eq)]
pub struct Workspaces {
    listed: Vec<(i32, Option<String>)>,
    shown: Vec<(String, i32)>,
    active: i32,
}

impl Workspaces {
    /// The workspace that is active.
    pub closed spec fn focused(&self) -> i32 {
        self.active
    }

    /// The monitors, each with the workspace that is shown on it.
    pub closed spec fn monitors(&self) -> Seq<(Seq<char>, i32)> {
        self.shown@.map_values(|m: (String, i32)| (m.0@, m.1))
    }

    /// The workspaces, each with its monitor if it is tied to one.
    pub closed spec fn tied(&self) -> Seq<(i32, Option<String>)> {
        self.listed@
    }

    /// The workspaces `ids`, none of them tied to a monitor.
    pub fn new(ids: &[i32], active: i32) -> (workspaces: Self)
        ensures
            workspaces.tied() == ids@.map_values(|id: i32| (id, None::<String>)),
            workspaces.focused() == active,
            workspaces.monitors() == Seq::<(Seq<char>, i32)>::empty(),
    {
        let mut listed: Vec<(i32, Option<String>)> = Vec::new();
        let ghost whole = ids@.map_values(|id: i32| (id, None::<String>));
        let mut i: usize = 0;
        while i < ids.len()
            invariant
                i <= ids@.len(),
                whole == ids@.map_values(|id: i32| (id, None::<String>)),
                listed@ == whole.take(i as int),
            decreases ids@.len() - i,
        {
            listed.push((ids[i], None));
            assert(listed@ =~= whole.take(i + 1));
            i += 1;
        }
        assert(whole.take(i as int) =~= whole);
        let workspaces = Workspaces { listed, shown: Vec::new(), active };
        assert(workspaces.monitors() =~= Seq::<(Seq<char>, i32)>::empty());
        workspaces
    }

    /// Workspaces with the monitor of each, and the monitors with the workspace that
    /// is shown on each.
    pub fn with_monitors(
        listed: Vec<(i32, Option<String>)>,
        shown: Vec<(String, i32)>,
        active: i32,
    ) -> (workspaces: Self)
        ensures
            workspaces.tied() == listed@,
            workspaces.focused() == active,
            workspaces.monitors() == shown@.map_values(|m: (String, i32)| (m.0@, m.1)),
    {
        Workspaces { listed, shown, active }
    }

    /// The workspace that is active.
    pub fn active(&self) -> (active: i32)
        ensures
            active == self.focused(),
    {
        self.active
    }

    /// The workspaces, each with its monitor if it is tied to one.
    pub fn listed(&self) -> (listed: &Vec<(i32, Option<String>)>)
        ensures
            listed@ == self.tied(),
    {
        &self.listed
    }

    /// The workspace that is shown on `monitor`.
    pub fn active_for(&self, monitor: &str) -> (active: Option<i32>)
        ensures
            active == shown_on(self.monitors(), monitor@),
    {
        let mut i: usize = 0;
        assert(self.monitors().skip(0) =~= self.monitors());
        while i < self.shown.len()
            invariant
                i <= self.shown@.len() == self.monitors().len(),
                shown_on(self.monitors(), monitor@) == shown_on(
                    self.monitors().skip(i as int),
                    monitor@,
                ),
            decreases self.shown@.len() - i,
        {
            let ghost rest = self.monitors().skip(i as int);
            assert(rest[0] == self.monitors()[i as int]);
            if text::same(self.shown[i].0.as_str(), monitor) {
                return Some(self.shown[i].1);
            }
            assert(rest.skip(1) =~= self.monitors().skip(i + 1));
            i += 1;
        }
        None
    }
}

/// The workspace that the first entry of `monitor` names.
pub open spec fn shown_on(monitors: Seq<(Seq<char>, i32)>, monitor: Seq<char>) -> Option<i32>
    decreases monitors.len(),
{
    if monitors.len() == 0 {
        None
    } else if monitors[0].0 == monitor {
        Some(monitors[0].1)
    } else {
        shown_on(monitors.skip(1), monitor)
    }
}

/// The window that has the focus on a monitor.
#[derive(Debug, PartialEq, Eq)]
pub struct ActiveWindow {
    /// The application.
    pub app: String,
    /// The title.
    pub title: String,
}

/// The load of the machine.
#[derive(Debug, Clone, Copy, PartialEq, Eq, Structural)]
pub struct SystemStats {
    /// Processor use in percent.
    pub cpu: u8,
    /// Memory use in percent.
    pub memory: u8,
}

/// The state of the Bluetooth adapter.
#[derive(Debug, Clone, Copy, PartialEq, Eq, Structural)]
pub struct Bluetooth {
    /// Whether it is powered.
    pub powered: bool,
    /// How many devices are connected.
    pub connected: u32,
}

/// What a source tells the bars.
#[derive(Debug, PartialEq, Eq)]
pub enum Msg {
    /// The time of the local clock, in seconds: a day of it has 86400.
    Tick(u64),
    /// The workspaces.
    Workspaces(Workspaces),
    /// The battery, if there is one.
    Battery(Option<Battery>),
    /// The backlight in percent, if there is one.
    Backlight(Option<u8>),
    /// The load of the machine.
    System(SystemStats),
    /// The connectivity, if it is known.
    Network(Option<Network>),
    /// The Bluetooth adapter, if there is one.
    Bluetooth(Option<Bluetooth>),
    /// The tray.
    Tray(TrayState),
    /// The menu of a tray item.
    TrayMenu(TrayMenu),
    /// A tray item has no menu to show.
    TrayMenuUnavailable(String),
    /// The window that has the focus on a monitor.
    ActiveWindow { monitor: String, window: Option<ActiveWindow> },
    /// The volume, if there is an output.
    Volume(Option<Volume>),
    /// The notifications, if a notification daemon runs.
    Notifications(Option<Notifications>),
    /// The power profiles, if their daemon runs.
    PowerProfiles(Option<PowerProfilesState>),
    /// How many updates are pending, if that is known.
    Updates(Option<u32>),
    /// Whether the idle daemon runs.
    Hypridle(bool),
}

impl Msg {
    /// The word for the kind of a message.
    pub open spec fn kind_word(self) -> Seq<char> {
        match self {
            Msg::Tick(_) => "tick"@,
            Msg::Workspaces(_) => "workspaces"@,
            Msg::Battery(_) => "battery"@,
            Msg::Backlight(_) => "backlight"@,
            Msg::System(_) => "system"@,
            Msg::Network(_) => "network"@,
            Msg::Bluetooth(_) => "bluetooth"@,
            Msg::Tray(_) => "tray"@,
            Msg::TrayMenu(_) => "tray-menu"@,
            Msg::TrayMenuUnavailable(_) => "tray-menu-unavailable"@,
            Msg::ActiveWindow { .. } => "active-window"@,
            Msg::Volume(_) => "volume"@,
            Msg::Notifications(_) => "notifications"@,
            Msg::PowerProfiles(_) => "power-profiles"@,
            Msg::Updates(_) => "updates"@,
            Msg::Hypridle(_) => "hypridle"@,
        }
    }

    /// What a message replaces the last one of: the last one of its kind, and for
    /// the focused window the last one of its monitor.
    pub open spec fn subject(self) -> Seq<char> {
        match self {
            Msg::ActiveWindow { monitor, .. } => "aw:"@ + monitor@,
            Msg::TrayMenuUnavailable(_) => "tray-menu-unavail"@,
            _ => self.kind_word(),
        }
    }

    /// Whether a message is of the moment only.
    pub open spec fn is_transient(self) -> bool {
        self is Tick || self is TrayMenu || self is TrayMenuUnavailable
    }
}

/// The word for the kind of a message.
pub fn message_kind(msg: &Msg) -> (kind: &'static str)
    ensures
        kind@ == msg.kind_word(),
{
    match msg {
        Msg::Tick(_) => "tick",
        Msg::Workspaces(_) => "workspaces",
        Msg::Battery(_) => "battery",
        Msg::Backlight(_) => "backlight",
        Msg::System(_) => "system",
        Msg::Network(_) => "network",
        Msg::Bluetooth(_) => "bluetooth",
        Msg::Tray(_) => "tray",
        Msg::TrayMenu(_) => "tray-menu",
        Msg::TrayMenuUnavailable(_) => "tray-menu-unavailable",
        Msg::ActiveWindow { .. } => "active-window",
        Msg::Volume(_) => "volume",
        Msg::Notifications(_) => "notifications",
        Msg::PowerProfiles(_) => "power-profiles",
        Msg::Updates(_) => "updates",
        Msg::Hypridle(_) => "hypridle",
    }
}

/// What a message replaces the last one of.
pub fn snapshot_key(msg: &Msg) -> (key: String)
    ensures
        key@ == msg.subject(),
{
    match msg {
        Msg::ActiveWindow { monitor, .. } => text::joined("aw:", monitor.as_str()),
        Msg::TrayMenuUnavailable(_) => "tray-menu-unavail".to_owned(),
        _ => message_kind(msg).to_owned(),
    }
}

/// The word for the kind of a command.
pub open spec fn command_word(command: Command) -> Seq<char> {
    match command {
        Command::SwitchWorkspace(_) => "switch-workspace"@,
        Command::ActivateTrayItem { .. } => "activate-tray-item"@,
        Command::OpenTrayMenu { .. } => "open-tray-menu"@,
        Command::ActivateTrayMenuItem { .. } => "activate-tray-menu-item"@,
        Command::RunProgram(_) => "run-program"@,
        Command::ToggleNotificationPanel => "toggle-notification-panel"@,
        Command::ToggleNotificationsDnd => "toggle-notifications-dnd"@,
        Command::AdjustBacklight { .. } => "adjust-backlight"@,
        Command::SetPowerProfile(_) => "set-power-profile"@,
        Command::SetHypridle(_) => "set-hypridle"@,
    }
}

/// The word for the kind of a command.
pub fn command_kind(command: &Command) -> (kind: &'static str)
    ensures
        kind@ == command_word(*command),
{
    match command {
        Command::SwitchWorkspace(_) => "switch-workspace",
        Command::ActivateTrayItem { .. } => "activate-tray-item",
        Command::OpenTrayMenu { .. } => "open-tray-menu",
        Command::ActivateTrayMenuItem { .. } => "activate-tray-menu-item",
        Command::RunProgram(_) => "run-program",
        Command::ToggleNotificationPanel => "toggle-notification-panel",
        Command::ToggleNotificationsDnd => "toggle-notifications-dnd",
        Command::AdjustBacklight { .. } => "adjust-backlight",
        Command::SetPowerProfile(_) => "set-power-profile",
        Command::SetHypridle(_) => "set-hypridle",
    }
}

/// The latest message on each subject, told again to a bar that is rebuilt.
///
/// Rebuilding a bar forgets what its widgets show; without this it would stay empty
/// until each source has news. Messages of the moment are not kept.
#[derive(Debug, PartialEq, Eq)]
pub struct ProducerSnapshot {
    messages: Vec<Msg>,
}

/// The place of the message on `subject`.
pub open spec fn place_of(messages: Seq<Msg>, subject: Seq<char>) -> Option<int>
    decreases messages.len(),
{
    if messages.len() == 0 {
        None
    } else if messages.last().subject() == subject {
        Some(messages.len() - 1)
    } else {
        place_of(messages.drop_last(), subject)
    }
}

/// The messages after one more: it takes the place of the one on its subject, or
/// comes behind the rest.
pub open spec fn noted(messages: Seq<Msg>, msg: Msg) -> Seq<Msg> {
    if msg.is_transient() {
        messages
    } else {
        match place_of(messages, msg.subject()) {
            Some(i) => messages.update(i, msg),
            None => messages.push(msg),
        }
    }
}

/// Whether no two messages are on the same subject.
pub open spec fn one_each(messages: Seq<Msg>) -> bool {
    forall|i: int, j: int|
        0 <= i < j < messages.len() ==> (#[trigger] messages[i]).subject() != (
        #[trigger] messages[j]).subject()
}

proof fn lemma_place_of(messages: Seq<Msg>, subject: Seq<char>)
    ensures
        match place_of(messages, subject) {
            Some(i) => 0 <= i < messages.len() && messages[i].subject() == subject,
            None => forall|i: int|
                0 <= i < messages.len() ==> (#[trigger] messages[i]).subject() != subject,
        },
    decreases messages.len(),
{
    if messages.len() > 0 {
        lemma_place_of(messages.drop_last(), subject);
        if place_of(messages, subject) is None {
            assert forall|i: int| 0 <= i < messages.len() implies (
            #[trigger] messages[i]).subject() != subject by {
                if i < messages.len() - 1 {
                    assert(messages.drop_last()[i] == messages[i]);
                }
            }
        }
    }
}

/// However often a source speaks, one message is kept on each subject.
pub proof fn lemma_noting_keeps_one_each(messages: Seq<Msg>, msg: Msg)
    requires
        one_each(messages),
    ensures
        one_each(noted(messages, msg)),
{
    lemma_place_of(messages, msg.subject());
    let after = noted(messages, msg);
    if !msg.is_transient() {
        assert forall|i: int, j: int| 0 <= i < j < after.len() implies (
        #[trigger] after[i]).subject() != (#[trigger] after[j]).subject() by {
            if i < messages.len() {
                assert(messages[i].subject() == messages[i].subject());
            }
            if j < messages.len() {
                assert(messages[j].subject() == messages[j].subject());
            }
        }
    }
}

/// The latest message on a subject is the one that is told again, and what is told
/// on other subjects stays.
pub proof fn lemma_the_latest_message_is_kept(messages: Seq<Msg>, msg: Msg, subject: Seq<char>)
    requires
        one_each(messages),
        !msg.is_transient(),
    ensures
        noted(messages, msg).contains(msg),
        subject != msg.subject() ==> forall|old: Msg|
            old.subject() == subject ==> (#[trigger] noted(messages, msg).contains(old)
                == messages.contains(old)),
{
    lemma_place_of(messages, msg.subject());
    let after = noted(messages, msg);
    match place_of(messages, msg.subject()) {
        Some(i) => {
            assert(after[i] == msg);
        },
        None => {
            assert(after[messages.len() as int] == msg);
        },
    }
    if subject != msg.subject() {
        assert forall|old: Msg| old.subject() == subject implies (#[trigger] after.contains(old)
            == messages.contains(old)) by {
            if after.contains(old) {
                let i = choose|i: int| 0 <= i < after.len() && after[i] == old;
                assert(i < messages.len() ==> messages[i] == old);
            }
            if messages.contains(old) {
                let i = choose|i: int| 0 <= i < messages.len() && messages[i] == old;
                assert(after[i] == old);
            }
        }
    }
}

impl View for ProducerSnapshot {
    type V = Seq<Msg>;

    closed spec fn view(&self) -> Seq<Msg> {
        self.messages@
    }
}

impl Default for ProducerSnapshot {
    fn default() -> (snapshot: Self)
        ensures
            snapshot.wf(),
            snapshot@ == Seq::<Msg>::empty(),
    {
        ProducerSnapshot { messages: Vec::new() }
    }
}

impl ProducerSnapshot {
    /// One message is kept on each subject.
    pub open spec fn wf(&self) -> bool {
        one_each(self@)
    }

    /// Take note of a message.
    pub fn note(&mut self, msg: Msg)
        requires
            old(self).wf(),
        ensures
            final(self).wf(),
            final(self)@ == noted(old(self)@, msg),
    {
        proof {
            lemma_noting_keeps_one_each(self@, msg);
        }
        let transient: bool = match &msg {
            Msg::Tick(_) => true,
            Msg::TrayMenu(_) => true,
            Msg::TrayMenuUnavailable(_) => true,
            _ => false,
        };
        if transient {
            return;
        }
        let key: String = snapshot_key(&msg);
        let mut n: usize = self.messages.len();
        assert(self.messages@.take(n as int) =~= self.messages@);
        while n > 0
            invariant
                n <= self.messages@.len(),
                self.messages@ == old(self)@,
                key@ == msg.subject(),
                !msg.is_transient(),
                place_of(self.messages@, key@) == place_of(self.messages@.take(n as int), key@),
                one_each(noted(self.messages@, msg)),
            decreases n,
        {
            let ghost part = self.messages@.take(n as int);
            assert(part.last() == self.messages@[n - 1]);
            assert(part.drop_last() =~= self.messages@.take(n - 1));
            let other: String = snapshot_key(&self.messages[n - 1]);
            if text::same(other.as_str(), key.as_str()) {
                self.messages.set(n - 1, msg);
                return;
            }
            n -= 1;
        }
        self.messages.push(msg);
    }

    /// The messages to tell again, in the order in which their subjects first came.
    pub fn as_slice(&self) -> (messages: &[Msg])
        ensures
            messages@ == self@,
    {
        self.messages.as_slice()
    }
}

/// Each kind of message has its own word.
pub proof fn lemma_each_kind_of_message_has_its_word(msg: Msg, kind: &'static str)
    requires
        call_ensures(message_kind, (&msg,), kind),
    ensures
        msg is Tick <==> kind@ == "tick"@,
        msg is Workspaces <==> kind@ == "workspaces"@,
        msg is Battery <==> kind@ == "battery"@,
        msg is Backlight <==> kind@ == "backlight"@,
        msg is System <==> kind@ == "system"@,
        msg is Network <==> kind@ == "network"@,
        msg is Bluetooth <==> kind@ == "bluetooth"@,
        msg is Tray <==> kind@ == "tray"@,
        msg is TrayMenu <==> kind@ == "tray-menu"@,
        msg is TrayMenuUnavailable <==> kind@ == "tray-menu-unavailable"@,
        msg is ActiveWindow <==> kind@ == "active-window"@,
        msg is Volume <==> kind@ == "volume"@,
        msg is Notifications <==> kind@ == "notifications"@,
        msg is PowerProfiles <==> kind@ == "power-profiles"@,
        msg is Updates <==> kind@ == "updates"@,
        msg is Hypridle <==> kind@ == "hypridle"@,
{
    lemma_words();
}

proof fn lemma_words()
    ensures
        "tick"@.len() == 4,
        "workspaces"@.len() == 10 && "workspaces"@[0] == 'w',
        "battery"@.len() == 7 && "battery"@[0] == 'b',
        "backlight"@.len() == 9 && "backlight"@[0] == 'b' && "backlight"@[1] == 'a',
        "system"@.len() == 6 && "system"@[0] == 's',
        "network"@.len() == 7 && "network"@[0] == 'n',
        "bluetooth"@.len() == 9 && "bluetooth"@[0] == 'b' && "bluetooth"@[1] == 'l',
        "tray"@.len() == 4 && "tray"@[0] == 't' && "tray"@[1] == 'r',
        "tick"@[0] == 't' && "tick"@[1] == 'i',
        "tray-menu"@.len() == 9 && "tray-menu"@[0] == 't',
        "tray-menu-unavailable"@.len() == 21 && "tray-menu-unavailable"@[0] == 't',
        "tray-menu-unavail"@.len() == 17 && "tray-menu-unavail"@[0] == 't',
        "active-window"@.len() == 13 && "active-window"@[0] == 'a',
        "volume"@.len() == 6 && "volume"@[0] == 'v',
        "notifications"@.len() == 13 && "notifications"@[0] == 'n',
        "power-profiles"@.len() == 14 && "power-profiles"@[0] == 'p',
        "updates"@.len() == 7 && "updates"@[0] == 'u',
        "hypridle"@.len() == 8 && "hypridle"@[0] == 'h',
        "aw:"@.len() == 3 && "aw:"@[0] == 'a',
{
    reveal_strlit("tick");
    reveal_strlit("workspaces");
    reveal_strlit("battery");
    reveal_strlit("backlight");
    reveal_strlit("system");
    reveal_strlit("network");
    reveal_strlit("bluetooth");
    reveal_strlit("tray");
    reveal_strlit("tray-menu");
    reveal_strlit("tray-menu-unavailable");
    reveal_strlit("tray-menu-unavail");
    reveal_strlit("active-window");
    reveal_strlit("volume");
    reveal_strlit("notifications");
    reveal_strlit("power-profiles");
    reveal_strlit("updates");
    reveal_strlit("hypridle");
    reveal_strlit("aw:");
}

/// Whether two messages are of one kind.
pub open spec fn are_alike(a: Msg, b: Msg) -> bool {
    match a {
        Msg::Tick(_) => b is Tick,
        Msg::Workspaces(_) => b is Workspaces,
        Msg::Battery(_) => b is Battery,
        Msg::Backlight(_) => b is Backlight,
        Msg::System(_) => b is System,
        Msg::Network(_) => b is Network,
        Msg::Bluetooth(_) => b is Bluetooth,
        Msg::Tray(_) => b is Tray,
        Msg::TrayMenu(_) => b is TrayMenu,
        Msg::TrayMenuUnavailable(_) => b is TrayMenuUnavailable,
        Msg::ActiveWindow { monitor, .. } => b matches Msg::ActiveWindow { monitor: other, .. }
            && monitor@ == other@,
        Msg::Volume(_) => b is Volume,
        Msg::Notifications(_) => b is Notifications,
        Msg::PowerProfiles(_) => b is PowerProfiles,
        Msg::Updates(_) => b is Updates,
        Msg::Hypridle(_) => b is Hypridle,
    }
}

/// A message replaces another one exactly when both are of one kind, and on one monitor
/// where they are on the focused window.
pub proof fn lemma_a_message_replaces_those_of_its_kind(a: Msg, b: Msg, of_a: String, of_b: String)
    requires
        call_ensures(snapshot_key, (&a,), of_a),
        call_ensures(snapshot_key, (&b,), of_b),
    ensures
        of_a@ == of_b@ <==> are_alike(a, b),
{
    lemma_words();
    lemma_subjects(a);
    lemma_subjects(b);
    if a is ActiveWindow && b is ActiveWindow {
        let x = a->ActiveWindow_monitor@;
        let y = b->ActiveWindow_monitor@;
        assert(("aw:"@ + x).skip(3) =~= x);
        assert(("aw:"@ + y).skip(3) =~= y);
    }
}

proof fn lemma_subjects(msg: Msg)
    ensures
        msg is ActiveWindow <==> msg.subject().len() >= 3 && msg.subject()[0] == 'a',
{
    lemma_words();
}

/// Of a message that lasts, the latest one of each kind is kept and told again: it is
/// among them, it alone of its kind, and those of other kinds stay.
pub proof fn lemma_a_note_replaces_the_last_one_of_its_kind(
    snapshot: &mut ProducerSnapshot,
    msg: Msg,
    other: Msg,
)
    requires
        old(snapshot).wf(),
        call_ensures(ProducerSnapshot::note, (snapshot, msg), ()),
    ensures
        msg is Tick || msg is TrayMenu || msg is TrayMenuUnavailable ==> final(snapshot)@ == old(
            snapshot,
        )@,
        !(msg is Tick || msg is TrayMenu || msg is TrayMenuUnavailable) ==> {
            &&& final(snapshot)@.contains(msg)
            &&& are_alike(msg, other) && other != msg ==> !final(snapshot)@.contains(other)
            &&& !are_alike(msg, other) ==> (final(snapshot)@.contains(other) <==> old(
                snapshot,
            )@.contains(other))
        },
{
    lemma_words();
    lemma_subjects(msg);
    lemma_subjects(other);
    let before = snapshot@;
    let after = final(snapshot)@;
    if !msg.is_transient() {
        lemma_the_latest_message_is_kept(before, msg, other.subject());
        lemma_noting_keeps_one_each(before, msg);
        if are_alike(msg, other) {
            assert(msg.subject() == other.subject());
            if other != msg && after.contains(other) {
                let i = choose|i: int| 0 <= i < after.len() && after[i] == msg;
                let j = choose|j: int| 0 <= j < after.len() && after[j] == other;
                assert(i != j);
                if i < j {
                    assert(after[i].subject() != after[j].subject());
                } else {
                    assert(after[j].subject() != after[i].subject());
                }
            }
        } else {
            if msg is ActiveWindow && other is ActiveWindow {
                let x = msg->ActiveWindow_monitor@;
                let y = other->ActiveWindow_monitor@;
                assert(("aw:"@ + x).skip(3) =~= x);
                assert(("aw:"@ + y).skip(3) =~= y);
            }
            assert(other.subject() != msg.subject());
        }
    }
}

/// Each kind of command has its own word.
pub proof fn lemma_each_kind_of_command_has_its_word(command: Command, kind: &'static str)
    requires
        call_ensures(command_kind, (&command,), kind),
    ensures
        command is SwitchWorkspace ==> kind@ == "switch-workspace"@,
        command is ActivateTrayItem ==> kind@ == "activate-tray-item"@,
        command is OpenTrayMenu ==> kind@ == "open-tray-menu"@,
        command is ActivateTrayMenuItem ==> kind@ == "activate-tray-menu-item"@,
        command is RunProgram ==> kind@ == "run-program"@,
        command is ToggleNotificationPanel ==> kind@ == "toggle-notification-panel"@,
        command is ToggleNotificationsDnd ==> kind@ == "toggle-notifications-dnd"@,
        command is AdjustBacklight ==> kind@ == "adjust-backlight"@,
        command is SetPowerProfile ==> kind@ == "set-power-profile"@,
        command is SetHypridle ==> kind@ == "set-hypridle"@,
{
}

/// Workspaces tell what they were made of: which are listed, in order, which is active,
/// and which one each monitor shows.
pub proof fn lemma_workspaces_tell_what_they_are_made_of(
    listed: Vec<(i32, Option<String>)>,
    shown: Vec<(String, i32)>,
    active: i32,
    workspaces: Workspaces,
    told: (i32, &Vec<(i32, Option<String>)>, Option<i32>),
    monitor: &str,
    i: int,
)
    requires
        call_ensures(Workspaces::with_monitors, (listed, shown, active), workspaces),
        call_ensures(Workspaces::active, (&workspaces,), told.0),
        call_ensures(Workspaces::listed, (&workspaces,), told.1),
        call_ensures(Workspaces::active_for, (&workspaces, monitor), told.2),
    ensures
        told.0 == active,
        told.1@ == listed@,
        0 <= i < shown@.len() && shown@[i].0@ == monitor@ && (forall|j: int|
            0 <= j < i ==> (#[trigger] shown@[j]).0@ != monitor@) ==> told.2 == Some(shown@[i].1),
        (forall|j: int| 0 <= j < shown@.len() ==> (#[trigger] shown@[j]).0@ != monitor@)
            ==> told.2 is None,
{
    let monitors = workspaces.monitors();
    assert(monitors.len() == shown@.len());
    assert(forall|j: int|
        0 <= j < shown@.len() ==> #[trigger] monitors[j] == (shown@[j].0@, shown@[j].1));
    if 0 <= i < shown@.len() && shown@[i].0@ == monitor@ && (forall|j: int|
        0 <= j < i ==> (#[trigger] shown@[j]).0@ != monitor@) {
        assert forall|j: int| 0 <= j < i implies (#[trigger] monitors[j]).0 != monitor@ by {
            assert(shown@[j].0@ != monitor@);
        }
        lemma_first_shown(monitors, monitor@, i);
    }
    if forall|j: int| 0 <= j < shown@.len() ==> (#[trigger] shown@[j]).0@ != monitor@ {
        assert forall|j: int| 0 <= j < monitors.len() implies (#[trigger] monitors[j]).0
            != monitor@ by {
            assert(shown@[j].0@ != monitor@);
        }
        lemma_first_shown(monitors, monitor@, monitors.len() as int);
    }
}

proof fn lemma_first_shown(monitors: Seq<(Seq<char>, i32)>, monitor: Seq<char>, i: int)
    requires
        0 <= i <= monitors.len(),
        forall|j: int| 0 <= j < i ==> (#[trigger] monitors[j]).0 != monitor,
        i < monitors.len() ==> monitors[i].0 == monitor,
    ensures
        shown_on(monitors, monitor) == if i < monitors.len() {
            Some(monitors[i].1)
        } else {
            None
        },
    decreases i,
{
    if i > 0 {
        assert(monitors[0].0 != monitor);
        let rest = monitors.skip(1);
        assert forall|j: int| 0 <= j < i - 1 implies (#[trigger] rest[j]).0 != monitor by {
            assert(rest[j] == monitors[j + 1]);
        }
        if i < monitors.len() {
            assert(rest[i - 1] == monitors[i]);
        }
        lemma_first_shown(rest, monitor, i - 1);
    }
}

/// Workspaces without monitors are those of their ids, in order, tied to none.
pub proof fn lemma_plain_workspaces_are_their_ids(
    ids: &[i32],
    active: i32,
    workspaces: Workspaces,
    listed: &Vec<(i32, Option<String>)>,
    i: int,
)
    requires
        call_ensures(Workspaces::new, (ids, active), workspaces),
        call_ensures(Workspaces::listed, (&workspaces,), listed),
        0 <= i < ids@.len(),
    ensures
        listed@.len() == ids@.len(),
        listed@[i].0 == ids@[i],
        listed@[i].1 is None,
        workspaces.focused() == active,
        workspaces.monitors().len() == 0,
{
}

} // verus!
