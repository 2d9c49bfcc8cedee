//! power-profiles-daemon readings and profile switching.
//!
//! On machines that also expose a known platform TDP/fan driver, the hardware
//! state is laid over the daemon's, and a profile change goes to both the daemon
//! and the privileged platform helper.

pub mod platform;

use crate::text;
use crate::time::SECOND;
use crate::widget::{Command, PowerProfile, PowerProfileView, PowerProfilesState, PowerProfilesView};
use vstd::prelude::*;

pub use platform::{
    detect_platform, overlay_snapshot, PlatformKind, PowerProfilesSettings, Qc71Mode,
};

verus! {

/// How long to wait before looking for the daemon again, in nanoseconds.
pub const RETRY_DELAY: u64 = 2 * SECOND;

/// How often the platform driver's sysfs state is re-read, in nanoseconds. The
/// driver offers no change notification, so this bounds how long a mode set by
/// another tool goes unnoticed.
pub const PLATFORM_POLL: u64 = 5 * SECOND;

/// Where the daemon is on the bus: under its current name, or its legacy one.
#[derive(Debug, Clone, Copy, PartialEq, Eq, Structural)]
pub enum Endpoint {
    /// The current name.
    Current,
    /// The legacy name.
    Legacy,
}

impl Endpoint {
    /// The bus name.
    pub fn service(self) -> (name: &'static str)
        ensures
            name@ == match self {
                Endpoint::Current => "org.freedesktop.UPower.PowerProfiles"@,
                Endpoint::Legacy => "net.hadess.PowerProfiles"@,
            },
    {
        match self {
            Endpoint::Current => "org.freedesktop.UPower.PowerProfiles",
            Endpoint::Legacy => "net.hadess.PowerProfiles",
        }
    }

    /// The object path.
    pub fn path(self) -> (path: &'static str)
        ensures
            path@ == match self {
                Endpoint::Current => "/org/freedesktop/UPower/PowerProfiles"@,
                Endpoint::Legacy => "/net/hadess/PowerProfiles"@,
            },
    {
        match self {
            Endpoint::Current => "/org/freedesktop/UPower/PowerProfiles",
            Endpoint::Legacy => "/net/hadess/PowerProfiles",
        }
    }

    /// The interface, which is named as the service is.
    pub fn interface(self) -> (name: &'static str)
        ensures
            name@ == match self {
                Endpoint::Current => "org.freedesktop.UPower.PowerProfiles"@,
                Endpoint::Legacy => "net.hadess.PowerProfiles"@,
            },
    {
        self.service()
    }
}

/// The entries of a profile dictionary that are read, where each holds text.
#[derive(Debug, PartialEq, Eq)]
pub struct ProfileProperties {
    /// `Profile`.
    pub profile: Option<String>,
    /// `Driver`.
    pub driver: Option<String>,
    /// `CpuDriver`.
    pub cpu_driver: Option<String>,
    /// `PlatformDriver`.
    pub platform_driver: Option<String>,
}

/// `text` or nothing.
pub open spec fn text_or_empty(text: Option<Seq<char>>) -> Seq<char> {
    match text {
        Some(text) => text,
        None => seq![],
    }
}

/// `first`, or `second` where that is empty.
pub open spec fn or_else_text(first: Seq<char>, second: Seq<char>) -> Seq<char> {
    if first.len() == 0 {
        second
    } else {
        first
    }
}

/// The profile a dictionary describes. A driver that is not named falls back to
/// one that is; where none is, all are unavailable. A profile without a name is
/// none.
pub open spec fn described_profile(
    profile: Option<Seq<char>>,
    driver: Option<Seq<char>>,
    cpu_driver: Option<Seq<char>>,
    platform_driver: Option<Seq<char>>,
) -> Option<PowerProfileView> {
    let named = text_or_empty(driver);
    let cpu = or_else_text(text_or_empty(cpu_driver), named);
    let platform = or_else_text(text_or_empty(platform_driver), named);
    let general = or_else_text(named, cpu);
    match profile {
        Some(name) if name.len() > 0 => Some(
            if general.len() == 0 {
                PowerProfileView {
                    name,
                    driver: "Unavailable"@,
                    cpu_driver: "Unavailable"@,
                    platform_driver: "Unavailable"@,
                }
            } else {
                PowerProfileView {
                    name,
                    driver: general,
                    cpu_driver: cpu,
                    platform_driver: platform,
                }
            },
        ),
        _ => None,
    }
}

fn text_of(text: &Option<String>) -> (s: &str)
    ensures
        s@ == text_or_empty(crate::text::optional(*text)),
{
    match text {
        Some(text) => text.as_str(),
        None => {
            proof {
                reveal_strlit("");
                assert(""@ =~= seq![]);
            }
            ""
        },
    }
}

fn either<'a>(first: &'a str, second: &'a str) -> (s: &'a str)
    ensures
        s@ == or_else_text(first@, second@),
{
    if first.is_empty() {
        second
    } else {
        first
    }
}

/// The contents of an optional profile.
pub open spec fn optional_profile(profile: Option<PowerProfile>) -> Option<PowerProfileView> {
    match profile {
        Some(profile) => Some(profile@),
        None => None,
    }
}

/// Normalize one profile dictionary, with fallbacks among its drivers.
pub fn profile_from_properties(values: ProfileProperties) -> (profile: Option<PowerProfile>)
    ensures
        optional_profile(profile) == described_profile(
            text::optional(values.profile),
            text::optional(values.driver),
            text::optional(values.cpu_driver),
            text::optional(values.platform_driver),
        ),
{
    let name: &str = match &values.profile {
        Some(name) => name.as_str(),
        None => {
            return None;
        },
    };
    if name.is_empty() {
        return None;
    }
    let named: &str = text_of(&values.driver);
    let cpu: &str = either(text_of(&values.cpu_driver), named);
    let platform: &str = either(text_of(&values.platform_driver), named);
    let general: &str = either(named, cpu);
    if general.is_empty() {
        return Some(PowerProfile::new(name, "Unavailable", "Unavailable", "Unavailable"));
    }
    Some(PowerProfile::new(name, general, cpu, platform))
}

/// The daemon state laid under a platform reading: `raw` is what the platform's
/// mode file holds, if there is a platform and the file could be read.
pub fn compose(
    ppd: Option<PowerProfilesState>,
    platform: Option<PlatformKind>,
    raw: Option<&str>,
) -> (state: Option<PowerProfilesState>)
    ensures
        platform::optional_state(state) == platform::overlaid(
            platform::optional_state(ppd),
            match platform {
                Some(kind) => Some(platform::platform_name(kind)),
                None => None,
            },
            match (platform, raw) {
                (Some(_), Some(raw)) => platform::profile_of(raw@),
                _ => None,
            },
        ),
{
    match platform {
        Some(kind) => platform::overlay_snapshot(
            ppd,
            Some(kind.name()),
            platform::read_platform_profile(kind, raw),
        ),
        None => platform::overlay_snapshot(ppd, None, None),
    }
}

/// What was last reported, so that only a change is reported again.
#[derive(Debug, PartialEq, Eq)]
pub struct Reported {
    last: Option<Option<PowerProfilesState>>,
}

impl View for Reported {
    type V = Option<Option<PowerProfilesView>>;

    closed spec fn view(&self) -> Option<Option<PowerProfilesView>> {
        match self.last {
            Some(state) => Some(platform::optional_state(state)),
            None => None,
        }
    }
}

impl Reported {
    /// Nothing reported yet.
    pub fn new() -> (reported: Self)
        ensures
            reported@ is None,
    {
        Reported { last: None }
    }

    /// Take in the next state: whether it has to be reported, because it differs
    /// from the last one or is the first.
    pub fn send_if_changed(&mut self, next: &Option<PowerProfilesState>) -> (changed: bool)
        ensures
            changed == (old(self)@ != Some(platform::optional_state(*next))),
            final(self)@ == Some(platform::optional_state(*next)),
    {
        let known: bool = match (&self.last, next) {
            (Some(Some(last)), Some(next)) => last.same(next),
            (Some(None), None) => true,
            _ => false,
        };
        if known {
            return false;
        }
        self.last = Some(
            match next {
                Some(state) => Some(state.clone()),
                None => None,
            },
        );
        true
    }
}

/// What wakes the follower.
#[derive(Debug, Clone, Copy, PartialEq, Eq, Structural)]
pub enum Wake {
    /// The daemon's state or its owner changed.
    Changed,
    /// The bus is gone.
    Closed,
    /// The platform was changed from here, or it is time to look at it again.
    Platform,
}

/// What the follower does next.
#[derive(Debug, Clone, Copy, PartialEq, Eq, Structural)]
pub enum FollowStep {
    /// Find the daemon and read its state anew.
    Reseed,
    /// Lay the platform's state over the daemon state in hand.
    Recompose,
    /// Stop.
    Stop,
}

/// Decide what a wake-up asks for.
pub fn after_wake(wake: Wake) -> (step: FollowStep)
    ensures
        step == match wake {
            Wake::Changed => FollowStep::Reseed,
            Wake::Closed => FollowStep::Stop,
            Wake::Platform => FollowStep::Recompose,
        },
{
    match wake {
        Wake::Changed => FollowStep::Reseed,
        Wake::Closed => FollowStep::Stop,
        Wake::Platform => FollowStep::Recompose,
    }
}

/// How long to wait, in nanoseconds, while the daemon is absent: as long as the
/// platform is polled, or until the daemon is looked for again.
pub fn absent_delay(platform: Option<PlatformKind>) -> (delay: u64)
    ensures
        delay == if platform is Some {
            PLATFORM_POLL
        } else {
            RETRY_DELAY
        },
{
    if platform.is_some() {
        PLATFORM_POLL
    } else {
        RETRY_DELAY
    }
}

/// How a profile change is carried out.
#[derive(Debug, Clone, Copy, PartialEq, Eq, Structural)]
pub struct SetPlan {
    /// Where to set the daemon's active profile.
    pub daemon: Option<Endpoint>,
    /// Whether to run the platform helper.
    pub helper: bool,
    /// Whether to tell the follower that the platform may have changed.
    pub notify: bool,
}

/// Plan a profile change: the daemon where it is found, and the helper where
/// there is a platform with one that knows the profile. With neither daemon nor
/// platform there is nothing to do.
pub fn plan_profile(
    profile: &str,
    daemon: Option<Endpoint>,
    platform: Option<PlatformKind>,
    has_helper: bool,
) -> (plan: Option<SetPlan>)
    ensures
        plan == if daemon is None && platform is None {
            None
        } else {
            Some(
                SetPlan {
                    daemon,
                    helper: platform is Some && has_helper && platform::is_mapped(
                        platform->0,
                        profile@,
                    ),
                    notify: platform is Some && has_helper,
                },
            )
        },
{
    if daemon.is_none() && platform.is_none() {
        return None;
    }
    let helper: bool = match platform {
        Some(kind) => has_helper && platform::maps_profile(kind, profile),
        None => false,
    };
    Some(SetPlan { daemon, helper, notify: platform.is_some() && has_helper })
}

/// The profile a command asks for; commands for other executors are ignored.
pub fn requested_profile(command: &Command) -> (profile: Option<&String>)
    ensures
        match *command {
            Command::SetPowerProfile(name) => profile == Some(&name),
            _ => profile is None,
        },
{
    match command {
        Command::SetPowerProfile(name) => Some(name),
        _ => None,
    }
}

/// Follows the daemon's profiles, with an optional platform overlay.
pub struct PowerProfilesProducer {
    settings: PowerProfilesSettings,
}

impl PowerProfilesProducer {
    /// The detection settings.
    pub closed spec fn set_up(&self) -> platform::SettingsView {
        self.settings@
    }

    /// Create a producer that auto-detects platform backends under `/sys`.
    pub fn new() -> (producer: Self)
        ensures
            producer.set_up() == (platform::SettingsView {
                hardware_control: true,
                hardware_helper: None,
                sys_root: "/sys"@,
            }),
    {
        PowerProfilesProducer { settings: PowerProfilesSettings::default() }
    }

    /// Override detection settings (sysfs root, helper path, enable flag).
    pub fn with_settings(self, settings: PowerProfilesSettings) -> (producer: Self)
        ensures
            producer.set_up() == settings@,
    {
        PowerProfilesProducer { settings }
    }

    /// The detection settings.
    pub fn settings(&self) -> (settings: &PowerProfilesSettings)
        ensures
            settings@ == self.set_up(),
    {
        &self.settings
    }

    /// What the producer is called in logs.
    pub fn name(&self) -> (name: String)
        ensures
            name@ == "power-profiles-daemon"@,
    {
        "power-profiles-daemon".to_owned()
    }
}

impl Default for PowerProfilesProducer {
    fn default() -> (producer: Self)
        ensures
            producer.set_up() == (platform::SettingsView {
                hardware_control: true,
                hardware_helper: None,
                sys_root: "/sys"@,
            }),
    {
        PowerProfilesProducer::new()
    }
}

/// A profile has the drivers that are named for it; one that is not named is the general
/// one, the general one is that of the processor where it is not named, and where none is
/// named all are unavailable. A profile without a name is none.
pub proof fn lemma_drivers_fall_back_on_what_is_named(
    values: ProfileProperties,
    profile: Option<PowerProfile>,
)
    requires
        call_ensures(profile_from_properties, (values,), profile),
    ensures
        profile is Some <==> values.profile is Some && values.profile->0@.len() > 0,
        profile is Some ==> profile->0@.name == values.profile->0@,
        profile is Some && values.driver is Some && values.driver->0@.len() > 0 ==> {
            &&& profile->0@.driver == values.driver->0@
            &&& values.cpu_driver is Some && values.cpu_driver->0@.len() > 0
                ==> profile->0@.cpu_driver == values.cpu_driver->0@
            &&& values.cpu_driver is None ==> profile->0@.cpu_driver == values.driver->0@
            &&& values.platform_driver is Some && values.platform_driver->0@.len() > 0
                ==> profile->0@.platform_driver == values.platform_driver->0@
            &&& values.platform_driver is None ==> profile->0@.platform_driver
                == values.driver->0@
        },
        profile is Some && values.driver is None && values.cpu_driver is Some
            && values.cpu_driver->0@.len() > 0 ==> profile->0@.driver == values.cpu_driver->0@
            && profile->0@.cpu_driver == values.cpu_driver->0@,
        profile is Some && values.driver is None && values.cpu_driver is None
            ==> profile->0@.driver == "Unavailable"@ && profile->0@.cpu_driver == "Unavailable"@
            && profile->0@.platform_driver == "Unavailable"@,
{
}

/// The daemon's state stands where there is no platform; a readable platform mode is the
/// active profile, and an unreadable one leaves the daemon's.
pub proof fn lemma_the_platform_names_the_active_profile(
    daemon: Option<PowerProfilesState>,
    platform: Option<PlatformKind>,
    raw: Option<&str>,
    state: Option<PowerProfilesState>,
    mode: Option<&'static str>,
)
    requires
        call_ensures(compose, (daemon, platform, raw), state),
        raw is Some ==> call_ensures(platform::profile_from_performance_mode, (raw->0,), mode),
        raw is None ==> mode is None,
    ensures
        platform is None ==> (state is Some <==> daemon is Some),
        platform is None && daemon is Some ==> state->0@ == daemon->0@,
        platform is Some && mode is Some ==> state is Some && state->0@.active == mode->0@
            && state->0@.hardware == Some("qc71"@),
        platform is Some && mode is Some && daemon is Some ==> forall|i: int|
            0 <= i < daemon->0@.profiles.len() ==> state->0@.profiles.len() > i
                && #[trigger] state->0@.profiles[i] == daemon->0@.profiles[i],
        platform is Some && mode is None && daemon is Some ==> state is Some && state->0@.active
            == daemon->0@.active && state->0@.profiles == daemon->0@.profiles,
        platform is Some && mode is None && daemon is None ==> state is None,
{
}

/// A state is reported exactly when it differs from the last one reported, or is the first.
pub proof fn lemma_only_a_new_state_is_reported(
    reported: &mut Reported,
    next: Option<PowerProfilesState>,
    changed: bool,
)
    requires
        call_ensures(Reported::send_if_changed, (reported, &next), changed),
    ensures
        old(reported)@ is None ==> changed,
        old(reported)@ is Some && old(reported)@->0 is None ==> (changed <==> next is Some),
        old(reported)@ is Some && old(reported)@->0 is Some ==> (changed <==> next is None
            || next->0@ != old(reported)@->0->0),
        final(reported)@ is Some,
        next is Some ==> final(reported)@->0 == Some(next->0@),
        next is None ==> final(reported)@->0 is None,
{
}

/// The daemon is read anew when it changed, the platform when it did, and only the end of
/// the bus ends the source.
pub proof fn lemma_each_wake_up_has_its_step(wake: Wake, step: FollowStep)
    requires
        call_ensures(after_wake, (wake,), step),
    ensures
        step == FollowStep::Reseed <==> wake == Wake::Changed,
        step == FollowStep::Stop <==> wake == Wake::Closed,
        step == FollowStep::Recompose <==> wake == Wake::Platform,
{
}

/// Without the daemon a platform is looked at every five seconds, and without a platform
/// the daemon is looked for after two.
pub proof fn lemma_the_absent_daemon_is_looked_for(platform: Option<PlatformKind>, delay: u64)
    requires
        call_ensures(absent_delay, (platform,), delay),
    ensures
        platform is Some ==> delay == 5_000_000_000,
        platform is None ==> delay == 2_000_000_000,
{
}

/// A profile is set at the daemon where it is found, and by the helper where the platform
/// has one that knows the profile; with neither there is nothing to do.
pub proof fn lemma_a_profile_is_set_where_it_can_be(
    profile: &str,
    daemon: Option<Endpoint>,
    platform: Option<PlatformKind>,
    has_helper: bool,
    plan: Option<SetPlan>,
)
    requires
        call_ensures(plan_profile, (profile, daemon, platform, has_helper), plan),
    ensures
        plan is None <==> daemon is None && platform is None,
        plan is Some ==> plan->0.daemon == daemon,
        plan is Some ==> (plan->0.helper <==> platform is Some && has_helper && (profile@
            == "power-saver"@ || profile@ == "balanced"@ || profile@ == "performance"@)),
        plan is Some ==> (plan->0.notify <==> platform is Some && has_helper),
{
}

/// The daemon is found under its own name and path, the current or the legacy one.
pub proof fn lemma_each_endpoint_has_its_address(
    endpoint: Endpoint,
    service: &'static str,
    path: &'static str,
    interface: &'static str,
)
    requires
        call_ensures(Endpoint::service, (endpoint,), service),
        call_ensures(Endpoint::path, (endpoint,), path),
        call_ensures(Endpoint::interface, (endpoint,), interface),
    ensures
        interface@ == service@,
        endpoint == Endpoint::Current ==> service@ == "org.freedesktop.UPower.PowerProfiles"@
            && path@ == "/org/freedesktop/UPower/PowerProfiles"@,
        endpoint == Endpoint::Legacy ==> service@ == "net.hadess.PowerProfiles"@ && path@
            == "/net/hadess/PowerProfiles"@,
{
}

/// Only the command that sets a profile asks for one.
pub proof fn lemma_only_one_command_sets_a_profile(command: Command, profile: Option<&String>)
    requires
        call_ensures(requested_profile, (&command,), profile),
    ensures
        profile is Some <==> command is SetPowerProfile,
        command matches Command::SetPowerProfile(name) ==> profile->0@ == name@,
{
}

} // verus!
