//! Optional machine-specific TDP/fan backends layered on power-profiles-daemon.
//!
//! Detection is silent: machines without a known sysfs driver stay a pure daemon
//! client. Writes never go through sysfs from this process; they are delegated to
//! a privileged helper.

use crate::command;
use crate::config::path::{self, join_below};
use crate::probe;
use crate::text;
use crate::widget::{
    self, PowerProfile, PowerProfileView, PowerProfilesState, PowerProfilesView,
};
use vstd::prelude::*;
use vstd::string::StringExecFns;

verus! {

/// User-facing settings for the power-profiles producer and command executor.
#[derive(Debug, Clone, PartialEq, Eq)]
pub struct PowerProfilesSettings {
    hardware_control: bool,
    hardware_helper: Option<String>,
    sys_root: String,
}

/// The contents of [`PowerProfilesSettings`].
#[verifier::ext_equal]
pub struct SettingsView {
    /// Whether platform backends may be probed.
    pub hardware_control: bool,
    /// Configured helper path, if any.
    pub hardware_helper: Option<Seq<char>>,
    /// Sysfs root used for detection.
    pub sys_root: Seq<char>,
}

impl View for PowerProfilesSettings {
    type V = SettingsView;

    closed spec fn view(&self) -> SettingsView {
        SettingsView {
            hardware_control: self.hardware_control,
            hardware_helper: text::optional(self.hardware_helper),
            sys_root: self.sys_root@,
        }
    }
}

impl Default for PowerProfilesSettings {
    fn default() -> (settings: Self)
        ensures
            settings@ == (SettingsView {
                hardware_control: true,
                hardware_helper: None,
                sys_root: "/sys"@,
            }),
    {
        PowerProfilesSettings::new(true, None)
    }
}

/// A known platform TDP/fan driver. New variants can be added without changing
/// the daemon client path used on every other machine.
#[derive(Debug, Clone, Copy, PartialEq, Eq, Structural)]
pub enum PlatformKind {
    /// Slimbook (and compatible) `qc71_laptop` sysfs.
    Qc71,
}

/// The name of a backend.
pub open spec fn platform_name(kind: PlatformKind) -> Seq<char> {
    match kind {
        PlatformKind::Qc71 => "qc71"@,
    }
}

impl PlatformKind {
    /// Stable tooltip/log name for this backend.
    pub fn name(self) -> (name: &'static str)
        ensures
            name@ == platform_name(self),
    {
        match self {
            PlatformKind::Qc71 => "qc71",
        }
    }
}

/// The file that says which mode a backend is in.
pub open spec fn mode_file_path(sys_root: Seq<char>, kind: PlatformKind) -> Seq<char> {
    match kind {
        PlatformKind::Qc71 => path::below(
            path::below(sys_root, "devices/platform/qc71_laptop"@),
            "performance_mode"@,
        ),
    }
}

/// The file that says which mode a backend is in.
pub fn mode_file(sys_root: &str, kind: PlatformKind) -> (path: String)
    ensures
        path@ == mode_file_path(sys_root@, kind),
{
    match kind {
        PlatformKind::Qc71 => {
            let dir: String = join_below(sys_root, "devices/platform/qc71_laptop");
            join_below(dir.as_str(), "performance_mode")
        },
    }
}

impl PowerProfilesSettings {
    /// Build settings from the widget table. `hardware_control` defaults on so
    /// a missing key keeps auto-detection; `hardware_helper` is an optional
    /// override of the PATH search.
    pub fn new(hardware_control: bool, hardware_helper: Option<String>) -> (settings: Self)
        ensures
            settings@ == (SettingsView {
                hardware_control,
                hardware_helper: text::optional(hardware_helper),
                sys_root: "/sys"@,
            }),
    {
        PowerProfilesSettings { hardware_control, hardware_helper, sys_root: "/sys".to_owned() }
    }

    /// Whether platform backends may be probed.
    pub fn hardware_control(&self) -> (allowed: bool)
        ensures
            allowed == self@.hardware_control,
    {
        self.hardware_control
    }

    /// Configured helper path, if any.
    pub fn hardware_helper(&self) -> (helper: Option<&str>)
        ensures
            text::optional_str(helper) == self@.hardware_helper,
    {
        match &self.hardware_helper {
            Some(helper) => Some(helper.as_str()),
            None => None,
        }
    }

    /// Sysfs root used for detection (`/sys` in production).
    pub fn sys_root(&self) -> (root: &str)
        ensures
            root@ == self@.sys_root,
    {
        self.sys_root.as_str()
    }

    /// The same settings with another sysfs root.
    pub fn with_sys_root(self, sys_root: String) -> (settings: Self)
        ensures
            settings@ == (SettingsView { sys_root: sys_root@, ..self@ }),
    {
        PowerProfilesSettings {
            hardware_control: self.hardware_control,
            hardware_helper: self.hardware_helper,
            sys_root,
        }
    }

    /// Probe the configured sysfs root when hardware control is enabled.
    pub fn detect_platform<F: Fn(&str) -> bool>(&self, is_file: F) -> (kind: Option<PlatformKind>)
        requires
            probe::askable(is_file),
        ensures
            !self@.hardware_control ==> kind is None,
            self@.hardware_control ==> probe::answers(
                is_file,
                mode_file_path(self@.sys_root, PlatformKind::Qc71),
                kind is Some,
            ),
    {
        if !self.hardware_control {
            return None;
        }
        detect_platform(self.sys_root.as_str(), is_file)
    }
}

/// Numeric triple written to qc71 sysfs by the privileged helper.
#[derive(Debug, Clone, Copy, PartialEq, Eq, Structural)]
pub struct Qc71Mode {
    /// `performance_mode` (1 saver / 2 balanced / 3 performance).
    pub performance_mode: u8,
    /// `silent_mode` (1 only in power-saver).
    pub silent_mode: u8,
    /// `turbo_mode` (1 only in performance).
    pub turbo_mode: u8,
}

/// The qc71 mode of a daemon profile.
pub open spec fn mode_of(profile: Seq<char>) -> Option<Qc71Mode> {
    if profile == "power-saver"@ {
        Some(Qc71Mode { performance_mode: 1, silent_mode: 1, turbo_mode: 0 })
    } else if profile == "balanced"@ {
        Some(Qc71Mode { performance_mode: 2, silent_mode: 0, turbo_mode: 0 })
    } else if profile == "performance"@ {
        Some(Qc71Mode { performance_mode: 3, silent_mode: 0, turbo_mode: 1 })
    } else {
        None
    }
}

/// Map a power-profiles-daemon profile name onto qc71 sysfs values.
pub fn qc71_mode_for(profile: &str) -> (mode: Option<Qc71Mode>)
    ensures
        mode == mode_of(profile@),
{
    if text::same(profile, "power-saver") {
        Some(Qc71Mode { performance_mode: 1, silent_mode: 1, turbo_mode: 0 })
    } else if text::same(profile, "balanced") {
        Some(Qc71Mode { performance_mode: 2, silent_mode: 0, turbo_mode: 0 })
    } else if text::same(profile, "performance") {
        Some(Qc71Mode { performance_mode: 3, silent_mode: 0, turbo_mode: 1 })
    } else {
        None
    }
}

/// The daemon profile that the contents of the mode file stand for.
pub open spec fn profile_of(raw: Seq<char>) -> Option<Seq<char>> {
    let mode = text::trimmed(raw);
    if mode == "1"@ {
        Some("power-saver"@)
    } else if mode == "2"@ {
        Some("balanced"@)
    } else if mode == "3"@ {
        Some("performance"@)
    } else {
        None
    }
}

/// Map a `performance_mode` sysfs value back to a daemon profile name.
pub fn profile_from_performance_mode(raw: &str) -> (profile: Option<&'static str>)
    ensures
        match profile {
            Some(profile) => profile_of(raw@) == Some(profile@),
            None => profile_of(raw@) is None,
        },
{
    let mode: &str = text::trim(raw);
    if text::same(mode, "1") {
        Some("power-saver")
    } else if text::same(mode, "2") {
        Some("balanced")
    } else if text::same(mode, "3") {
        Some("performance")
    } else {
        None
    }
}

/// Reading back what was set: the mode number the helper writes for a profile is
/// read back as that profile.
pub proof fn lemma_mode_round_trip(profile: Seq<char>)
    requires
        mode_of(profile) is Some,
    ensures
        profile_of(text::decimal_of((mode_of(profile)->0).performance_mode as nat)) == Some(profile),
{
    reveal_strlit("1");
    reveal_strlit("2");
    reveal_strlit("3");
    let number = (mode_of(profile)->0).performance_mode as nat;
    let written = text::decimal_of(number);
    assert(written.len() == 1);
    assert(!text::is_white_space(written[0]));
    assert(text::trimmed_start(written) == written);
    assert(text::trimmed_end(written) == written);
    assert("1"@[0] == '1' && "2"@[0] == '2' && "3"@[0] == '3');
    if number == 1 {
        assert(written =~= "1"@);
    } else if number == 2 {
        assert(written =~= "2"@);
        assert("1"@[0] != "2"@[0]);
    } else {
        assert(written =~= "3"@);
        assert("1"@[0] != "3"@[0]);
        assert("2"@[0] != "3"@[0]);
    }
}

/// Probe well-known sysfs locations under `sys_root`. First match wins.
pub fn detect_platform<F: Fn(&str) -> bool>(sys_root: &str, is_file: F) -> (kind: Option<
    PlatformKind,
>)
    requires
        probe::askable(is_file),
    ensures
        probe::answers(is_file, mode_file_path(sys_root@, PlatformKind::Qc71), kind is Some),
        kind is Some ==> kind->0 == PlatformKind::Qc71,
{
    let path: String = mode_file(sys_root, PlatformKind::Qc71);
    if probe::ask(&is_file, path.as_str()) {
        Some(PlatformKind::Qc71)
    } else {
        None
    }
}

/// The hardware profile that a backend's mode file stands for; `raw` is what the
/// file holds, if it could be read. Missing or unparseable contents yield `None`
/// so the caller can keep the daemon's value.
pub fn read_platform_profile(kind: PlatformKind, raw: Option<&str>) -> (profile: Option<
    &'static str,
>)
    ensures
        match profile {
            Some(profile) => raw is Some && profile_of((raw->0)@) == Some(profile@),
            None => raw is None || profile_of((raw->0)@) is None,
        },
{
    match kind {
        PlatformKind::Qc71 => match raw {
            Some(raw) => profile_from_performance_mode(raw),
            None => None,
        },
    }
}

/// A profile with one driver for everything.
pub open spec fn uniform_profile(name: Seq<char>, driver: Seq<char>) -> PowerProfileView {
    PowerProfileView { name, driver, cpu_driver: driver, platform_driver: driver }
}

/// The three standard profiles with one driver for everything.
pub open spec fn standard_profiles(driver: Seq<char>) -> Seq<PowerProfileView> {
    seq![
        uniform_profile("power-saver"@, driver),
        uniform_profile("balanced"@, driver),
        uniform_profile("performance"@, driver),
    ]
}

/// Daemon state merged with an optional hardware reading.
pub open spec fn overlaid(
    ppd: Option<PowerProfilesView>,
    hardware: Option<Seq<char>>,
    hardware_profile: Option<Seq<char>>,
) -> Option<PowerProfilesView> {
    match (ppd, hardware) {
        (None, None) => None,
        (None, Some(name)) => match hardware_profile {
            Some(active) => Some(
                PowerProfilesView {
                    active,
                    profiles: standard_profiles(name),
                    hardware: Some(name),
                },
            ),
            None => None,
        },
        (Some(state), None) => Some(state),
        (Some(state), Some(name)) => match hardware_profile {
            Some(active) => Some(
                state.ensured(uniform_profile(active, name)).activated(active).backed(Some(name)),
            ),
            None => Some(state.backed(Some(name))),
        },
    }
}

/// The contents of an optional state.
pub open spec fn optional_state(state: Option<PowerProfilesState>) -> Option<PowerProfilesView> {
    match state {
        Some(state) => Some(state@),
        None => None,
    }
}

/// Merge daemon state with an optional hardware reading.
///
/// Hardware wins for the *active* profile when it can be parsed. The daemon's
/// advertised list is kept for click rotation. Machines with neither source
/// yield `None`, which hides the widget.
pub fn overlay_snapshot(
    ppd: Option<PowerProfilesState>,
    hardware: Option<&str>,
    hardware_profile: Option<&str>,
) -> (state: Option<PowerProfilesState>)
    ensures
        optional_state(state) == overlaid(
            optional_state(ppd),
            text::optional_str(hardware),
            text::optional_str(hardware_profile),
        ),
{
    match (ppd, hardware) {
        (None, None) => None,
        (None, Some(name)) => match hardware_profile {
            Some(active) => Some(
                PowerProfilesState::new(active, synthetic_profiles(name)).with_hardware(
                    Some(name.to_owned()),
                ),
            ),
            None => None,
        },
        (Some(state), None) => Some(state),
        (Some(state), Some(name)) => match hardware_profile {
            Some(active) => Some(
                state.ensuring_profile(PowerProfile::new(active, name, name, name)).with_active(
                    active,
                ).with_hardware(Some(name.to_owned())),
            ),
            None => Some(state.with_hardware(Some(name.to_owned()))),
        },
    }
}

/// The standard profiles with one driver for everything, for a machine whose
/// daemon is absent.
pub fn synthetic_profiles(driver: &str) -> (profiles: Vec<PowerProfile>)
    ensures
        widget::profile_views(profiles@) == standard_profiles(driver@),
{
    let profiles: Vec<PowerProfile> = vec![
        PowerProfile::new("power-saver", driver, driver, driver),
        PowerProfile::new("balanced", driver, driver, driver),
        PowerProfile::new("performance", driver, driver, driver),
    ];
    assert(widget::profile_views(profiles@) =~= standard_profiles(driver@));
    profiles
}

/// A readable hardware mode always names the active profile, and an advertised
/// profile is never dropped.
pub proof fn lemma_hardware_wins_and_keeps_the_list(
    state: PowerProfilesView,
    name: Seq<char>,
    active: Seq<char>,
)
    ensures
        ({
            let merged = overlaid(Some(state), Some(name), Some(active))->0;
            &&& merged.active == active
            &&& merged.hardware == Some(name)
            &&& merged.offers(active)
            &&& state.profiles.is_prefix_of(merged.profiles)
            &&& state.offers(active) ==> merged.profiles == state.profiles
        }),
{
    let merged = overlaid(Some(state), Some(name), Some(active))->0;
    if state.offers(active) {
        let i = choose|i: int|
            0 <= i < state.profiles.len() && (#[trigger] state.profiles[i]).name == active;
        assert(merged.profiles[i].name == active);
    } else {
        assert(merged.profiles[state.profiles.len() as int].name == active);
    }
}

/// Without hardware the daemon's state stands as it is; without either source
/// there is nothing to show.
pub proof fn lemma_overlay_without_hardware(ppd: Option<PowerProfilesView>, mode: Option<Seq<char>>)
    ensures
        overlaid(ppd, None, mode) == ppd,
{
}

/// The names the privileged helper of a backend goes by.
pub open spec fn helper_names(kind: PlatformKind) -> Seq<Seq<char>> {
    match kind {
        PlatformKind::Qc71 => seq!["tablero-qc71-set-mode"@, "qc71-set-mode"@],
    }
}

/// The names the privileged helper of a backend goes by, in order of preference.
pub fn default_helper_names(kind: PlatformKind) -> (names: Vec<&'static str>)
    ensures
        names@.len() == helper_names(kind).len(),
        forall|i: int| 0 <= i < names@.len() ==> (#[trigger] names@[i])@ == helper_names(kind)[i],
{
    match kind {
        PlatformKind::Qc71 => {
            let names: Vec<&'static str> = vec!["tablero-qc71-set-mode", "qc71-set-mode"];
            names
        },
    }
}

/// Locate the privileged helper: a configured path, otherwise the default names
/// on `PATH`. Missing helpers are not an error; the caller skips writes.
///
/// `dirs` are the directories of `PATH`, `is_program` says which files there can
/// be run, and `is_runnable` whether a resolved path passes the preflight.
pub fn resolve_hardware_helper<F: Fn(&str) -> bool, G: Fn(&str) -> bool>(
    configured: Option<&str>,
    kind: PlatformKind,
    home: Option<&str>,
    dirs: &Vec<String>,
    is_program: F,
    is_runnable: G,
) -> (helper: Option<String>)
    requires
        probe::askable(is_program),
        probe::askable(is_runnable),
    ensures
        match (configured, helper) {
            (Some(path), Some(helper)) => {
                &&& probe::answers(is_runnable, helper@, true)
                &&& command::is_bare(path@) ==> command::is_rooted(helper@)
                &&& is_helper_for(path@, text::optional_str(home), dirs@, is_program, helper@)
            },
            (Some(path), None) => exists|resolved: Seq<char>|
                {
                    &&& #[trigger] is_helper_for(
                        path@,
                        text::optional_str(home),
                        dirs@,
                        is_program,
                        resolved,
                    )
                    &&& (command::is_bare(path@) && !command::is_rooted(resolved))
                        || probe::answers(is_runnable, resolved, false)
                },
            (None, Some(helper)) => exists|n: int, d: int|
                0 <= n < helper_names(kind).len() && #[trigger] is_first_hit(
                    helper_names(kind)[n],
                    dirs@,
                    is_program,
                    helper@,
                    d,
                ) && none_found(helper_names(kind).take(n), dirs@, is_program),
            (None, None) => none_found(helper_names(kind), dirs@, is_program),
        },
{
    if let Some(path) = configured {
        let resolved: String = command::resolve_program(path, home, dirs, &is_program);
        proof {
            assert(is_helper_for(
                path@,
                text::optional_str(home),
                dirs@,
                is_program,
                resolved@,
            ));
        }
        if command::is_bare_name(path) && !command::is_absolute(resolved.as_str()) {
            return None;
        }
        if probe::ask(&is_runnable, resolved.as_str()) {
            return Some(resolved);
        }
        return None;
    }
    let names: Vec<&'static str> = default_helper_names(kind);
    let mut n: usize = 0;
    while n < names.len()
        invariant
            configured is None,
            n <= names@.len(),
            names@.len() == helper_names(kind).len(),
            forall|i: int|
                0 <= i < names@.len() ==> (#[trigger] names@[i])@ == helper_names(kind)[i],
            probe::askable(is_program),
            none_found(helper_names(kind).take(n as int), dirs@, is_program),
        decreases names@.len() - n,
    {
        let found: Option<String> = command::find_in_path(names[n], dirs, &is_program);
        if found.is_some() {
            proof {
                let helper = (found->0)@;
                let name = helper_names(kind)[n as int];
                let d = choose|d: int|
                    0 <= d < dirs@.len() && helper == path::below((#[trigger] dirs@[d])@, name)
                        && probe::answers(is_program, helper, true) && forall|j: int|
                        0 <= j < d ==> probe::answers(
                            is_program,
                            path::below((#[trigger] dirs@[j])@, name),
                            false,
                        );
                assert(is_first_hit(
                    helper_names(kind)[n as int],
                    dirs@,
                    is_program,
                    helper,
                    d,
                ));
            }
            return found;
        }
        proof {
            assert forall|i: int, d: int|
                0 <= i < n + 1 && 0 <= d < dirs@.len() implies probe::answers(
                is_program,
                path::below(
                    (#[trigger] dirs@[d])@,
                    #[trigger] helper_names(kind).take(n + 1)[i],
                ),
                false,
            ) by {
                if i < n {
                    assert(helper_names(kind).take(n as int)[i] == helper_names(kind).take(
                        n + 1,
                    )[i]);
                } else {
                    assert(helper_names(kind).take(n + 1)[i] == names@[n as int]@);
                }
            }
        }
        n += 1;
    }
    assert(helper_names(kind).take(n as int) =~= helper_names(kind));
    None
}

/// Whether `found` is the program `name` in the directory `d`, and no directory before
/// that one has it.
pub open spec fn is_first_hit<F: Fn(&str) -> bool>(
    name: Seq<char>,
    dirs: Seq<String>,
    is_program: F,
    found: Seq<char>,
    d: int,
) -> bool {
    &&& 0 <= d < dirs.len()
    &&& found == path::below(dirs[d]@, name)
    &&& probe::answers(is_program, found, true)
    &&& forall|j: int|
        0 <= j < d ==> probe::answers(is_program, path::below((#[trigger] dirs[j])@, name), false)
}

/// Whether none of `names` was found in any of `dirs`.
pub open spec fn none_found<F: Fn(&str) -> bool>(
    names: Seq<Seq<char>>,
    dirs: Seq<String>,
    is_program: F,
) -> bool {
    forall|i: int, d: int|
        0 <= i < names.len() && 0 <= d < dirs.len() ==> probe::answers(
            is_program,
            path::below((#[trigger] dirs[d])@, #[trigger] names[i]),
            false,
        )
}

/// Whether a configured helper resolves to `resolved`: a bare name to the first
/// directory that has it, or to itself where none does; anything else to itself
/// with a leading `~` expanded.
pub open spec fn is_helper_for<F: Fn(&str) -> bool>(
    path: Seq<char>,
    home: Option<Seq<char>>,
    dirs: Seq<String>,
    is_program: F,
    resolved: Seq<char>,
) -> bool {
    let expanded = command::tilde_expanded(path, home);
    if command::is_bare(expanded) {
        ||| exists|i: int|
            0 <= i < dirs.len() && resolved == path::below((#[trigger] dirs[i])@, expanded)
                && probe::answers(is_program, resolved, true) && forall|j: int|
                0 <= j < i ==> probe::answers(
                    is_program,
                    path::below((#[trigger] dirs[j])@, expanded),
                    false,
                )
        ||| resolved == expanded && forall|j: int|
            0 <= j < dirs.len() ==> probe::answers(
                is_program,
                path::below((#[trigger] dirs[j])@, expanded),
                false,
            )
    } else {
        resolved == expanded
    }
}

/// Whether a backend knows a mode for a profile.
pub open spec fn is_mapped(kind: PlatformKind, profile: Seq<char>) -> bool {
    match kind {
        PlatformKind::Qc71 => mode_of(profile) is Some,
    }
}

/// Whether a backend knows a mode for a profile; the helper is run only then.
pub fn maps_profile(kind: PlatformKind, profile: &str) -> (mapped: bool)
    ensures
        mapped == is_mapped(kind, profile@),
{
    match kind {
        PlatformKind::Qc71 => qc71_mode_for(profile).is_some(),
    }
}

/// What is wrong with a helper run that did not succeed.
pub open spec fn helper_failure(
    helper: Seq<char>,
    code: Option<i32>,
    status: Seq<char>,
    stderr: Seq<char>,
) -> Seq<char> {
    let reason = text::trimmed(stderr);
    let failed = "helper "@ + helper + " failed ("@ + command::exit_words(code, status);
    if reason.len() == 0 {
        failed + ")"@
    } else {
        failed + "): "@ + reason
    }
}

/// Judge a finished run of the helper: by its exit, with what it wrote to its
/// error output as the reason.
pub fn helper_outcome(
    helper: &str,
    success: bool,
    code: Option<i32>,
    status: &str,
    stderr: &str,
) -> (result: Result<(), String>)
    ensures
        match result {
            Ok(_) => success,
            Err(message) => !success && message@ == helper_failure(
                helper@,
                code,
                status@,
                stderr@,
            ),
        },
{
    if success {
        return Ok(());
    }
    let reason: &str = text::trim(stderr);
    let mut message: String = text::joined("helper ", helper);
    message.append(" failed (");
    message.append(command::format_exit_status(code, status).as_str());
    if reason.is_empty() {
        message.append(")");
    } else {
        message.append("): ");
        message.append(reason);
    }
    Err(message)
}

/// The saver is silent, the performance profile has turbo, and the number of a mode grows
/// with its power; no other profile has a mode.
pub proof fn lemma_each_profile_has_its_mode(
    profile: &str,
    mode: Option<Qc71Mode>,
    mapped: bool,
)
    requires
        call_ensures(qc71_mode_for, (profile,), mode),
        call_ensures(maps_profile, (PlatformKind::Qc71, profile), mapped),
    ensures
        mode is Some <==> profile@ == "power-saver"@ || profile@ == "balanced"@ || profile@
            == "performance"@,
        mapped <==> mode is Some,
        profile@ == "power-saver"@ ==> mode->0.performance_mode == 1 && mode->0.silent_mode == 1
            && mode->0.turbo_mode == 0,
        profile@ == "balanced"@ ==> mode->0.performance_mode == 2 && mode->0.silent_mode == 0
            && mode->0.turbo_mode == 0,
        profile@ == "performance"@ ==> mode->0.performance_mode == 3 && mode->0.silent_mode == 0
            && mode->0.turbo_mode == 1,
{
    reveal_strlit("power-saver");
    reveal_strlit("balanced");
    reveal_strlit("performance");
    assert("power-saver"@.len() == 11 && "balanced"@.len() == 8 && "performance"@.len() == 11);
    assert("power-saver"@[1] == 'o' && "performance"@[1] == 'e');
}

/// The mode file stands for the profile whose mode it holds, white space aside, and for
/// none where it holds anything else.
pub proof fn lemma_the_mode_file_names_a_profile(
    raw: &str,
    mode: &str,
    profile: Option<&'static str>,
    read: Option<&'static str>,
)
    requires
        call_ensures(text::trim, (raw,), mode),
        call_ensures(profile_from_performance_mode, (raw,), profile),
        call_ensures(read_platform_profile, (PlatformKind::Qc71, Some(raw)), read),
    ensures
        mode@ == seq!['1'] ==> profile is Some && profile->0@ == "power-saver"@,
        mode@ == seq!['2'] ==> profile is Some && profile->0@ == "balanced"@,
        mode@ == seq!['3'] ==> profile is Some && profile->0@ == "performance"@,
        mode@ != seq!['1'] && mode@ != seq!['2'] && mode@ != seq!['3'] ==> profile is None,
        read is Some <==> profile is Some,
        read is Some ==> read->0@ == profile->0@,
{
    reveal_strlit("1");
    reveal_strlit("2");
    reveal_strlit("3");
    assert(seq!['1'] =~= "1"@);
    assert(seq!['2'] =~= "2"@);
    assert(seq!['3'] =~= "3"@);
    assert(seq!['1'][0] != seq!['2'][0] && seq!['2'][0] != seq!['3'][0] && seq!['1'][0]
        != seq!['3'][0]);
}

/// A machine without a daemon offers the three profiles, all with the platform's driver,
/// once its mode can be read.
pub proof fn lemma_a_platform_alone_offers_three_profiles(
    hardware: &str,
    mode: Option<&str>,
    state: Option<PowerProfilesState>,
    profiles: Vec<PowerProfile>,
)
    requires
        call_ensures(overlay_snapshot, (None, Some(hardware), mode), state),
        call_ensures(synthetic_profiles, (hardware,), profiles),
    ensures
        state is Some <==> mode is Some,
        state is Some ==> state->0@.active == mode->0@ && state->0@.hardware == Some(hardware@)
            && state->0@.profiles.len() == 3,
        profiles@.len() == 3,
        profiles@[0]@.name == "power-saver"@,
        profiles@[1]@.name == "balanced"@,
        profiles@[2]@.name == "performance"@,
        profiles@[0]@.driver == hardware@ && profiles@[0]@.cpu_driver == hardware@
            && profiles@[0]@.platform_driver == hardware@,
{
    let shown = widget::profile_views(profiles@);
    assert(shown.len() == profiles@.len());
    assert(shown[0] == profiles@[0]@);
    assert(shown[1] == profiles@[1]@);
    assert(shown[2] == profiles@[2]@);
}

/// A helper that failed is told with how it ended, and with its reason where it gave one.
pub proof fn lemma_a_failed_helper_is_told(
    helper: &str,
    success: bool,
    code: Option<i32>,
    status: &str,
    stderr: &str,
    result: Result<(), String>,
    words: String,
    reason: &str,
)
    requires
        call_ensures(helper_outcome, (helper, success, code, status, stderr), result),
        call_ensures(command::format_exit_status, (code, status), words),
        call_ensures(text::trim, (stderr,), reason),
    ensures
        result is Ok <==> success,
        result is Err && reason@.len() == 0 ==> result->Err_0@ == "helper "@ + helper@
            + " failed ("@ + words@ + ")"@,
        result is Err && reason@.len() > 0 ==> result->Err_0@ == "helper "@ + helper@
            + " failed ("@ + words@ + "): "@ + reason@,
{
}

/// Settings tell what they were made of, and another root changes only the root.
pub proof fn lemma_settings_tell_what_they_are_made_of(
    control: bool,
    helper: Option<String>,
    settings: PowerProfilesSettings,
    root: String,
    moved: PowerProfilesSettings,
    told: (bool, Option<&str>, &str),
)
    requires
        call_ensures(PowerProfilesSettings::new, (control, helper), settings),
        call_ensures(PowerProfilesSettings::with_sys_root, (settings, root), moved),
        call_ensures(PowerProfilesSettings::hardware_control, (&moved,), told.0),
        call_ensures(PowerProfilesSettings::hardware_helper, (&moved,), told.1),
        call_ensures(PowerProfilesSettings::sys_root, (&moved,), told.2),
    ensures
        settings@.sys_root == "/sys"@,
        told.0 == control,
        told.1 is Some <==> helper is Some,
        told.1 is Some ==> told.1->0@ == helper->0@,
        told.2@ == root@,
{
}

/// The helper is looked for under its own name first.
pub proof fn lemma_the_own_helper_comes_first(names: Vec<&'static str>, name: &'static str)
    requires
        call_ensures(default_helper_names, (PlatformKind::Qc71,), names),
        call_ensures(PlatformKind::name, (PlatformKind::Qc71,), name),
    ensures
        names@.len() == 2,
        names@[0]@ == "tablero-qc71-set-mode"@,
        names@[1]@ == "qc71-set-mode"@,
        name@ == "qc71"@,
{
}

/// A platform is found exactly where its mode file is, and is not looked for where that is
/// turned off.
pub proof fn lemma_a_platform_is_found_by_its_file<F: Fn(&str) -> bool>(
    settings: PowerProfilesSettings,
    is_file: F,
    kind: Option<PlatformKind>,
    root: &str,
    path: String,
)
    requires
        call_ensures(PowerProfilesSettings::detect_platform::<F>, (&settings, is_file), kind),
        call_ensures(PowerProfilesSettings::sys_root, (&settings,), root),
        call_ensures(mode_file, (root, PlatformKind::Qc71), path),
    ensures
        !settings@.hardware_control ==> kind is None,
        settings@.hardware_control ==> probe::answers(is_file, path@, kind is Some),
        root@ == "/sys"@ ==> path@ == "/sys/"@ + "devices/platform/qc71_laptop/"@
            + "performance_mode"@,
{
    reveal_strlit("/sys");
    reveal_strlit("/sys/");
    reveal_strlit("devices/platform/qc71_laptop");
    reveal_strlit("devices/platform/qc71_laptop/");
    if root@ == "/sys"@ {
        assert(root@.last() == 's');
        let device = path::below(root@, "devices/platform/qc71_laptop"@);
        assert(device.last() == 'p');
        assert(device.len() > 0);
        assert(path@ =~= "/sys/"@ + "devices/platform/qc71_laptop/"@ + "performance_mode"@);
    }
}

/// A configured helper is used exactly where it can be run; without one the own helper is
/// taken where it is found, and nothing where none is.
pub proof fn lemma_a_configured_helper_is_used_where_it_runs<
    F: Fn(&str) -> bool,
    G: Fn(&str) -> bool,
>(
    path: &str,
    home: Option<&str>,
    dirs: Vec<String>,
    is_program: F,
    is_runnable: G,
    helper: Option<String>,
    default: Option<String>,
)
    requires
        call_ensures(
            resolve_hardware_helper::<F, G>,
            (Some(path), PlatformKind::Qc71, home, &dirs, is_program, is_runnable),
            helper,
        ),
        call_ensures(
            resolve_hardware_helper::<F, G>,
            (None, PlatformKind::Qc71, home, &dirs, is_program, is_runnable),
            default,
        ),
        path@.len() > 0,
        path@[0] == '/',
    ensures
        helper is Some ==> helper->0@ == path@ && probe::answers(is_runnable, path@, true),
        helper is None ==> probe::answers(is_runnable, path@, false),
        dirs@.len() == 0 ==> default is None,
        default is Some ==> probe::answers(is_program, default->0@, true),
{
    command::lemma_tilde_is_expanded_only_in_front(path@, text::optional_str(home));
    assert(path@.contains(path@[0]));
}

} // verus!
