//! What the widgets show and how they look, and what a click on one asks for.

use crate::config::style::FormatIconsConfig;
use crate::config::WidgetKind;
use crate::number::Double;
use crate::render::Bounds;
use crate::text;
use vstd::prelude::*;
use vstd::string::StringExecFns;

verus! {

/// Which glyph a widget draws beside its text.
#[derive(Debug, PartialEq, Eq)]
pub enum IconSetting {
    /// The widget's built-in glyph.
    Default,
    /// No glyph.
    Hidden,
    /// A literal text in place of the glyph.
    Custom(String),
}

/// The resolved colors of one widget state.
#[derive(Debug, Clone, Copy, PartialEq, Eq)]
pub struct StateColors {
    /// Pill fill; `None` draws no pill.
    pub background: Option<(u8, u8, u8, u8)>,
    /// Text and glyph color.
    pub foreground: (u8, u8, u8, u8),
    /// Border color; `None` draws no border.
    pub border: Option<(u8, u8, u8, u8)>,
}

/// The resolved style of one widget.
#[derive(Debug, PartialEq, Eq)]
pub struct WidgetStyle {
    /// Pill fill; `None` draws no pill.
    pub background: Option<(u8, u8, u8, u8)>,
    /// Text and glyph color.
    pub foreground: (u8, u8, u8, u8),
    /// Emphasis color.
    pub accent: (u8, u8, u8, u8),
    /// Border color; `None` draws no border.
    pub border: Option<(u8, u8, u8, u8)>,
    /// Border width in logical pixels.
    pub border_width: u32,
    /// Pill corner radius in logical pixels.
    pub radius: u32,
    /// Inset between the pill edge and its text, in logical pixels.
    pub padding: u32,
    /// Which glyph stands beside the text.
    pub icon: IconSetting,
    /// Percent below which a discharging battery shows its warn colors.
    pub warn_threshold: u32,
    /// Colors of the warn state.
    pub warn: StateColors,
    /// Colors of the attention state.
    pub attention: StateColors,
    /// Colors while charging.
    pub charging: StateColors,
}

impl WidgetStyle {
    /// The style of a widget that nothing configures: flat light text, alert
    /// states as light text on a red pill.
    pub open spec fn builtin() -> WidgetStyle {
        WidgetStyle {
            background: None,
            foreground: (0xEA, 0xEA, 0xEA, 0xFF),
            accent: (0xEA, 0xEA, 0xEA, 0xFF),
            border: None,
            border_width: 1,
            radius: 8,
            padding: 8,
            icon: IconSetting::Default,
            warn_threshold: 20,
            warn: Self::alert(),
            attention: Self::alert(),
            charging: StateColors {
                background: None,
                foreground: (0xEA, 0xEA, 0xEA, 0xFF),
                border: None,
            },
        }
    }

    /// The colors of an alert state that nothing configures.
    pub open spec fn alert() -> StateColors {
        StateColors {
            background: Some((0xBF, 0x61, 0x6A, 0xFF)),
            foreground: (0xEA, 0xEA, 0xEA, 0xFF),
            border: None,
        }
    }
}

impl Default for WidgetStyle {
    fn default() -> (style: Self)
        ensures
            style == WidgetStyle::builtin(),
    {
        let alert = StateColors {
            background: Some((0xBF, 0x61, 0x6A, 0xFF)),
            foreground: (0xEA, 0xEA, 0xEA, 0xFF),
            border: None,
        };
        WidgetStyle {
            background: None,
            foreground: (0xEA, 0xEA, 0xEA, 0xFF),
            accent: (0xEA, 0xEA, 0xEA, 0xFF),
            border: None,
            border_width: 1,
            radius: 8,
            padding: 8,
            icon: IconSetting::Default,
            warn_threshold: 20,
            warn: alert,
            attention: alert,
            charging: StateColors {
                background: None,
                foreground: (0xEA, 0xEA, 0xEA, 0xFF),
                border: None,
            },
        }
    }
}

/// A mouse button that widgets react to.
#[derive(Debug, Clone, Copy, PartialEq, Eq, Structural)]
pub enum ClickButton {
    /// The primary button.
    Left,
    /// The secondary button.
    Right,
}

/// One logical scroll step.
#[derive(Debug, Clone, Copy, PartialEq, Eq, Structural)]
pub enum ScrollDirection {
    /// Towards more.
    Increase,
    /// Towards less.
    Decrease,
}

/// What input asks the executors to do.
#[derive(Debug, Clone, PartialEq, Eq)]
pub enum Command {
    /// Switch to a Hyprland workspace.
    SwitchWorkspace(i32),
    /// Activate a tray item; the position is in screen coordinates.
    ActivateTrayItem { key: String, x: i32, y: i32 },
    /// Open the menu of a tray item; the position is in screen coordinates.
    OpenTrayMenu { key: String, x: i32, y: i32 },
    /// Activate an entry of a tray item's menu.
    ActivateTrayMenuItem { key: String, id: i32 },
    /// Run a program.
    RunProgram(String),
    /// Show or hide the notification panel.
    ToggleNotificationPanel,
    /// Turn do-not-disturb on or off.
    ToggleNotificationsDnd,
    /// Change the brightness of a backlight device.
    AdjustBacklight { device: Option<String>, step: Double, direction: ScrollDirection },
    /// Select a power profile.
    SetPowerProfile(String),
    /// Start or stop the idle daemon.
    SetHypridle(bool),
}

/// One widget of a bar: its kind, its slot, its style, and what its style table
/// sets beyond the style.
#[derive(Debug, PartialEq, Eq)]
pub struct Widget {
    /// What the widget shows.
    pub kind: WidgetKind,
    /// The slot it occupies.
    pub bounds: Bounds,
    /// How it looks.
    pub style: WidgetStyle,
    /// The connector name of the output it serves, for the kinds that scope
    /// themselves to one.
    pub monitor: Option<String>,
    /// Program run by a left click.
    pub on_click: Option<String>,
    /// Program run by a right click.
    pub on_click_right: Option<String>,
    /// Label format.
    pub format: Option<String>,
    /// Icons the label draws from.
    pub format_icons: Option<FormatIconsConfig>,
    /// Percentage points of one scroll step.
    pub scroll_step: Option<Double>,
    /// Backlight device.
    pub device: Option<String>,
    /// Whether the hover tooltip is shown.
    pub tooltip: Option<bool>,
    /// Tooltip format.
    pub tooltip_format: Option<String>,
}

/// Whether a click asks for exactly the program `program`, if any.
pub open spec fn asks_for(command: Option<Command>, program: Option<Seq<char>>) -> bool {
    match program {
        Some(program) => command matches Some(Command::RunProgram(path)) && path@ == program,
        None => command is None,
    }
}

/// The program that a press at `(x, y)` asks a widget for: inside its slot, the one
/// configured for that button.
pub open spec fn program_at(widget: Widget, x: u32, y: u32, button: ClickButton) -> Option<
    Seq<char>,
> {
    if widget.bounds.claims(x as int, y as int) {
        match button {
            ClickButton::Left => text::optional(widget.on_click),
            ClickButton::Right => text::optional(widget.on_click_right),
        }
    } else {
        None
    }
}

/// The program that a press at `(x, y)` asks some widgets for: the first one that
/// one of them gives.
pub open spec fn first_program(
    widgets: Seq<Widget>,
    x: u32,
    y: u32,
    button: ClickButton,
) -> Option<Seq<char>>
    decreases widgets.len(),
{
    if widgets.len() == 0 {
        None
    } else {
        match program_at(widgets[0], x, y, button) {
            Some(program) => Some(program),
            None => first_program(widgets.skip(1), x, y, button),
        }
    }
}

fn click_zone(widgets: &Vec<Widget>, x: u32, y: u32, button: ClickButton) -> (command: Option<
    Command,
>)
    ensures
        asks_for(command, first_program(widgets@, x, y, button)),
{
    let mut i: usize = 0;
    assert(widgets@.skip(0) =~= widgets@);
    while i < widgets.len()
        invariant
            i <= widgets@.len(),
            first_program(widgets@, x, y, button) == first_program(
                widgets@.skip(i as int),
                x,
                y,
                button,
            ),
        decreases widgets@.len() - i,
    {
        let ghost rest = widgets@.skip(i as int);
        assert(rest[0] == widgets@[i as int]);
        match widgets[i].on_click(x, y, button) {
            Some(command) => {
                return Some(command);
            },
            None => {},
        }
        assert(rest.skip(1) =~= widgets@.skip(i + 1));
        i += 1;
    }
    None
}

impl Widget {
    /// Resolve a `button` press at surface coordinates `(x, y)` to a [`Command`]:
    /// inside the widget's slot, the program configured for that button.
    ///
    /// Without one the widget is display-only and clicks yield nothing.
    pub fn on_click(&self, x: u32, y: u32, button: ClickButton) -> (command: Option<Command>)
        ensures
            asks_for(command, program_at(*self, x, y, button)),
    {
        if !self.bounds.contains(x, y) {
            return None;
        }
        let program: &Option<String> = match button {
            ClickButton::Left => &self.on_click,
            ClickButton::Right => &self.on_click_right,
        };
        match program {
            Some(program) => Some(Command::RunProgram(program.clone())),
            None => None,
        }
    }
}

/// The widgets of one bar, by zone, and its spacing in logical pixels.
#[derive(Debug, PartialEq, Eq)]
pub struct Dashboard {
    /// Widgets clustered at the left edge.
    pub left: Vec<Widget>,
    /// Widgets centered in the bar.
    pub center: Vec<Widget>,
    /// Widgets clustered at the right edge.
    pub right: Vec<Widget>,
    /// Inset around the whole pill row.
    pub margin: u32,
    /// Gap between adjacent pills.
    pub gap: u32,
}

impl Dashboard {
    /// Resolve a `button` press at `(x, y)` to a [`Command`]: that of the first widget,
    /// from the left zone to the right one, that has one there.
    pub fn on_click(&self, x: u32, y: u32, button: ClickButton) -> (command: Option<Command>)
        ensures
            asks_for(
                command,
                match first_program(self.left@, x, y, button) {
                    Some(program) => Some(program),
                    None => match first_program(self.center@, x, y, button) {
                        Some(program) => Some(program),
                        None => first_program(self.right@, x, y, button),
                    },
                },
            ),
    {
        match click_zone(&self.left, x, y, button) {
            Some(command) => {
                return Some(command);
            },
            None => {},
        }
        match click_zone(&self.center, x, y, button) {
            Some(command) => {
                return Some(command);
            },
            None => {},
        }
        click_zone(&self.right, x, y, button)
    }
}

/// What a battery is doing.
#[derive(Debug, Clone, Copy, PartialEq, Eq, Structural)]
pub enum BatteryState {
    /// Taking charge.
    Charging,
    /// Giving charge.
    Discharging,
    /// Topped off.
    Full,
    /// Not known.
    Unknown,
}

/// A battery reading.
#[derive(Debug, Clone, Copy, PartialEq, Eq, Structural)]
pub struct Battery {
    state: BatteryState,
    percent: u8,
}

impl View for Battery {
    type V = (BatteryState, u8);

    closed spec fn view(&self) -> (BatteryState, u8) {
        (self.state, self.percent)
    }
}

/// The reading of a state and a percentage: no more than a hundred.
pub open spec fn battery_of(state: BatteryState, percent: u8) -> (BatteryState, u8) {
    (
        state,
        if percent > 100 {
            100
        } else {
            percent
        },
    )
}

/// The word for a battery state.
pub open spec fn battery_word(state: BatteryState) -> Seq<char> {
    match state {
        BatteryState::Charging => "charging"@,
        BatteryState::Discharging => "discharging"@,
        BatteryState::Full => "full"@,
        BatteryState::Unknown => "unknown"@,
    }
}

impl Battery {
    /// A reading, its percentage clamped to a hundred.
    pub fn new(state: BatteryState, percent: u8) -> (battery: Self)
        ensures
            battery@ == battery_of(state, percent),
    {
        Battery {
            state,
            percent: if percent > 100 {
                100
            } else {
                percent
            },
        }
    }

    /// What the battery is doing.
    pub fn state(&self) -> (state: BatteryState)
        ensures
            state == self@.0,
    {
        self.state
    }

    /// The charge in percent.
    pub fn percent(&self) -> (percent: u8)
        ensures
            percent == self@.1,
    {
        self.percent
    }

    /// The reading in words, such as `85% discharging`.
    pub fn label(&self) -> (label: String)
        ensures
            label@ == text::decimal_of(self@.1 as nat) + "% "@ + battery_word(self@.0),
    {
        let mut label: String = text::decimal(self.percent as u64);
        label.append("% ");
        label.append(
            match self.state {
                BatteryState::Charging => "charging",
                BatteryState::Discharging => "discharging",
                BatteryState::Full => "full",
                BatteryState::Unknown => "unknown",
            },
        );
        label
    }
}

/// What the primary network connection is.
#[derive(Debug, Clone, Copy, PartialEq, Eq, Structural)]
pub enum NetworkState {
    /// Offline.
    Disconnected,
    /// On a cable.
    Wired,
    /// On Wi-Fi.
    Wireless,
    /// Neither of these, or not known.
    Unknown,
}

/// A connectivity reading.
#[derive(Debug, Clone, PartialEq, Eq)]
pub struct Network {
    state: NetworkState,
    ssid: Option<String>,
}

/// The contents of a [`Network`].
#[verifier::ext_equal]
pub struct NetworkView {
    /// What the connection is.
    pub state: NetworkState,
    /// The network name, on Wi-Fi.
    pub ssid: Option<Seq<char>>,
}

impl View for Network {
    type V = NetworkView;

    closed spec fn view(&self) -> NetworkView {
        NetworkView { state: self.state, ssid: text::optional(self.ssid) }
    }
}

impl NetworkView {
    /// The reading of a state and a network name: the name counts on Wi-Fi only.
    pub open spec fn of(state: NetworkState, ssid: Option<Seq<char>>) -> NetworkView {
        NetworkView {
            state,
            ssid: if state == NetworkState::Wireless {
                ssid
            } else {
                None
            },
        }
    }

    /// The reading in words.
    pub open spec fn words(self) -> Seq<char> {
        match self.state {
            NetworkState::Disconnected => "disconnected"@,
            NetworkState::Wired => "wired"@,
            NetworkState::Wireless => match self.ssid {
                Some(ssid) => "wifi "@ + ssid,
                None => "wifi"@,
            },
            NetworkState::Unknown => "unknown"@,
        }
    }
}

impl Network {
    /// A reading; the network name is kept on Wi-Fi only.
    pub fn new(state: NetworkState, ssid: Option<&str>) -> (network: Self)
        ensures
            network@ == NetworkView::of(state, text::optional_str(ssid)),
    {
        let ssid: Option<String> = if state == NetworkState::Wireless {
            match ssid {
                Some(ssid) => Some(ssid.to_owned()),
                None => None,
            }
        } else {
            None
        };
        Network { state, ssid }
    }

    /// What the connection is.
    pub fn state(&self) -> (state: NetworkState)
        ensures
            state == self@.state,
    {
        self.state
    }

    /// The network name, on Wi-Fi.
    pub fn ssid(&self) -> (ssid: Option<&str>)
        ensures
            text::optional_str(ssid) == self@.ssid,
    {
        match &self.ssid {
            Some(ssid) => Some(ssid.as_str()),
            None => None,
        }
    }

    /// The reading in words, such as `wired` or `wifi home-net`.
    pub fn label(&self) -> (label: String)
        ensures
            label@ == self@.words(),
    {
        match self.state {
            NetworkState::Disconnected => "disconnected".to_owned(),
            NetworkState::Wired => "wired".to_owned(),
            NetworkState::Wireless => match &self.ssid {
                Some(ssid) => text::joined("wifi ", ssid.as_str()),
                None => "wifi".to_owned(),
            },
            NetworkState::Unknown => "unknown".to_owned(),
        }
    }
}

/// A notification reading: how many are pending, and whether do-not-disturb is
/// on.
#[derive(Debug, Clone, Copy, PartialEq, Eq, Structural)]
pub struct Notifications {
    count: u32,
    dnd: bool,
}

impl View for Notifications {
    type V = (u32, bool);

    closed spec fn view(&self) -> (u32, bool) {
        (self.count, self.dnd)
    }
}

impl Notifications {
    /// A reading.
    pub fn new(count: u32, dnd: bool) -> (snapshot: Self)
        ensures
            snapshot@ == (count, dnd),
    {
        Notifications { count, dnd }
    }

    /// How many notifications are pending.
    pub fn count(&self) -> (count: u32)
        ensures
            count == self@.0,
    {
        self.count
    }

    /// Whether do-not-disturb is on.
    pub fn dnd(&self) -> (dnd: bool)
        ensures
            dnd == self@.1,
    {
        self.dnd
    }
}

/// A power profile and the drivers behind it.
#[derive(Debug, PartialEq, Eq)]
pub struct PowerProfile {
    name: String,
    driver: String,
    cpu_driver: String,
    platform_driver: String,
}

/// The contents of a [`PowerProfile`].
#[verifier::ext_equal]
pub struct PowerProfileView {
    /// The profile's name.
    pub name: Seq<char>,
    /// The driver.
    pub driver: Seq<char>,
    /// The CPU driver.
    pub cpu_driver: Seq<char>,
    /// The platform driver.
    pub platform_driver: Seq<char>,
}

impl View for PowerProfile {
    type V = PowerProfileView;

    closed spec fn view(&self) -> PowerProfileView {
        PowerProfileView {
            name: self.name@,
            driver: self.driver@,
            cpu_driver: self.cpu_driver@,
            platform_driver: self.platform_driver@,
        }
    }
}

impl PowerProfile {
    /// A profile with its drivers.
    pub fn new(name: &str, driver: &str, cpu_driver: &str, platform_driver: &str) -> (profile: Self)
        ensures
            profile@ == (PowerProfileView {
                name: name@,
                driver: driver@,
                cpu_driver: cpu_driver@,
                platform_driver: platform_driver@,
            }),
    {
        PowerProfile {
            name: name.to_owned(),
            driver: driver.to_owned(),
            cpu_driver: cpu_driver.to_owned(),
            platform_driver: platform_driver.to_owned(),
        }
    }

    /// The profile's name.
    pub fn name(&self) -> (name: &str)
        ensures
            name@ == self@.name,
    {
        self.name.as_str()
    }

    /// The driver.
    pub fn driver(&self) -> (driver: &str)
        ensures
            driver@ == self@.driver,
    {
        self.driver.as_str()
    }

    /// The CPU driver.
    pub fn cpu_driver(&self) -> (driver: &str)
        ensures
            driver@ == self@.cpu_driver,
    {
        self.cpu_driver.as_str()
    }

    /// The platform driver.
    pub fn platform_driver(&self) -> (driver: &str)
        ensures
            driver@ == self@.platform_driver,
    {
        self.platform_driver.as_str()
    }

    /// Whether two profiles are the same in every field.
    pub fn same(&self, other: &PowerProfile) -> (equal: bool)
        ensures
            equal == (self@ == other@),
    {
        text::same(self.name.as_str(), other.name.as_str()) && text::same(
            self.driver.as_str(),
            other.driver.as_str(),
        ) && text::same(self.cpu_driver.as_str(), other.cpu_driver.as_str()) && text::same(
            self.platform_driver.as_str(),
            other.platform_driver.as_str(),
        )
    }
}

impl Clone for PowerProfile {
    fn clone(&self) -> (copy: Self)
        ensures
            copy@ == self@,
    {
        PowerProfile {
            name: self.name.clone(),
            driver: self.driver.clone(),
            cpu_driver: self.cpu_driver.clone(),
            platform_driver: self.platform_driver.clone(),
        }
    }
}

/// The power profiles on offer, the active one, and the hardware backend behind
/// them, if there is one.
#[derive(Debug, PartialEq, Eq)]
pub struct PowerProfilesState {
    active: String,
    profiles: Vec<PowerProfile>,
    hardware: Option<String>,
}

/// The contents of a [`PowerProfilesState`].
#[verifier::ext_equal]
pub struct PowerProfilesView {
    /// The name of the active profile.
    pub active: Seq<char>,
    /// The profiles on offer, in order.
    pub profiles: Seq<PowerProfileView>,
    /// The hardware backend.
    pub hardware: Option<Seq<char>>,
}

/// The contents of each profile.
pub open spec fn profile_views(profiles: Seq<PowerProfile>) -> Seq<PowerProfileView> {
    profiles.map_values(|p: PowerProfile| p@)
}

impl View for PowerProfilesState {
    type V = PowerProfilesView;

    closed spec fn view(&self) -> PowerProfilesView {
        PowerProfilesView {
            active: self.active@,
            profiles: profile_views(self.profiles@),
            hardware: text::optional(self.hardware),
        }
    }
}

impl PowerProfilesView {
    /// Whether a profile of that name is on offer.
    pub open spec fn offers(self, name: Seq<char>) -> bool {
        exists|i: int| 0 <= i < self.profiles.len() && (#[trigger] self.profiles[i]).name == name
    }

    /// With another profile active.
    pub open spec fn activated(self, name: Seq<char>) -> PowerProfilesView {
        PowerProfilesView { active: name, ..self }
    }

    /// With a hardware backend, or none.
    pub open spec fn backed(self, hardware: Option<Seq<char>>) -> PowerProfilesView {
        PowerProfilesView { hardware, ..self }
    }

    /// With a profile on offer: added behind the rest unless its name is there.
    pub open spec fn ensured(self, profile: PowerProfileView) -> PowerProfilesView {
        if self.offers(profile.name) {
            self
        } else {
            PowerProfilesView { profiles: self.profiles.push(profile), ..self }
        }
    }
}

fn copy_profiles(profiles: &Vec<PowerProfile>) -> (copy: Vec<PowerProfile>)
    ensures
        profile_views(copy@) == profile_views(profiles@),
{
    let mut copy: Vec<PowerProfile> = Vec::new();
    let mut i: usize = 0;
    while i < profiles.len()
        invariant
            i <= profiles@.len(),
            profile_views(copy@) == profile_views(profiles@).take(i as int),
        decreases profiles@.len() - i,
    {
        let ghost before = profile_views(copy@);
        copy.push(profiles[i].clone());
        assert(profile_views(copy@) =~= before.push(profile_views(profiles@)[i as int]));
        i += 1;
    }
    assert(profile_views(profiles@).take(i as int) =~= profile_views(profiles@));
    copy
}

impl Clone for PowerProfilesState {
    fn clone(&self) -> (copy: Self)
        ensures
            copy@ == self@,
    {
        PowerProfilesState {
            active: self.active.clone(),
            profiles: copy_profiles(&self.profiles),
            hardware: text::copy_optional(&self.hardware),
        }
    }
}

impl PowerProfilesState {
    /// The profiles on offer and the active one, without a hardware backend.
    pub fn new(active: &str, profiles: Vec<PowerProfile>) -> (state: Self)
        ensures
            state@ == (PowerProfilesView {
                active: active@,
                profiles: profile_views(profiles@),
                hardware: None,
            }),
    {
        PowerProfilesState { active: active.to_owned(), profiles, hardware: None }
    }

    /// The name of the active profile.
    pub fn active_name(&self) -> (name: &str)
        ensures
            name@ == self@.active,
    {
        self.active.as_str()
    }

    /// The profiles on offer, in order.
    pub fn profiles(&self) -> (profiles: &Vec<PowerProfile>)
        ensures
            profile_views(profiles@) == self@.profiles,
    {
        &self.profiles
    }

    /// The hardware backend, if there is one.
    pub fn hardware(&self) -> (hardware: Option<&str>)
        ensures
            text::optional_str(hardware) == self@.hardware,
    {
        match &self.hardware {
            Some(hardware) => Some(hardware.as_str()),
            None => None,
        }
    }

    /// The state with a hardware backend, or none.
    pub fn with_hardware(self, hardware: Option<String>) -> (state: Self)
        ensures
            state@ == self@.backed(text::optional(hardware)),
    {
        PowerProfilesState { active: self.active, profiles: self.profiles, hardware }
    }

    /// The state with another profile active.
    pub fn with_active(self, active: &str) -> (state: Self)
        ensures
            state@ == self@.activated(active@),
    {
        PowerProfilesState {
            active: active.to_owned(),
            profiles: self.profiles,
            hardware: self.hardware,
        }
    }

    /// Whether a profile of that name is on offer.
    pub fn offers(&self, name: &str) -> (found: bool)
        ensures
            found == self@.offers(name@),
    {
        let mut i: usize = 0;
        while i < self.profiles.len()
            invariant
                i <= self.profiles@.len(),
                forall|k: int| 0 <= k < i ==> (#[trigger] self@.profiles[k]).name != name@,
            decreases self.profiles@.len() - i,
        {
            if text::same(self.profiles[i].name(), name) {
                assert(self@.profiles[i as int].name == name@);
                return true;
            }
            i += 1;
        }
        false
    }

    /// The state with `profile` on offer: added behind the rest unless a profile
    /// of its name is there.
    pub fn ensuring_profile(self, profile: PowerProfile) -> (state: Self)
        ensures
            state@ == self@.ensured(profile@),
    {
        if self.offers(profile.name()) {
            return self;
        }
        let ghost before = self@;
        let mut profiles: Vec<PowerProfile> = self.profiles;
        profiles.push(profile);
        assert(profile_views(profiles@) =~= before.profiles.push(profile@));
        PowerProfilesState { active: self.active, profiles, hardware: self.hardware }
    }

    /// Whether two states are the same in every field.
    pub fn same(&self, other: &PowerProfilesState) -> (equal: bool)
        ensures
            equal == (self@ == other@),
    {
        if !text::same(self.active.as_str(), other.active.as_str()) {
            return false;
        }
        let hardware: bool = match (&self.hardware, &other.hardware) {
            (Some(a), Some(b)) => text::same(a.as_str(), b.as_str()),
            (None, None) => true,
            _ => false,
        };
        if !hardware {
            return false;
        }
        if self.profiles.len() != other.profiles.len() {
            assert(self@.profiles.len() != other@.profiles.len());
            return false;
        }
        let mut i: usize = 0;
        while i < self.profiles.len()
            invariant
                i <= self.profiles@.len() == other.profiles@.len(),
                forall|k: int|
                    0 <= k < i ==> #[trigger] self@.profiles[k] == other@.profiles[k],
            decreases self.profiles@.len() - i,
        {
            if !self.profiles[i].same(&other.profiles[i]) {
                assert(self@.profiles[i as int] != other@.profiles[i as int]);
                return false;
            }
            i += 1;
        }
        assert(self@.profiles =~= other@.profiles);
        true
    }
}

/// What an audio output is.
#[derive(Debug, Clone, Copy, PartialEq, Eq, Structural)]
pub enum DeviceKind {
    /// Headphones.
    Headphones,
    /// Headphones with a microphone.
    Headset,
    /// Loudspeakers.
    Speakers,
    /// A display's audio output.
    Monitor,
    /// A television.
    Tv,
    /// A phone.
    Phone,
    /// None of these, or not known.
    Other,
}

/// A volume reading of the active audio output.
#[derive(Debug, Clone, Copy, PartialEq, Eq, Structural)]
pub struct Volume {
    level: u8,
    muted: bool,
    device: DeviceKind,
}

/// The contents of a [`Volume`].
pub struct VolumeView {
    /// The level in percent.
    pub level: u8,
    /// Whether the output is muted.
    pub muted: bool,
    /// What the output is.
    pub device: DeviceKind,
}

impl View for Volume {
    type V = VolumeView;

    closed spec fn view(&self) -> VolumeView {
        VolumeView { level: self.level, muted: self.muted, device: self.device }
    }
}

impl VolumeView {
    /// The reading of a level, a mute flag and a device: the level is no more
    /// than a hundred percent.
    pub open spec fn of(level: u8, muted: bool, device: DeviceKind) -> VolumeView {
        VolumeView {
            level: if level > 100 {
                100
            } else {
                level
            },
            muted,
            device,
        }
    }
}

impl Volume {
    /// A reading, its level clamped to a hundred percent.
    pub fn new(level: u8, muted: bool, device: DeviceKind) -> (volume: Self)
        ensures
            volume@ == VolumeView::of(level, muted, device),
    {
        Volume {
            level: if level > 100 {
                100
            } else {
                level
            },
            muted,
            device,
        }
    }

    /// The level in percent.
    pub fn level(&self) -> (level: u8)
        ensures
            level == self@.level,
    {
        self.level
    }

    /// Whether the output is muted.
    pub fn muted(&self) -> (muted: bool)
        ensures
            muted == self@.muted,
    {
        self.muted
    }

    /// What the output is.
    pub fn device(&self) -> (device: DeviceKind)
        ensures
            device == self@.device,
    {
        self.device
    }

    /// Whether two readings are the same in every field.
    pub fn same(&self, other: &Volume) -> (equal: bool)
        ensures
            equal == (self@ == other@),
    {
        self.level == other.level && self.muted == other.muted && self.device == other.device
    }
}

/// The contents of an optional reading.
pub open spec fn volume_view(volume: Option<Volume>) -> Option<VolumeView> {
    match volume {
        Some(volume) => Some(volume@),
        None => None,
    }
}

/// A reading of a battery tells its state and its charge, which is never more than a
/// hundred percent.
pub proof fn lemma_a_battery_tells_its_reading(
    state: BatteryState,
    percent: u8,
    battery: Battery,
    told: (BatteryState, u8, String),
)
    requires
        call_ensures(Battery::new, (state, percent), battery),
        call_ensures(Battery::state, (&battery,), told.0),
        call_ensures(Battery::percent, (&battery,), told.1),
        call_ensures(Battery::label, (&battery,), told.2),
    ensures
        told.0 == state,
        percent <= 100 ==> told.1 == percent,
        percent > 100 ==> told.1 == 100,
        state == BatteryState::Charging ==> told.2@ == text::decimal_of(told.1 as nat)
            + "% "@ + "charging"@,
        state == BatteryState::Discharging ==> told.2@ == text::decimal_of(told.1 as nat)
            + "% "@ + "discharging"@,
        state == BatteryState::Full ==> told.2@ == text::decimal_of(told.1 as nat) + "% "@
            + "full"@,
        state == BatteryState::Unknown ==> told.2@ == text::decimal_of(told.1 as nat)
            + "% "@ + "unknown"@,
{
}

/// A reading of a connection tells its state, and the network's name exactly on Wi-Fi.
pub proof fn lemma_a_connection_tells_its_reading(
    state: NetworkState,
    name: Option<&str>,
    network: Network,
    told: (NetworkState, Option<&str>, String),
)
    requires
        call_ensures(Network::new, (state, name), network),
        call_ensures(Network::state, (&network,), told.0),
        call_ensures(Network::ssid, (&network,), told.1),
        call_ensures(Network::label, (&network,), told.2),
    ensures
        told.0 == state,
        told.1 is Some <==> state == NetworkState::Wireless && name is Some,
        told.1 is Some ==> told.1->0@ == name->0@,
        state == NetworkState::Wired ==> told.2@ == "wired"@,
        state == NetworkState::Disconnected ==> told.2@ == "disconnected"@,
        state == NetworkState::Unknown ==> told.2@ == "unknown"@,
        state == NetworkState::Wireless && name is Some ==> told.2@ == "wifi "@ + name->0@,
        state == NetworkState::Wireless && name is None ==> told.2@ == "wifi"@,
{
}

/// A reading of the notifications tells their number and whether they are silenced.
pub proof fn lemma_notifications_tell_their_reading(
    count: u32,
    dnd: bool,
    reading: Notifications,
    told: (u32, bool),
)
    requires
        call_ensures(Notifications::new, (count, dnd), reading),
        call_ensures(Notifications::count, (&reading,), told.0),
        call_ensures(Notifications::dnd, (&reading,), told.1),
    ensures
        told == (count, dnd),
{
}

/// A profile tells its name and each of its drivers.
pub proof fn lemma_a_profile_tells_its_drivers(
    name: &str,
    driver: &str,
    cpu: &str,
    platform: &str,
    profile: PowerProfile,
    told: (&str, &str, &str, &str),
)
    requires
        call_ensures(PowerProfile::new, (name, driver, cpu, platform), profile),
        call_ensures(PowerProfile::name, (&profile,), told.0),
        call_ensures(PowerProfile::driver, (&profile,), told.1),
        call_ensures(PowerProfile::cpu_driver, (&profile,), told.2),
        call_ensures(PowerProfile::platform_driver, (&profile,), told.3),
    ensures
        told.0@ == name@,
        told.1@ == driver@,
        told.2@ == cpu@,
        told.3@ == platform@,
{
}

/// Profiles that count as the same tell the same, field by field.
pub proof fn lemma_same_profiles_tell_the_same(
    a: PowerProfile,
    b: PowerProfile,
    equal: bool,
    of_a: (&str, &str, &str, &str),
    of_b: (&str, &str, &str, &str),
)
    requires
        call_ensures(PowerProfile::same, (&a, &b), equal),
        call_ensures(PowerProfile::name, (&a,), of_a.0),
        call_ensures(PowerProfile::driver, (&a,), of_a.1),
        call_ensures(PowerProfile::cpu_driver, (&a,), of_a.2),
        call_ensures(PowerProfile::platform_driver, (&a,), of_a.3),
        call_ensures(PowerProfile::name, (&b,), of_b.0),
        call_ensures(PowerProfile::driver, (&b,), of_b.1),
        call_ensures(PowerProfile::cpu_driver, (&b,), of_b.2),
        call_ensures(PowerProfile::platform_driver, (&b,), of_b.3),
    ensures
        equal <==> of_a.0@ == of_b.0@ && of_a.1@ == of_b.1@ && of_a.2@ == of_b.2@ && of_a.3@
            == of_b.3@,
{
    if of_a.0@ == of_b.0@ && of_a.1@ == of_b.1@ && of_a.2@ == of_b.2@ && of_a.3@ == of_b.3@ {
        assert(a@ =~= b@);
    }
}

/// The state of the profiles tells what it was made of; each change of it changes what it
/// is about and nothing else.
pub proof fn lemma_each_change_of_the_profiles_is_its_own(
    active: &str,
    profiles: Vec<PowerProfile>,
    state: PowerProfilesState,
    other: &str,
    activated: PowerProfilesState,
    hardware: Option<String>,
    backed: PowerProfilesState,
    told: (&str, &Vec<PowerProfile>, Option<&str>),
)
    requires
        call_ensures(PowerProfilesState::new, (active, profiles), state),
        call_ensures(PowerProfilesState::with_active, (state, other), activated),
        call_ensures(PowerProfilesState::with_hardware, (activated, hardware), backed),
        call_ensures(PowerProfilesState::active_name, (&backed,), told.0),
        call_ensures(PowerProfilesState::profiles, (&backed,), told.1),
        call_ensures(PowerProfilesState::hardware, (&backed,), told.2),
    ensures
        state@.active == active@,
        state@.hardware is None,
        told.0@ == other@,
        told.1@.len() == profiles@.len(),
        forall|i: int|
            0 <= i < profiles@.len() ==> (#[trigger] told.1@[i])@ == profiles@[i]@,
        told.2 is Some <==> hardware is Some,
        told.2 is Some ==> told.2->0@ == hardware->0@,
{
    let shown = profile_views(told.1@);
    assert(shown == profile_views(profiles@));
    assert(shown.len() == profiles@.len());
    assert forall|i: int| 0 <= i < profiles@.len() implies (#[trigger] told.1@[i])@
        == profiles@[i]@ by {
        assert(shown[i] == told.1@[i]@);
        assert(profile_views(profiles@)[i] == profiles@[i]@);
    }
}

/// A profile that is ensured is on offer, every profile that was on offer stays where it
/// was, and nothing is added that was there by name.
pub proof fn lemma_an_ensured_profile_is_on_offer(
    state: PowerProfilesState,
    profile: PowerProfile,
    ensured: PowerProfilesState,
    name: &str,
    found: bool,
)
    requires
        call_ensures(PowerProfilesState::ensuring_profile, (state, profile), ensured),
        call_ensures(PowerProfilesState::offers, (&ensured, name), found),
    ensures
        name@ == profile@.name ==> found,
        state@.profiles.len() <= ensured@.profiles.len() <= state@.profiles.len() + 1,
        forall|i: int|
            0 <= i < state@.profiles.len() ==> #[trigger] ensured@.profiles[i]
                == state@.profiles[i],
        (exists|i: int|
            0 <= i < state@.profiles.len() && (#[trigger] state@.profiles[i]).name
                == profile@.name) ==> ensured@.profiles == state@.profiles,
        ensured@.profiles.len() > state@.profiles.len() ==> ensured@.profiles.last() == profile@,
        ensured@.active == state@.active,
        ensured@.hardware == state@.hardware,
{
    if !state@.offers(profile@.name) {
        assert(ensured@.profiles[state@.profiles.len() as int].name == profile@.name);
    }
}

/// States of the profiles that count as the same agree in everything.
pub proof fn lemma_same_states_agree(a: PowerProfilesState, b: PowerProfilesState, equal: bool)
    requires
        call_ensures(PowerProfilesState::same, (&a, &b), equal),
    ensures
        equal <==> a@.active == b@.active && a@.hardware == b@.hardware && a@.profiles
            == b@.profiles,
{
    if a@.active == b@.active && a@.hardware == b@.hardware && a@.profiles == b@.profiles {
        assert(a@ =~= b@);
    }
}

/// A volume reading tells its level, which is never more than a hundred percent, whether
/// it is muted, and its device; two readings are the same exactly where they tell the same.
pub proof fn lemma_a_volume_tells_its_reading(
    level: u8,
    muted: bool,
    device: DeviceKind,
    volume: Volume,
    told: (u8, bool, DeviceKind),
    other: Volume,
    of_other: (u8, bool, DeviceKind),
    equal: bool,
)
    requires
        call_ensures(Volume::new, (level, muted, device), volume),
        call_ensures(Volume::level, (&volume,), told.0),
        call_ensures(Volume::muted, (&volume,), told.1),
        call_ensures(Volume::device, (&volume,), told.2),
        call_ensures(Volume::level, (&other,), of_other.0),
        call_ensures(Volume::muted, (&other,), of_other.1),
        call_ensures(Volume::device, (&other,), of_other.2),
        call_ensures(Volume::same, (&volume, &other), equal),
    ensures
        level <= 100 ==> told.0 == level,
        level > 100 ==> told.0 == 100,
        told.1 == muted,
        told.2 == device,
        equal <==> told == of_other,
{
}

/// A press runs the program that is configured for its button, on the widget whose slot
/// it is in, and no program anywhere else.
pub proof fn lemma_each_button_runs_its_own_program(
    widget: Widget,
    x: u32,
    y: u32,
    left: Option<Command>,
    right: Option<Command>,
)
    requires
        call_ensures(Widget::on_click, (&widget, x, y, ClickButton::Left), left),
        call_ensures(Widget::on_click, (&widget, x, y, ClickButton::Right), right),
    ensures
        ({
            let slot = widget.bounds;
            let inside = slot.x <= x < slot.x + slot.width && slot.y <= y < slot.y + slot.height;
            &&& left is Some <==> inside && widget.on_click is Some
            &&& right is Some <==> inside && widget.on_click_right is Some
            &&& left is Some ==> (left->0 matches Command::RunProgram(program) && program@
                == widget.on_click->0@)
            &&& right is Some ==> (right->0 matches Command::RunProgram(program) && program@
                == widget.on_click_right->0@)
        }),
{
}

/// A press that only one widget of a bar has a program for runs that one's program.
pub proof fn lemma_a_press_reaches_its_widget(
    bar: Dashboard,
    x: u32,
    y: u32,
    button: ClickButton,
    command: Option<Command>,
    i: int,
)
    requires
        call_ensures(Dashboard::on_click, (&bar, x, y, button), command),
    ensures
        (0 <= i < bar.left@.len() && program_at(bar.left@[i], x, y, button) is Some && (forall|j: int|
            0 <= j < i ==> program_at(#[trigger] bar.left@[j], x, y, button) is None)) ==> asks_for(
            command,
            program_at(bar.left@[i], x, y, button),
        ),
        (forall|j: int|
            0 <= j < bar.left@.len() ==> program_at(#[trigger] bar.left@[j], x, y, button) is None)
            && (forall|j: int|
            0 <= j < bar.center@.len() ==> program_at(
                #[trigger] bar.center@[j],
                x,
                y,
                button,
            ) is None) && 0 <= i < bar.right@.len() && program_at(
            bar.right@[i],
            x,
            y,
            button,
        ) is Some && (forall|j: int|
            0 <= j < i ==> program_at(#[trigger] bar.right@[j], x, y, button) is None) ==> asks_for(
            command,
            program_at(bar.right@[i], x, y, button),
        ),
        (forall|j: int|
            0 <= j < bar.left@.len() ==> program_at(#[trigger] bar.left@[j], x, y, button) is None)
            && 0 <= i < bar.center@.len() && program_at(bar.center@[i], x, y, button) is Some && (
        forall|j: int|
            0 <= j < i ==> program_at(#[trigger] bar.center@[j], x, y, button) is None) ==> asks_for(
            command,
            program_at(bar.center@[i], x, y, button),
        ),
{
    lemma_first_programs(bar.left@, x, y, button, i);
    lemma_first_programs(bar.center@, x, y, button, i);
    lemma_first_programs(bar.right@, x, y, button, i);
}

proof fn lemma_first_programs(widgets: Seq<Widget>, x: u32, y: u32, button: ClickButton, i: int)
    ensures
        (forall|j: int|
            0 <= j < widgets.len() ==> program_at(#[trigger] widgets[j], x, y, button) is None)
            ==> first_program(widgets, x, y, button) is None,
        0 <= i < widgets.len() && program_at(widgets[i], x, y, button) is Some && (forall|j: int|
            0 <= j < i ==> program_at(#[trigger] widgets[j], x, y, button) is None)
            ==> first_program(widgets, x, y, button) == program_at(widgets[i], x, y, button),
    decreases widgets.len(),
{
    if widgets.len() > 0 {
        let rest = widgets.skip(1);
        lemma_first_programs(rest, x, y, button, i - 1);
        assert(forall|j: int| 0 <= j < rest.len() ==> #[trigger] rest[j] == widgets[j + 1]);
        if i > 0 && i < widgets.len() {
            assert(rest[i - 1] == widgets[i]);
        }
        if forall|j: int|
            0 <= j < widgets.len() ==> program_at(#[trigger] widgets[j], x, y, button) is None {
            assert(program_at(widgets[0], x, y, button) is None);
            assert forall|j: int| 0 <= j < rest.len() implies program_at(
                #[trigger] rest[j],
                x,
                y,
                button,
            ) is None by {
                assert(rest[j] == widgets[j + 1]);
            }
        }
        if 0 < i < widgets.len() && program_at(widgets[i], x, y, button) is Some && (forall|j: int|
            0 <= j < i ==> program_at(#[trigger] widgets[j], x, y, button) is None) {
            assert(program_at(widgets[0], x, y, button) is None);
            assert forall|j: int| 0 <= j < i - 1 implies program_at(
                #[trigger] rest[j],
                x,
                y,
                button,
            ) is None by {
                assert(rest[j] == widgets[j + 1]);
            }
        }
    }
}

} // verus!
