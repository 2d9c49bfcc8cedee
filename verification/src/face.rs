//! The face of a widget: what it shows of the news, and what a click or a scroll on
//! it asks for.

use crate::config::style::FormatIconsConfig;
use crate::config::WidgetKind;
use crate::icon::BuiltinIcon;
use crate::message::{self, Bluetooth, Msg, SystemStats, Workspaces};
use crate::number::Double;
use crate::popup;
use crate::template;
use crate::text;
use crate::tray::{self, TrayItem, TrayItemView, TrayMenuMode, TrayState, TrayStatus};
use crate::widget::{
    self, Battery, BatteryState, Command, IconSetting, Network, NetworkState, NetworkView,
    Notifications, PowerProfile, PowerProfileView, PowerProfilesState, PowerProfilesView,
    ScrollDirection, StateColors, Volume, VolumeView, Widget, WidgetStyle,
};
use vstd::prelude::*;
use vstd::string::StrSliceExecFns;
use vstd::string::StringExecFns;

verus! {

/// The longest title that is shown whole, in characters.
pub const TITLE_LIMIT: usize = 100;

/// The encoding of `1.0`, the step of a scroll over the backlight that sets none.
pub const DEFAULT_SCROLL_STEP: u64 = 0x3FF0_0000_0000_0000;

/// What stands beside the text of a piece.
#[derive(Debug, PartialEq, Eq)]
pub enum Glyph {
    /// Nothing.
    Hidden,
    /// A built-in icon.
    Art(BuiltinIcon),
    /// A text.
    Word(String),
    /// The icon of the tray item at this place.
    Item(usize),
}

/// The contents of a [`Glyph`].
#[verifier::ext_equal]
pub enum GlyphView {
    /// Nothing.
    Hidden,
    /// A built-in icon.
    Art(BuiltinIcon),
    /// A text.
    Word(Seq<char>),
    /// The icon of the tray item at this place.
    Item(int),
}

impl View for Glyph {
    type V = GlyphView;

    open spec fn view(&self) -> GlyphView {
        match self {
            Glyph::Hidden => GlyphView::Hidden,
            Glyph::Art(icon) => GlyphView::Art(*icon),
            Glyph::Word(word) => GlyphView::Word(word@),
            Glyph::Item(i) => GlyphView::Item(*i as int),
        }
    }
}

/// What a command asks for.
#[verifier::ext_equal]
pub enum Ask {
    /// Switch to a workspace.
    SwitchWorkspace(i32),
    /// Activate a tray item.
    ActivateTrayItem { key: Seq<char>, x: i32, y: i32 },
    /// Open the menu of a tray item.
    OpenTrayMenu { key: Seq<char>, x: i32, y: i32 },
    /// Activate an entry of a tray item's menu.
    ActivateTrayMenuItem { key: Seq<char>, id: i32 },
    /// Run a program.
    RunProgram(Seq<char>),
    /// Show or hide the notification panel.
    ToggleNotificationPanel,
    /// Turn do-not-disturb on or off.
    ToggleNotificationsDnd,
    /// Change the brightness of a backlight device.
    AdjustBacklight { device: Option<Seq<char>>, step: Double, direction: ScrollDirection },
    /// Select a power profile.
    SetPowerProfile(Seq<char>),
    /// Start or stop the idle daemon.
    SetHypridle(bool),
}

/// What a command asks for.
pub open spec fn ask_of(command: Command) -> Ask {
    match command {
        Command::SwitchWorkspace(id) => Ask::SwitchWorkspace(id),
        Command::ActivateTrayItem { key, x, y } => Ask::ActivateTrayItem { key: key@, x, y },
        Command::OpenTrayMenu { key, x, y } => Ask::OpenTrayMenu { key: key@, x, y },
        Command::ActivateTrayMenuItem { key, id } => Ask::ActivateTrayMenuItem { key: key@, id },
        Command::RunProgram(program) => Ask::RunProgram(program@),
        Command::ToggleNotificationPanel => Ask::ToggleNotificationPanel,
        Command::ToggleNotificationsDnd => Ask::ToggleNotificationsDnd,
        Command::AdjustBacklight { device, step, direction } => Ask::AdjustBacklight {
            device: text::optional(device),
            step,
            direction,
        },
        Command::SetPowerProfile(name) => Ask::SetPowerProfile(name@),
        Command::SetHypridle(active) => Ask::SetHypridle(active),
    }
}

/// What an optional command asks for.
pub open spec fn optional_ask(command: Option<Command>) -> Option<Ask> {
    match command {
        Some(command) => Some(ask_of(command)),
        None => None,
    }
}

/// The outline of a piece, in logical pixels.
#[derive(Debug, Clone, Copy, PartialEq, Eq, Structural)]
pub struct Outline {
    /// The inset between its edge and its content.
    pub padding: u32,
    /// The radius of its corners.
    pub radius: u32,
    /// The width of its border.
    pub border_width: u32,
}

/// The outline that a style gives.
pub open spec fn outline_of(style: WidgetStyle) -> Outline {
    Outline { padding: style.padding, radius: style.radius, border_width: style.border_width }
}

fn outline(style: &WidgetStyle) -> (outline: Outline)
    ensures
        outline == outline_of(*style),
{
    Outline { padding: style.padding, radius: style.radius, border_width: style.border_width }
}

/// One thing a widget shows.
#[derive(Debug, PartialEq, Eq)]
pub struct Piece {
    /// The text before the glyph.
    pub lead: String,
    /// The glyph.
    pub glyph: Glyph,
    /// The text behind the glyph.
    pub tail: String,
    /// Whether the glyph has a dot in its corner.
    pub dot: bool,
    /// Its colors.
    pub colors: StateColors,
    /// Its outline.
    pub outline: Outline,
    /// What a click of the primary button asks for.
    pub left: Option<Command>,
    /// What a click of the secondary button asks for.
    pub right: Option<Command>,
    /// What a step of scrolling towards more asks for.
    pub increase: Option<Command>,
    /// What a step of scrolling towards less asks for.
    pub decrease: Option<Command>,
    /// What is told of it when the pointer is over it.
    pub tooltip: Option<String>,
}

/// The contents of a [`Piece`].
#[verifier::ext_equal]
pub struct PieceView {
    /// The text before the glyph.
    pub lead: Seq<char>,
    /// The glyph.
    pub glyph: GlyphView,
    /// The text behind the glyph.
    pub tail: Seq<char>,
    /// Whether the glyph has a dot in its corner.
    pub dot: bool,
    /// Its colors.
    pub colors: StateColors,
    /// Its outline.
    pub outline: Outline,
    /// What a click of the primary button asks for.
    pub left: Option<Ask>,
    /// What a click of the secondary button asks for.
    pub right: Option<Ask>,
    /// What a step of scrolling towards more asks for.
    pub increase: Option<Ask>,
    /// What a step of scrolling towards less asks for.
    pub decrease: Option<Ask>,
    /// What is told of it when the pointer is over it.
    pub tooltip: Option<Seq<char>>,
}

impl View for Piece {
    type V = PieceView;

    open spec fn view(&self) -> PieceView {
        PieceView {
            lead: self.lead@,
            glyph: self.glyph@,
            tail: self.tail@,
            dot: self.dot,
            colors: self.colors,
            outline: self.outline,
            left: optional_ask(self.left),
            right: optional_ask(self.right),
            increase: optional_ask(self.increase),
            decrease: optional_ask(self.decrease),
            tooltip: text::optional(self.tooltip),
        }
    }
}

/// The contents of each piece.
pub open spec fn piece_views(pieces: Seq<Piece>) -> Seq<PieceView> {
    pieces.map_values(|p: Piece| p@)
}

/// The colors of a widget in its normal state.
pub open spec fn plain(style: WidgetStyle) -> StateColors {
    StateColors {
        background: style.background,
        foreground: style.foreground,
        border: style.border,
    }
}

/// The colors of a widget that is emphasized.
pub open spec fn accented(style: WidgetStyle) -> StateColors {
    StateColors { foreground: style.accent, ..plain(style) }
}

fn plain_colors(style: &WidgetStyle) -> (colors: StateColors)
    ensures
        colors == plain(*style),
{
    StateColors {
        background: style.background,
        foreground: style.foreground,
        border: style.border,
    }
}

/// The glyph of a widget whose built-in icon is `art`: a text in its place where the
/// style has one, or, where it has not, the icon table.
pub open spec fn glyph_of(style: WidgetStyle, art: BuiltinIcon, word: Option<Seq<char>>) -> GlyphView {
    match style.icon {
        IconSetting::Hidden => GlyphView::Hidden,
        IconSetting::Custom(custom) => GlyphView::Word(custom@),
        IconSetting::Default => match word {
            Some(word) => GlyphView::Word(word),
            None => GlyphView::Art(art),
        },
    }
}

fn glyph_for(style: &WidgetStyle, art: BuiltinIcon, word: Option<&str>) -> (glyph: Glyph)
    ensures
        glyph@ == glyph_of(*style, art, text::optional_str(word)),
{
    match &style.icon {
        IconSetting::Hidden => Glyph::Hidden,
        IconSetting::Custom(custom) => Glyph::Word(custom.clone()),
        IconSetting::Default => match word {
            Some(word) => Glyph::Word(word.to_owned()),
            None => Glyph::Art(art),
        },
    }
}

/// The program that a widget runs, as a command.
pub open spec fn runs(program: Option<String>) -> Option<Ask> {
    match program {
        Some(program) => Some(Ask::RunProgram(program@)),
        None => None,
    }
}

fn run_command(program: &Option<String>) -> (command: Option<Command>)
    ensures
        optional_ask(command) == runs(*program),
{
    match program {
        Some(program) => Some(Command::RunProgram(program.clone())),
        None => None,
    }
}

/// A label that follows `format`: the text before the glyph, the glyph, and the text
/// behind it. `{icon}` says where the glyph stands; without one there is no glyph,
/// and the text stands alone.
pub open spec fn assembled(
    format: Seq<char>,
    glyph: GlyphView,
    values: Seq<(Seq<char>, Seq<char>)>,
) -> (Seq<char>, GlyphView, Seq<char>) {
    let (lead, shown, tail) = match template::around(format, "{icon}"@) {
        Some((before, behind)) => (
            template::filled(before, values),
            glyph,
            template::filled(behind, values),
        ),
        None => (template::filled(format, values), GlyphView::Hidden, seq![]),
    };
    if shown == GlyphView::Hidden {
        (text::trimmed(lead + tail), GlyphView::Hidden, seq![])
    } else {
        (lead, shown, tail)
    }
}

/// The piece of a widget that follows `format`. A click runs what the widget says.
pub open spec fn labelled(
    widget: Widget,
    format: Seq<char>,
    glyph: GlyphView,
    values: Seq<(Seq<char>, Seq<char>)>,
    colors: StateColors,
) -> PieceView {
    let (lead, shown, tail) = assembled(format, glyph, values);
    PieceView {
        lead,
        glyph: shown,
        tail,
        dot: false,
        colors,
        outline: outline_of(widget.style),
        left: runs(widget.on_click),
        right: runs(widget.on_click_right),
        increase: None,
        decrease: None,
        tooltip: None,
    }
}

fn show_label(
    widget: &Widget,
    format: &str,
    glyph: Glyph,
    values: &[(&str, &str)],
    colors: StateColors,
) -> (piece: Piece)
    ensures
        piece@ == labelled(*widget, format@, glyph@, template::pairs(values@), colors),
{
    let (lead, shown, tail): (String, Glyph, String) = match template::split_at_text(
        format,
        "{icon}",
    ) {
        Some((before, behind)) => (
            template::fill(before, values),
            glyph,
            template::fill(behind, values),
        ),
        None => (template::fill(format, values), Glyph::Hidden, String::new()),
    };
    let (lead, tail): (String, String) = match &shown {
        Glyph::Hidden => {
            let all: String = text::joined(lead.as_str(), tail.as_str());
            (text::trim(all.as_str()).to_owned(), String::new())
        },
        _ => (lead, tail),
    };
    Piece {
        lead,
        glyph: shown,
        tail,
        dot: false,
        colors,
        outline: outline(&widget.style),
        left: run_command(&widget.on_click),
        right: run_command(&widget.on_click_right),
        increase: None,
        decrease: None,
        tooltip: None,
    }
}

/// The format of a widget, or `default` where it sets none.
pub open spec fn own_or(own: Option<String>, default: Seq<char>) -> Seq<char> {
    match own {
        Some(own) => own@,
        None => default,
    }
}

fn own_or_default<'a>(own: &'a Option<String>, default: &'a str) -> (format: &'a str)
    ensures
        format@ == own_or(*own, default@),
{
    match own {
        Some(own) => own.as_str(),
        None => default,
    }
}

/// A number below a hundred, with two digits.
pub open spec fn two_digits(n: nat) -> Seq<char> {
    if n < 10 {
        "0"@ + text::decimal_of(n)
    } else {
        text::decimal_of(n)
    }
}

fn two_digit_text(n: u64) -> (digits: String)
    ensures
        digits@ == two_digits(n as nat),
{
    if n < 10 {
        text::joined("0", text::decimal(n).as_str())
    } else {
        text::decimal(n)
    }
}

/// The time of day, `HH:MM`, of a count of seconds of the local clock.
pub open spec fn time_of_day(seconds: u64) -> Seq<char> {
    two_digits((seconds / 3600 % 24) as nat) + ":"@ + two_digits((seconds / 60 % 60) as nat)
}

/// What the clock shows.
pub open spec fn clock_face(widget: Widget, seconds: u64) -> PieceView {
    labelled(
        widget,
        "{icon} {time}"@,
        glyph_of(widget.style, BuiltinIcon::Clock, None),
        seq![("{time}"@, time_of_day(seconds))],
        plain(widget.style),
    )
}

fn show_clock(widget: &Widget, seconds: u64) -> (piece: Piece)
    ensures
        piece@ == clock_face(*widget, seconds),
{
    let mut time: String = two_digit_text(seconds / 3600 % 24);
    time.append(":");
    time.append(two_digit_text(seconds / 60 % 60).as_str());
    let values = [("{time}", time.as_str())];
    assert(template::pairs(values@) =~= seq![("{time}"@, time_of_day(seconds))]);
    show_label(
        widget,
        "{icon} {time}",
        glyph_for(&widget.style, BuiltinIcon::Clock, None),
        &values,
        plain_colors(&widget.style),
    )
}

/// The built-in icon of a battery: by thirds of its charge, unless it charges.
pub open spec fn battery_art(battery: (BatteryState, u8)) -> BuiltinIcon {
    if battery.0 == BatteryState::Charging {
        BuiltinIcon::BatteryCharging
    } else if battery.1 <= 33 {
        BuiltinIcon::BatteryLow
    } else if battery.1 <= 66 {
        BuiltinIcon::BatteryHalf
    } else {
        BuiltinIcon::BatteryFull
    }
}

/// The colors of a battery: those of charging while it charges, those of a warning
/// while it discharges below the threshold.
pub open spec fn battery_colors(style: WidgetStyle, battery: (BatteryState, u8)) -> StateColors {
    if battery.0 == BatteryState::Charging {
        style.charging
    } else if battery.0 == BatteryState::Discharging && battery.1 < style.warn_threshold {
        style.warn
    } else {
        plain(style)
    }
}

/// What a battery shows.
pub open spec fn battery_face(widget: Widget, battery: (BatteryState, u8)) -> PieceView {
    labelled(
        widget,
        own_or(widget.format, "{icon} {percent}% {state}"@),
        glyph_of(widget.style, battery_art(battery), None),
        seq![
            ("{percent}"@, text::decimal_of(battery.1 as nat)),
            ("{state}"@, widget::battery_word(battery.0)),
        ],
        battery_colors(widget.style, battery),
    )
}

fn show_battery(widget: &Widget, battery: &Battery) -> (piece: Piece)
    ensures
        piece@ == battery_face(*widget, battery@),
{
    let state: BatteryState = battery.state();
    let charge: u8 = battery.percent();
    let word: &'static str = match state {
        BatteryState::Charging => "charging",
        BatteryState::Discharging => "discharging",
        BatteryState::Full => "full",
        BatteryState::Unknown => "unknown",
    };
    let art: BuiltinIcon = match state {
        BatteryState::Charging => BuiltinIcon::BatteryCharging,
        _ => if charge <= 33 {
            BuiltinIcon::BatteryLow
        } else if charge <= 66 {
            BuiltinIcon::BatteryHalf
        } else {
            BuiltinIcon::BatteryFull
        },
    };
    let colors: StateColors = match state {
        BatteryState::Charging => widget.style.charging,
        BatteryState::Discharging => if (charge as u32) < widget.style.warn_threshold {
            widget.style.warn
        } else {
            plain_colors(&widget.style)
        },
        _ => plain_colors(&widget.style),
    };
    let percent: String = text::decimal(charge as u64);
    let values = [("{percent}", percent.as_str()), ("{state}", word)];
    assert(template::pairs(values@) =~= seq![
        ("{percent}"@, text::decimal_of(charge as nat)),
        ("{state}"@, widget::battery_word(state)),
    ]);
    show_label(
        widget,
        own_or_default(&widget.format, "{icon} {percent}% {state}"),
        glyph_for(&widget.style, art, None),
        &values,
        colors,
    )
}

/// The icon of a level on a ramp, from low to high.
pub open spec fn ramp_icon(icons: Option<FormatIconsConfig>, level: u8) -> Option<Seq<char>> {
    match icons {
        Some(FormatIconsConfig::Ramp(ramp)) => if ramp@.len() == 0 {
            None
        } else if level * ramp@.len() / 100 < ramp@.len() {
            Some(ramp@[level * ramp@.len() / 100]@)
        } else {
            Some(ramp@.last()@)
        },
        _ => None,
    }
}

fn ramp_word(icons: &Option<FormatIconsConfig>, level: u8) -> (word: Option<&str>)
    ensures
        text::optional_str(word) == ramp_icon(*icons, level),
{
    match icons {
        Some(FormatIconsConfig::Ramp(ramp)) => {
            let n: usize = ramp.len();
            if n == 0 {
                return None;
            }
            assert(0 <= level * n <= 255 * n) by (nonlinear_arith)
                requires
                    0 <= level <= 255,
                    0 <= n,
            ;
            let place: u128 = level as u128 * n as u128 / 100;
            if place < n as u128 {
                Some(ramp[place as usize].as_str())
            } else {
                Some(ramp[n - 1].as_str())
            }
        },
        _ => None,
    }
}

/// What scrolling over the backlight asks for.
pub open spec fn adjusts(widget: Widget, direction: ScrollDirection) -> Option<Ask> {
    Some(
        Ask::AdjustBacklight {
            device: text::optional(widget.device),
            step: match widget.scroll_step {
                Some(step) => step,
                None => Double { bits: DEFAULT_SCROLL_STEP },
            },
            direction,
        },
    )
}

fn adjust(widget: &Widget, direction: ScrollDirection) -> (command: Option<Command>)
    ensures
        optional_ask(command) == adjusts(*widget, direction),
{
    Some(
        Command::AdjustBacklight {
            device: text::copy_optional(&widget.device),
            step: match widget.scroll_step {
                Some(step) => step,
                None => Double { bits: DEFAULT_SCROLL_STEP },
            },
            direction,
        },
    )
}

/// What the backlight shows. Scrolling over it adjusts it.
pub open spec fn backlight_face(widget: Widget, level: u8) -> PieceView {
    PieceView {
        increase: adjusts(widget, ScrollDirection::Increase),
        decrease: adjusts(widget, ScrollDirection::Decrease),
        ..labelled(
            widget,
            own_or(widget.format, "{icon} {percent}%"@),
            glyph_of(
                widget.style,
                BuiltinIcon::Backlight(((level * 6 + 99) / 100) as u8),
                ramp_icon(widget.format_icons, level),
            ),
            seq![("{percent}"@, text::decimal_of(level as nat))],
            plain(widget.style),
        )
    }
}

fn show_backlight(widget: &Widget, level: u8) -> (piece: Piece)
    ensures
        piece@ == backlight_face(*widget, level),
{
    let percent: String = text::decimal(level as u64);
    let values = [("{percent}", percent.as_str())];
    assert(template::pairs(values@) =~= seq![("{percent}"@, text::decimal_of(level as nat))]);
    let art = BuiltinIcon::Backlight(((level as u32 * 6 + 99) / 100) as u8);
    let piece: Piece = show_label(
        widget,
        own_or_default(&widget.format, "{icon} {percent}%"),
        glyph_for(&widget.style, art, ramp_word(&widget.format_icons, level)),
        &values,
        plain_colors(&widget.style),
    );
    Piece {
        increase: adjust(widget, ScrollDirection::Increase),
        decrease: adjust(widget, ScrollDirection::Decrease),
        ..piece
    }
}

/// What the load of the machine shows.
pub open spec fn system_face(widget: Widget, stats: SystemStats) -> PieceView {
    labelled(
        widget,
        "{icon} {cpu}% {memory}%"@,
        glyph_of(widget.style, BuiltinIcon::System, None),
        seq![
            ("{cpu}"@, text::decimal_of(stats.cpu as nat)),
            ("{memory}"@, text::decimal_of(stats.memory as nat)),
        ],
        plain(widget.style),
    )
}

fn show_system(widget: &Widget, stats: &SystemStats) -> (piece: Piece)
    ensures
        piece@ == system_face(*widget, *stats),
{
    let cpu: String = text::decimal(stats.cpu as u64);
    let memory: String = text::decimal(stats.memory as u64);
    let values = [("{cpu}", cpu.as_str()), ("{memory}", memory.as_str())];
    assert(template::pairs(values@) =~= seq![
        ("{cpu}"@, text::decimal_of(stats.cpu as nat)),
        ("{memory}"@, text::decimal_of(stats.memory as nat)),
    ]);
    show_label(
        widget,
        "{icon} {cpu}% {memory}%",
        glyph_for(&widget.style, BuiltinIcon::System, None),
        &values,
        plain_colors(&widget.style),
    )
}

/// A label beside a glyph.
pub open spec fn worded(
    widget: Widget,
    art: BuiltinIcon,
    words: Seq<char>,
    colors: StateColors,
) -> PieceView {
    labelled(
        widget,
        "{icon} {label}"@,
        glyph_of(widget.style, art, None),
        seq![("{label}"@, words)],
        colors,
    )
}

fn show_words(widget: &Widget, art: BuiltinIcon, words: &str, colors: StateColors) -> (piece: Piece)
    ensures
        piece@ == worded(*widget, art, words@, colors),
{
    let values = [("{label}", words)];
    assert(template::pairs(values@) =~= seq![("{label}"@, words@)]);
    show_label(widget, "{icon} {label}", glyph_for(&widget.style, art, None), &values, colors)
}

/// What the connectivity shows.
pub open spec fn network_face(widget: Widget, network: NetworkView) -> PieceView {
    worded(
        widget,
        if network.state == NetworkState::Wireless {
            BuiltinIcon::NetworkWireless
        } else {
            BuiltinIcon::NetworkWired
        },
        network.words(),
        plain(widget.style),
    )
}

fn show_network(widget: &Widget, network: &Network) -> (piece: Piece)
    ensures
        piece@ == network_face(*widget, network@),
{
    let art: BuiltinIcon = match network.state() {
        NetworkState::Wireless => BuiltinIcon::NetworkWireless,
        _ => BuiltinIcon::NetworkWired,
    };
    show_words(widget, art, network.label().as_str(), plain_colors(&widget.style))
}

/// The state of the adapter in words.
pub open spec fn bluetooth_words(adapter: Option<Bluetooth>) -> Seq<char> {
    match adapter {
        None => "unavailable"@,
        Some(adapter) => if !adapter.powered {
            "off"@
        } else if adapter.connected == 0 {
            "on"@
        } else {
            text::decimal_of(adapter.connected as nat) + " connected"@
        },
    }
}

fn show_bluetooth(widget: &Widget, adapter: &Option<Bluetooth>) -> (piece: Piece)
    ensures
        piece@ == worded(
            *widget,
            BuiltinIcon::Bluetooth,
            bluetooth_words(*adapter),
            plain(widget.style),
        ),
{
    let colors: StateColors = plain_colors(&widget.style);
    match adapter {
        None => show_words(widget, BuiltinIcon::Bluetooth, "unavailable", colors),
        Some(adapter) => if !adapter.powered {
            show_words(widget, BuiltinIcon::Bluetooth, "off", colors)
        } else if adapter.connected == 0 {
            show_words(widget, BuiltinIcon::Bluetooth, "on", colors)
        } else {
            let count: String = text::decimal(adapter.connected as u64);
            let words: String = text::joined(count.as_str(), " connected");
            show_words(widget, BuiltinIcon::Bluetooth, words.as_str(), colors)
        },
    }
}

/// The built-in icon of a volume: one more wave per third of the level.
pub open spec fn volume_art(volume: VolumeView) -> BuiltinIcon {
    if volume.muted || volume.level == 0 {
        BuiltinIcon::VolumeMuted
    } else if volume.level <= 33 {
        BuiltinIcon::VolumeLow
    } else if volume.level <= 66 {
        BuiltinIcon::VolumeMedium
    } else {
        BuiltinIcon::VolumeHigh
    }
}

/// What the volume shows.
pub open spec fn volume_face(widget: Widget, volume: VolumeView) -> PieceView {
    worded(
        widget,
        volume_art(volume),
        if volume.muted {
            "Mute"@
        } else {
            "Vol "@ + text::decimal_of(volume.level as nat) + "%"@
        },
        plain(widget.style),
    )
}

fn show_volume(widget: &Widget, volume: &Volume) -> (piece: Piece)
    ensures
        piece@ == volume_face(*widget, volume@),
{
    let level: u8 = volume.level();
    let muted: bool = volume.muted();
    let art: BuiltinIcon = if muted || level == 0 {
        BuiltinIcon::VolumeMuted
    } else if level <= 33 {
        BuiltinIcon::VolumeLow
    } else if level <= 66 {
        BuiltinIcon::VolumeMedium
    } else {
        BuiltinIcon::VolumeHigh
    };
    let colors: StateColors = plain_colors(&widget.style);
    if muted {
        show_words(widget, art, "Mute", colors)
    } else {
        let mut words: String = text::joined("Vol ", text::decimal(level as u64).as_str());
        words.append("%");
        show_words(widget, art, words.as_str(), colors)
    }
}

/// A title, cut at the limit with an ellipsis.
pub open spec fn shortened(title: Seq<char>) -> Seq<char> {
    if title.len() > TITLE_LIMIT {
        title.take(TITLE_LIMIT - 1) + "\u{2026}"@
    } else {
        title
    }
}

fn shorten(title: &str) -> (short: String)
    ensures
        short@ == shortened(title@),
{
    if title.unicode_len() > TITLE_LIMIT {
        let kept: &str = title.substring_char(0, TITLE_LIMIT - 1);
        assert(kept@ =~= title@.take(TITLE_LIMIT - 1));
        text::joined(kept, "\u{2026}")
    } else {
        title.to_owned()
    }
}

/// What the title of the focused window shows. It has no glyph unless the style sets
/// one.
pub open spec fn title_face(widget: Widget, title: Seq<char>) -> PieceView {
    labelled(
        widget,
        "{icon} {title}"@,
        match widget.style.icon {
            IconSetting::Custom(custom) => GlyphView::Word(custom@),
            _ => GlyphView::Hidden,
        },
        seq![("{title}"@, shortened(title))],
        plain(widget.style),
    )
}

fn show_title(widget: &Widget, title: &str) -> (piece: Piece)
    ensures
        piece@ == title_face(*widget, title@),
{
    let short: String = shorten(title);
    let values = [("{title}", short.as_str())];
    assert(template::pairs(values@) =~= seq![("{title}"@, shortened(title@))]);
    let glyph: Glyph = match &widget.style.icon {
        IconSetting::Custom(custom) => Glyph::Word(custom.clone()),
        _ => Glyph::Hidden,
    };
    show_label(widget, "{icon} {title}", glyph, &values, plain_colors(&widget.style))
}

/// A piece that is a glyph alone.
pub open spec fn bare(widget: Widget, art: BuiltinIcon, colors: StateColors) -> PieceView {
    labelled(widget, "{icon}"@, glyph_of(widget.style, art, None), seq![], colors)
}

fn show_bare(widget: &Widget, art: BuiltinIcon, colors: StateColors) -> (piece: Piece)
    ensures
        piece@ == bare(*widget, art, colors),
{
    let values: [(&str, &str); 0] = [];
    assert(template::pairs(values@) =~= seq![]);
    show_label(widget, "{icon}", glyph_for(&widget.style, art, None), &values, colors)
}

/// What the notifications show: a bell, with a dot while some are pending, and
/// slashed and dim while they are not to disturb. The primary button shows the panel,
/// the other one turns do-not-disturb on or off.
pub open spec fn notifications_face(widget: Widget, state: (u32, bool)) -> PieceView {
    PieceView {
        dot: state.0 > 0,
        left: Some(Ask::ToggleNotificationPanel),
        right: Some(Ask::ToggleNotificationsDnd),
        ..bare(
            widget,
            if state.1 {
                BuiltinIcon::NotificationsOff
            } else {
                BuiltinIcon::Notifications
            },
            if state.1 {
                StateColors {
                    foreground: popup::dimmed(widget.style.foreground),
                    ..plain(widget.style)
                }
            } else {
                plain(widget.style)
            },
        )
    }
}

fn show_notifications(widget: &Widget, state: &Notifications) -> (piece: Piece)
    ensures
        piece@ == notifications_face(*widget, state@),
{
    let piece: Piece = if state.dnd() {
        let colors = StateColors {
            foreground: popup::dim_color(widget.style.foreground),
            ..plain_colors(&widget.style)
        };
        show_bare(widget, BuiltinIcon::NotificationsOff, colors)
    } else {
        show_bare(widget, BuiltinIcon::Notifications, plain_colors(&widget.style))
    };
    Piece {
        dot: state.count() > 0,
        left: Some(Command::ToggleNotificationPanel),
        right: Some(Command::ToggleNotificationsDnd),
        ..piece
    }
}

/// What pending updates show: nothing when there are none.
pub open spec fn updates_face(widget: Widget, count: u32) -> PieceView {
    labelled(
        widget,
        own_or(widget.format, "{icon} {count}"@),
        glyph_of(widget.style, BuiltinIcon::Updates, None),
        seq![("{count}"@, text::decimal_of(count as nat))],
        plain(widget.style),
    )
}

fn show_updates(widget: &Widget, count: u32) -> (piece: Piece)
    ensures
        piece@ == updates_face(*widget, count),
{
    let digits: String = text::decimal(count as u64);
    let values = [("{count}", digits.as_str())];
    assert(template::pairs(values@) =~= seq![("{count}"@, text::decimal_of(count as nat))]);
    show_label(
        widget,
        own_or_default(&widget.format, "{icon} {count}"),
        glyph_for(&widget.style, BuiltinIcon::Updates, None),
        &values,
        plain_colors(&widget.style),
    )
}

/// What the idle daemon shows: emphasized while it runs. A click starts or stops it.
pub open spec fn hypridle_face(widget: Widget, active: bool) -> PieceView {
    PieceView {
        left: Some(Ask::SetHypridle(!active)),
        right: None,
        tooltip: Some(
            if active {
                "Hypridle active"@
            } else {
                "Hypridle inactive"@
            },
        ),
        ..bare(
            widget,
            if active {
                BuiltinIcon::HypridleActive
            } else {
                BuiltinIcon::HypridleInactive
            },
            if active {
                accented(widget.style)
            } else {
                plain(widget.style)
            },
        )
    }
}

fn show_hypridle(widget: &Widget, active: bool) -> (piece: Piece)
    ensures
        piece@ == hypridle_face(*widget, active),
{
    let plain: StateColors = plain_colors(&widget.style);
    let piece: Piece = if active {
        let colors = StateColors { foreground: widget.style.accent, ..plain };
        show_bare(widget, BuiltinIcon::HypridleActive, colors)
    } else {
        show_bare(widget, BuiltinIcon::HypridleInactive, plain)
    };
    let told: &'static str = if active {
        "Hypridle active"
    } else {
        "Hypridle inactive"
    };
    Piece {
        left: Some(Command::SetHypridle(!active)),
        right: None,
        tooltip: Some(told.to_owned()),
        ..piece
    }
}

/// The tooltip of a widget that does not turn it off.
pub open spec fn tooltip_of(widget: Widget, told: Seq<char>) -> Option<Seq<char>> {
    if widget.tooltip == Some(false) {
        None
    } else {
        Some(told)
    }
}

/// What the power button shows.
pub open spec fn power_face(widget: Widget) -> PieceView {
    PieceView {
        tooltip: tooltip_of(widget, own_or(widget.tooltip_format, "Power menu"@)),
        ..bare(widget, BuiltinIcon::Power, plain(widget.style))
    }
}

fn wants_tooltip(widget: &Widget) -> (wanted: bool)
    ensures
        wanted == (widget.tooltip != Some(false)),
{
    match widget.tooltip {
        Some(wanted) => wanted,
        None => true,
    }
}

fn show_power(widget: &Widget) -> (piece: Piece)
    ensures
        piece@ == power_face(*widget),
{
    let piece: Piece = show_bare(widget, BuiltinIcon::Power, plain_colors(&widget.style));
    let tooltip: Option<String> = if wants_tooltip(widget) {
        Some(own_or_default(&widget.tooltip_format, "Power menu").to_owned())
    } else {
        None
    };
    Piece { tooltip, ..piece }
}

/// The place of the first profile of that name.
pub open spec fn profile_place(profiles: Seq<PowerProfileView>, name: Seq<char>) -> Option<int>
    decreases profiles.len(),
{
    if profiles.len() == 0 {
        None
    } else {
        match profile_place(profiles.drop_last(), name) {
            Some(i) => Some(i),
            None => if profiles.last().name == name {
                Some(profiles.len() - 1)
            } else {
                None
            },
        }
    }
}

proof fn lemma_profile_place(profiles: Seq<PowerProfileView>, name: Seq<char>)
    ensures
        profile_place(profiles, name) matches Some(i) ==> 0 <= i < profiles.len()
            && profiles[i].name == name,
    decreases profiles.len(),
{
    if profiles.len() > 0 {
        lemma_profile_place(profiles.drop_last(), name);
    }
}

proof fn lemma_profile_place_stays(profiles: Seq<PowerProfileView>, name: Seq<char>, n: int)
    requires
        0 <= n <= profiles.len(),
        profile_place(profiles.take(n), name) is Some,
    ensures
        profile_place(profiles, name) == profile_place(profiles.take(n), name),
    decreases profiles.len() - n,
{
    if n < profiles.len() {
        assert(profiles.take(n + 1).drop_last() =~= profiles.take(n));
        lemma_profile_place_stays(profiles, name, n + 1);
    } else {
        assert(profiles.take(n) =~= profiles);
    }
}

fn find_profile(profiles: &Vec<PowerProfile>, name: &str) -> (place: Option<usize>)
    ensures
        match place {
            Some(i) => i < profiles@.len() && profile_place(
                widget::profile_views(profiles@),
                name@,
            ) == Some(i as int),
            None => profile_place(widget::profile_views(profiles@), name@) is None,
        },
{
    let ghost all = widget::profile_views(profiles@);
    let mut i: usize = 0;
    while i < profiles.len()
        invariant
            i <= profiles@.len(),
            all == widget::profile_views(profiles@),
            profile_place(all.take(i as int), name@) is None,
        decreases profiles@.len() - i,
    {
        assert(all.take(i + 1).drop_last() =~= all.take(i as int));
        if text::same(profiles[i].name(), name) {
            proof {
                lemma_profile_place_stays(all, name@, i + 1);
            }
            return Some(i);
        }
        i += 1;
    }
    assert(all.take(i as int) =~= all);
    None
}

/// The profile that a step from the active one selects, `by` places on, round the
/// list.
pub open spec fn stepped(state: PowerProfilesView, by: int) -> Option<Ask> {
    match profile_place(state.profiles, state.active) {
        Some(i) => Some(
            Ask::SetPowerProfile(state.profiles[(i + by) % (state.profiles.len() as int)].name),
        ),
        None => None,
    }
}

/// A step back undoes a step on, as long as no two profiles share a name: where the
/// next profile is active, the previous one is the one that was.
pub proof fn lemma_a_step_back_undoes_a_step(state: PowerProfilesView)
    requires
        profile_place(state.profiles, state.active) is Some,
        forall|i: int, j: int|
            0 <= i < j < state.profiles.len() ==> (#[trigger] state.profiles[i]).name != (
            #[trigger] state.profiles[j]).name,
    ensures
        stepped(state, 1) matches Some(Ask::SetPowerProfile(next)) && stepped(
            state.activated(next),
            state.profiles.len() - 1,
        ) == Some(Ask::SetPowerProfile(state.active)),
{
    let n = state.profiles.len() as int;
    let i = profile_place(state.profiles, state.active)->0;
    lemma_profile_place(state.profiles, state.active);
    let j = (i + 1) % n;
    lemma_distinct_profile_place(state.profiles, j);
    assert((j + (n - 1)) % n == i) by (nonlinear_arith)
        requires
            0 <= i < n,
            j == (i + 1) % n,
    {
        if i + 1 < n {
            assert(j == i + 1);
            assert((i + n) % n == i);
        } else {
            assert(j == 0);
        }
    }
}

proof fn lemma_distinct_profile_place(profiles: Seq<PowerProfileView>, j: int)
    requires
        0 <= j < profiles.len(),
        forall|i: int, k: int|
            0 <= i < k < profiles.len() ==> (#[trigger] profiles[i]).name != (
            #[trigger] profiles[k]).name,
    ensures
        profile_place(profiles, profiles[j].name) == Some(j),
    decreases profiles.len(),
{
    let init = profiles.drop_last();
    let name = profiles[j].name;
    assert forall|i: int, k: int| 0 <= i < k < init.len() implies (#[trigger] init[i]).name != (
    #[trigger] init[k]).name by {
        assert(init[i] == profiles[i] && init[k] == profiles[k]);
    }
    if j < init.len() {
        assert(init[j] == profiles[j]);
        lemma_distinct_profile_place(init, j);
    } else {
        lemma_profile_place(init, name);
        if profile_place(init, name) is Some {
            let i = profile_place(init, name)->0;
            assert(profiles[i].name == name);
        }
    }
}

/// The text of the entry `name` of an icon table, or else of its entry `default`.
pub open spec fn named_icon(icons: Option<FormatIconsConfig>, name: Seq<char>) -> Option<Seq<char>> {
    match icons {
        Some(FormatIconsConfig::Named(named)) => match entry(named@, name) {
            Some(icon) => Some(icon),
            None => entry(named@, "default"@),
        },
        _ => None,
    }
}

/// The text of the first entry `name`.
pub open spec fn entry(entries: Seq<(String, String)>, name: Seq<char>) -> Option<Seq<char>>
    decreases entries.len(),
{
    if entries.len() == 0 {
        None
    } else if entries[0].0@ == name {
        Some(entries[0].1@)
    } else {
        entry(entries.skip(1), name)
    }
}

fn find_entry<'a>(entries: &'a Vec<(String, String)>, name: &str) -> (icon: Option<&'a str>)
    ensures
        text::optional_str(icon) == entry(entries@, name@),
{
    let mut i: usize = 0;
    assert(entries@.skip(0) =~= entries@);
    while i < entries.len()
        invariant
            i <= entries@.len(),
            entry(entries@, name@) == entry(entries@.skip(i as int), name@),
        decreases entries@.len() - i,
    {
        assert(entries@.skip(i as int)[0] == entries@[i as int]);
        assert(entries@.skip(i as int).skip(1) =~= entries@.skip(i + 1));
        if text::same(entries[i].0.as_str(), name) {
            return Some(entries[i].1.as_str());
        }
        i += 1;
    }
    None
}

fn named_word<'a>(icons: &'a Option<FormatIconsConfig>, name: &str) -> (word: Option<&'a str>)
    ensures
        text::optional_str(word) == named_icon(*icons, name@),
{
    match icons {
        Some(FormatIconsConfig::Named(named)) => match find_entry(named, name) {
            Some(icon) => Some(icon),
            None => find_entry(named, "default"),
        },
        _ => None,
    }
}

/// The built-in icon of a power profile.
pub open spec fn profile_art(name: Seq<char>) -> BuiltinIcon {
    if name == "performance"@ {
        BuiltinIcon::PowerProfilePerformance
    } else if name == "power-saver"@ {
        BuiltinIcon::PowerProfileSaver
    } else {
        BuiltinIcon::PowerProfileBalanced
    }
}

/// What the placeholders of the power profiles stand for: the active profile and the
/// drivers behind it.
pub open spec fn profile_values(state: PowerProfilesView) -> Seq<(Seq<char>, Seq<char>)> {
    let profile = match profile_place(state.profiles, state.active) {
        Some(i) => state.profiles[i],
        None => PowerProfileView {
            name: state.active,
            driver: seq![],
            cpu_driver: seq![],
            platform_driver: seq![],
        },
    };
    seq![
        ("{profile}"@, state.active),
        ("{driver}"@, profile.driver),
        ("{cpu_driver}"@, profile.cpu_driver),
        ("{platform_driver}"@, profile.platform_driver),
    ]
}

/// What the power profiles show. The primary button selects the next profile, the
/// other one the previous.
pub open spec fn profiles_face(widget: Widget, state: PowerProfilesView) -> PieceView {
    let icon = named_icon(widget.format_icons, state.active);
    PieceView {
        left: stepped(state, 1),
        right: stepped(state, state.profiles.len() - 1),
        tooltip: tooltip_of(
            widget,
            template::filled(
                own_or(
                    widget.tooltip_format,
                    "Power profile: {profile}\nDriver: {driver}"@,
                ),
                profile_values(state).push(
                    (
                        "{icon}"@,
                        match icon {
                            Some(icon) => icon,
                            None => seq![],
                        },
                    ),
                ),
            ),
        ),
        ..labelled(
            widget,
            own_or(widget.format, "{icon}"@),
            glyph_of(widget.style, profile_art(state.active), icon),
            profile_values(state),
            plain(widget.style),
        )
    }
}

fn step_profile(profiles: &Vec<PowerProfile>, place: usize, by: usize) -> (command: Option<Command>)
    requires
        place < profiles@.len(),
        by < profiles@.len(),
    ensures
        optional_ask(command) == Some(
            Ask::SetPowerProfile(
                widget::profile_views(profiles@)[(place + by) % (profiles@.len() as int)].name,
            ),
        ),
{
    let n: usize = profiles.len();
    let next: usize = if by < n - place {
        place + by
    } else {
        by - (n - place)
    };
    assert(next == (place + by) % (n as int)) by (nonlinear_arith)
        requires
            place < n,
            by < n,
            next == if by < n - place {
                place + by
            } else {
                by - (n - place)
            },
    ;
    assert(widget::profile_views(profiles@)[next as int] == profiles@[next as int]@);
    Some(Command::SetPowerProfile(profiles[next].name().to_owned()))
}

fn show_profiles(widget: &Widget, state: &PowerProfilesState) -> (piece: Piece)
    ensures
        piece@ == profiles_face(*widget, state@),
{
    let profiles: &Vec<PowerProfile> = state.profiles();
    let active: &str = state.active_name();
    let place: Option<usize> = find_profile(profiles, active);
    let (driver, cpu_driver, platform_driver): (&str, &str, &str) = match place {
        Some(i) => {
            assert(widget::profile_views(profiles@)[i as int] == profiles@[i as int]@);
            (profiles[i].driver(), profiles[i].cpu_driver(), profiles[i].platform_driver())
        },
        None => {
            proof {
                reveal_strlit("");
                assert(""@ =~= seq![]);
            }
            ("", "", "")
        },
    };
    let (left, right): (Option<Command>, Option<Command>) = match place {
        Some(i) => {
            let n: usize = profiles.len();
            if n == 1 {
                assert((i + 1) % (n as int) == (i + 0) % (n as int));
                (step_profile(profiles, i, 0), step_profile(profiles, i, 0))
            } else {
                (step_profile(profiles, i, 1), step_profile(profiles, i, n - 1))
            }
        },
        None => (None, None),
    };
    let icon: Option<&str> = named_word(&widget.format_icons, active);
    let art: BuiltinIcon = if text::same(active, "performance") {
        BuiltinIcon::PowerProfilePerformance
    } else if text::same(active, "power-saver") {
        BuiltinIcon::PowerProfileSaver
    } else {
        BuiltinIcon::PowerProfileBalanced
    };
    let values = [
        ("{profile}", active),
        ("{driver}", driver),
        ("{cpu_driver}", cpu_driver),
        ("{platform_driver}", platform_driver),
    ];
    assert(template::pairs(values@) =~= profile_values(state@));
    let piece: Piece = show_label(
        widget,
        own_or_default(&widget.format, "{icon}"),
        glyph_for(&widget.style, art, icon),
        &values,
        plain_colors(&widget.style),
    );
    let tooltip: Option<String> = if wants_tooltip(widget) {
        let shown: &str = match icon {
            Some(icon) => icon,
            None => {
                proof {
                    reveal_strlit("");
                    assert(""@ =~= seq![]);
                }
                ""
            },
        };
        let told = [
            ("{profile}", active),
            ("{driver}", driver),
            ("{cpu_driver}", cpu_driver),
            ("{platform_driver}", platform_driver),
            ("{icon}", shown),
        ];
        assert(template::pairs(told@) =~= profile_values(state@).push(("{icon}"@, shown@)));
        Some(
            template::fill(
                own_or_default(
                    &widget.tooltip_format,
                    "Power profile: {profile}\nDriver: {driver}",
                ),
                &told,
            ),
        )
    } else {
        None
    };
    Piece { left, right, tooltip, ..piece }
}

/// The workspace that is active on the monitor of a widget, or, where it has none, in
/// the session.
pub open spec fn active_on(monitor: Option<String>, workspaces: Workspaces) -> i32 {
    match monitor {
        Some(monitor) => match message::shown_on(workspaces.monitors(), monitor@) {
            Some(active) => active,
            None => workspaces.focused(),
        },
        None => workspaces.focused(),
    }
}

/// Whether a widget shows a workspace that is tied to a monitor, or to none: one for
/// a monitor shows its own.
pub open spec fn shows_workspace(widget: Option<String>, tied: Option<String>) -> bool {
    match (widget, tied) {
        (Some(own), Some(tied)) => own@ == tied@,
        _ => true,
    }
}

/// What a workspace shows: in brackets and emphasized when it is active. A click
/// switches to it.
pub open spec fn workspace_face(widget: Widget, id: i32, active: bool) -> PieceView {
    PieceView {
        lead: if active {
            "["@ + text::signed_decimal_of(id as int) + "]"@
        } else {
            text::signed_decimal_of(id as int)
        },
        glyph: GlyphView::Hidden,
        tail: seq![],
        dot: false,
        colors: if active {
            accented(widget.style)
        } else {
            plain(widget.style)
        },
        outline: outline_of(widget.style),
        left: Some(Ask::SwitchWorkspace(id)),
        right: None,
        increase: None,
        decrease: None,
        tooltip: None,
    }
}

fn show_workspace(widget: &Widget, id: i32, active: bool) -> (piece: Piece)
    ensures
        piece@ == workspace_face(*widget, id, active),
{
    let plain: StateColors = plain_colors(&widget.style);
    let digits: String = text::signed_decimal(id as i64);
    let (lead, colors): (String, StateColors) = if active {
        let mut lead: String = text::joined("[", digits.as_str());
        lead.append("]");
        (lead, StateColors { foreground: widget.style.accent, ..plain })
    } else {
        (digits, plain)
    };
    Piece {
        lead,
        glyph: Glyph::Hidden,
        tail: String::new(),
        dot: false,
        colors,
        outline: outline(&widget.style),
        left: Some(Command::SwitchWorkspace(id)),
        right: None,
        increase: None,
        decrease: None,
        tooltip: None,
    }
}

/// What the workspaces show, in order.
pub open spec fn workspace_faces(
    widget: Widget,
    listed: Seq<(i32, Option<String>)>,
    active: i32,
) -> Seq<PieceView>
    decreases listed.len(),
{
    if listed.len() == 0 {
        seq![]
    } else {
        let before = workspace_faces(widget, listed.drop_last(), active);
        let (id, tied) = listed.last();
        if shows_workspace(widget.monitor, tied) {
            before.push(workspace_face(widget, id, id == active))
        } else {
            before
        }
    }
}

fn show_workspaces(widget: &Widget, workspaces: &Workspaces) -> (pieces: Vec<Piece>)
    ensures
        piece_views(pieces@) == workspace_faces(
            *widget,
            workspaces.tied(),
            active_on(widget.monitor, *workspaces),
        ),
{
    let active: i32 = match &widget.monitor {
        Some(monitor) => match workspaces.active_for(monitor.as_str()) {
            Some(active) => active,
            None => workspaces.active(),
        },
        None => workspaces.active(),
    };
    let listed: &Vec<(i32, Option<String>)> = workspaces.listed();
    let mut pieces: Vec<Piece> = Vec::new();
    let mut i: usize = 0;
    assert(piece_views(pieces@) =~= seq![]);
    while i < listed.len()
        invariant
            i <= listed@.len(),
            piece_views(pieces@) == workspace_faces(*widget, listed@.take(i as int), active),
        decreases listed@.len() - i,
    {
        assert(listed@.take(i + 1).drop_last() =~= listed@.take(i as int));
        let id: i32 = listed[i].0;
        let shown: bool = match (&widget.monitor, &listed[i].1) {
            (Some(own), Some(tied)) => text::same(own.as_str(), tied.as_str()),
            _ => true,
        };
        if shown {
            let ghost before = pieces@;
            let piece: Piece = show_workspace(widget, id, id == active);
            pieces.push(piece);
            assert(piece_views(pieces@) =~= piece_views(before).push(piece@));
        }
        i += 1;
    }
    assert(listed@.take(i as int) =~= listed@);
    pieces
}

/// What a tray item shows: its icon, or its initial where it has none. The primary
/// button activates it, or opens its menu where it is all menu; the other button
/// opens its menu.
pub open spec fn tray_face(widget: Widget, item: TrayItemView, place: int) -> PieceView {
    let open = Ask::OpenTrayMenu { key: item.key, x: 0, y: 0 };
    PieceView {
        lead: if item.icon is Some {
            seq![]
        } else {
            item.initial()
        },
        glyph: if item.icon is Some {
            GlyphView::Item(place)
        } else {
            GlyphView::Hidden
        },
        tail: seq![],
        dot: false,
        colors: if item.status == TrayStatus::NeedsAttention {
            widget.style.attention
        } else {
            plain(widget.style)
        },
        outline: outline_of(widget.style),
        left: Some(
            if item.menu == TrayMenuMode::Primary {
                open
            } else {
                Ask::ActivateTrayItem { key: item.key, x: 0, y: 0 }
            },
        ),
        right: Some(open),
        increase: None,
        decrease: None,
        tooltip: Some(item.title),
    }
}

fn show_tray_item(widget: &Widget, item: &TrayItem, place: usize) -> (piece: Piece)
    ensures
        piece@ == tray_face(*widget, item@, place as int),
{
    let (lead, glyph): (String, Glyph) = match item.icon() {
        Some(_) => (String::new(), Glyph::Item(place)),
        None => (item.fallback_label(), Glyph::Hidden),
    };
    let colors: StateColors = match item.status() {
        TrayStatus::NeedsAttention => widget.style.attention,
        _ => plain_colors(&widget.style),
    };
    let left: Command = match item.menu() {
        TrayMenuMode::Primary => Command::OpenTrayMenu { key: item.key().to_owned(), x: 0, y: 0 },
        _ => Command::ActivateTrayItem { key: item.key().to_owned(), x: 0, y: 0 },
    };
    Piece {
        lead,
        glyph,
        tail: String::new(),
        dot: false,
        colors,
        outline: outline(&widget.style),
        left: Some(left),
        right: Some(Command::OpenTrayMenu { key: item.key().to_owned(), x: 0, y: 0 }),
        increase: None,
        decrease: None,
        tooltip: Some(item.title().to_owned()),
    }
}

/// What the tray shows, in order.
pub open spec fn tray_faces(widget: Widget, items: Seq<TrayItemView>) -> Seq<PieceView> {
    Seq::new(items.len(), |i: int| tray_face(widget, items[i], i))
}

fn show_tray(widget: &Widget, state: &TrayState) -> (pieces: Vec<Piece>)
    ensures
        piece_views(pieces@) == tray_faces(*widget, state@),
{
    let items: &Vec<TrayItem> = state.items();
    let mut pieces: Vec<Piece> = Vec::new();
    let mut i: usize = 0;
    while i < items.len()
        invariant
            i <= items@.len(),
            tray::item_views(items@) == state@,
            pieces@.len() == i,
            forall|k: int|
                0 <= k < i ==> (#[trigger] pieces@[k])@ == tray_face(*widget, state@[k], k),
        decreases items@.len() - i,
    {
        assert(state@[i as int] == items@[i as int]@);
        pieces.push(show_tray_item(widget, &items[i], i));
        i += 1;
    }
    assert(piece_views(pieces@) =~= tray_faces(*widget, state@));
    pieces
}

/// The latest news on a subject.
pub open spec fn latest(news: Seq<&Msg>, subject: Seq<char>) -> Option<Msg>
    decreases news.len(),
{
    if news.len() == 0 {
        None
    } else if news.last().subject() == subject {
        Some(*news.last())
    } else {
        latest(news.drop_last(), subject)
    }
}

fn find_latest<'a>(news: &[&'a Msg], subject: &str) -> (found: Option<&'a Msg>)
    ensures
        match found {
            Some(msg) => latest(news@, subject@) == Some(*msg),
            None => latest(news@, subject@) is None,
        },
{
    let mut n: usize = news.len();
    assert(news@.take(n as int) =~= news@);
    while n > 0
        invariant
            n <= news@.len(),
            latest(news@, subject@) == latest(news@.take(n as int), subject@),
        decreases n,
    {
        let msg: &'a Msg = news[n - 1];
        assert(news@.take(n as int).drop_last() =~= news@.take(n - 1));
        assert(news@.take(n as int).last() == msg);
        if text::same(message::snapshot_key(msg).as_str(), subject) {
            return Some(msg);
        }
        n -= 1;
    }
    None
}

/// What news a widget shows something of.
pub open spec fn subject_of(widget: Widget) -> Option<Seq<char>> {
    match widget.kind {
        WidgetKind::Workspaces => Some("workspaces"@),
        WidgetKind::Clock => Some("tick"@),
        WidgetKind::Battery => Some("battery"@),
        WidgetKind::Backlight => Some("backlight"@),
        WidgetKind::System => Some("system"@),
        WidgetKind::Network => Some("network"@),
        WidgetKind::Tray => Some("tray"@),
        WidgetKind::Title => match widget.monitor {
            Some(monitor) => Some("aw:"@ + monitor@),
            None => None,
        },
        WidgetKind::Bluetooth => Some("bluetooth"@),
        WidgetKind::Volume => Some("volume"@),
        WidgetKind::Notifications => Some("notifications"@),
        WidgetKind::PowerProfilesDaemon => Some("power-profiles"@),
        WidgetKind::Updates => Some("updates"@),
        WidgetKind::Hypridle => Some("hypridle"@),
        WidgetKind::Power => None,
    }
}

fn subject_for(widget: &Widget) -> (subject: Option<String>)
    ensures
        text::optional(subject) == subject_of(*widget),
{
    let word: &'static str = match widget.kind {
        WidgetKind::Workspaces => "workspaces",
        WidgetKind::Clock => "tick",
        WidgetKind::Battery => "battery",
        WidgetKind::Backlight => "backlight",
        WidgetKind::System => "system",
        WidgetKind::Network => "network",
        WidgetKind::Tray => "tray",
        WidgetKind::Title => {
            return match &widget.monitor {
                Some(monitor) => Some(text::joined("aw:", monitor.as_str())),
                None => None,
            };
        },
        WidgetKind::Bluetooth => "bluetooth",
        WidgetKind::Volume => "volume",
        WidgetKind::Notifications => "notifications",
        WidgetKind::PowerProfilesDaemon => "power-profiles",
        WidgetKind::Updates => "updates",
        WidgetKind::Hypridle => "hypridle",
        WidgetKind::Power => {
            return None;
        },
    };
    Some(word.to_owned())
}

/// What a widget shows of some news. A source that is not there shows nothing.
pub open spec fn faces_of(widget: Widget, msg: Msg) -> Seq<PieceView> {
    match msg {
        Msg::Workspaces(workspaces) => workspace_faces(
            widget,
            workspaces.tied(),
            active_on(widget.monitor, workspaces),
        ),
        Msg::Tray(state) => tray_faces(widget, state@),
        Msg::Tick(seconds) => seq![clock_face(widget, seconds)],
        Msg::Battery(Some(battery)) => seq![battery_face(widget, battery@)],
        Msg::Backlight(Some(level)) => seq![backlight_face(widget, level)],
        Msg::System(stats) => seq![system_face(widget, stats)],
        Msg::Network(Some(network)) => seq![network_face(widget, network@)],
        Msg::Bluetooth(adapter) => seq![
            worded(
                widget,
                BuiltinIcon::Bluetooth,
                bluetooth_words(adapter),
                plain(widget.style),
            ),
        ],
        Msg::ActiveWindow { window: Some(window), .. } => seq![title_face(widget, window.title@)],
        Msg::Volume(Some(volume)) => seq![volume_face(widget, volume@)],
        Msg::Notifications(Some(state)) => seq![notifications_face(widget, state@)],
        Msg::PowerProfiles(Some(state)) => seq![profiles_face(widget, state@)],
        Msg::Updates(Some(count)) => if count > 0 {
            seq![updates_face(widget, count)]
        } else {
            seq![]
        },
        Msg::Hypridle(active) => seq![hypridle_face(widget, active)],
        _ => seq![],
    }
}

fn one(piece: Piece) -> (pieces: Vec<Piece>)
    ensures
        piece_views(pieces@) == seq![piece@],
{
    let mut pieces: Vec<Piece> = Vec::new();
    pieces.push(piece);
    assert(piece_views(pieces@) =~= seq![piece@]);
    pieces
}

fn show_news(widget: &Widget, msg: &Msg) -> (pieces: Vec<Piece>)
    ensures
        piece_views(pieces@) == faces_of(*widget, *msg),
{
    match msg {
        Msg::Workspaces(workspaces) => show_workspaces(widget, workspaces),
        Msg::Tray(state) => show_tray(widget, state),
        Msg::Tick(seconds) => one(show_clock(widget, *seconds)),
        Msg::Battery(Some(battery)) => one(show_battery(widget, battery)),
        Msg::Backlight(Some(level)) => one(show_backlight(widget, *level)),
        Msg::System(stats) => one(show_system(widget, stats)),
        Msg::Network(Some(network)) => one(show_network(widget, network)),
        Msg::Bluetooth(adapter) => one(show_bluetooth(widget, adapter)),
        Msg::ActiveWindow { window: Some(window), .. } => one(
            show_title(widget, window.title.as_str()),
        ),
        Msg::Volume(Some(volume)) => one(show_volume(widget, volume)),
        Msg::Notifications(Some(state)) => one(show_notifications(widget, state)),
        Msg::PowerProfiles(Some(state)) => one(show_profiles(widget, state)),
        Msg::Updates(Some(count)) => if *count > 0 {
            one(show_updates(widget, *count))
        } else {
            let pieces: Vec<Piece> = Vec::new();
            assert(piece_views(pieces@) =~= seq![]);
            pieces
        },
        Msg::Hypridle(active) => one(show_hypridle(widget, *active)),
        _ => {
            let pieces: Vec<Piece> = Vec::new();
            assert(piece_views(pieces@) =~= seq![]);
            pieces
        },
    }
}

/// Whether there is something to see of a piece.
pub open spec fn is_visible(piece: PieceView) -> bool {
    piece.glyph != GlyphView::Hidden || piece.lead.len() > 0
}

/// The face of a widget: what is to be seen of the latest news on its subject. The
/// power button needs no news.
pub open spec fn face_of(widget: Widget, news: Seq<&Msg>) -> Seq<PieceView> {
    let pieces = match subject_of(widget) {
        Some(subject) => match latest(news, subject) {
            Some(msg) => faces_of(widget, msg),
            None => seq![],
        },
        None => if widget.kind == WidgetKind::Power {
            seq![power_face(widget)]
        } else {
            seq![]
        },
    };
    pieces.filter(|p: PieceView| is_visible(p))
}

fn keep_visible(pieces: Vec<Piece>) -> (visible: Vec<Piece>)
    ensures
        piece_views(visible@) == piece_views(pieces@).filter(|p: PieceView| is_visible(p)),
{
    let ghost all = piece_views(pieces@);
    let ghost given = pieces@;
    let mut rest: Vec<Piece> = pieces;
    let mut visible: Vec<Piece> = Vec::new();
    let n: usize = rest.len();
    let mut i: usize = 0;
    assert(given.skip(0) =~= given);
    assert(all.take(0) =~= seq![]);
    reveal(Seq::filter);
    assert(piece_views(visible@) =~= all.take(0).filter(|p: PieceView| is_visible(p)));
    while i < n
        invariant
            i <= n == given.len(),
            all == piece_views(given),
            rest@ == given.skip(i as int),
            piece_views(visible@) == all.take(i as int).filter(|p: PieceView| is_visible(p)),
        decreases n - i,
    {
        let piece: Piece = rest.remove(0);
        assert(rest@ =~= given.skip(i + 1));
        assert(all.take(i + 1).drop_last() =~= all.take(i as int));
        assert(all.take(i + 1).last() == piece@);
        reveal(Seq::filter);
        let seen: bool = match &piece.glyph {
            Glyph::Hidden => !piece.lead.as_str().is_empty(),
            _ => true,
        };
        if seen {
            let ghost before = visible@;
            visible.push(piece);
            assert(piece_views(visible@) =~= piece_views(before).push(piece@));
        }
        i += 1;
    }
    assert(all.take(n as int) =~= all);
    visible
}

/// The face of a widget.
pub fn face(widget: &Widget, news: &[&Msg]) -> (pieces: Vec<Piece>)
    ensures
        piece_views(pieces@) == face_of(*widget, news@),
{
    let pieces: Vec<Piece> = match subject_for(widget) {
        Some(subject) => match find_latest(news, subject.as_str()) {
            Some(msg) => show_news(widget, msg),
            None => {
                let pieces: Vec<Piece> = Vec::new();
                assert(piece_views(pieces@) =~= seq![]);
                pieces
            },
        },
        None => match widget.kind {
            WidgetKind::Power => one(show_power(widget)),
            _ => {
                let pieces: Vec<Piece> = Vec::new();
                assert(piece_views(pieces@) =~= seq![]);
                pieces
            },
        },
    };
    keep_visible(pieces)
}

/// Whether a message is one that a widget shows something of: each kind of widget has
/// its own kind of message, and the title follows the messages of its own monitor.
pub open spec fn is_about(widget: Widget, msg: Msg) -> bool {
    match widget.kind {
        WidgetKind::Workspaces => msg is Workspaces,
        WidgetKind::Clock => msg is Tick,
        WidgetKind::Battery => msg is Battery,
        WidgetKind::Backlight => msg is Backlight,
        WidgetKind::System => msg is System,
        WidgetKind::Network => msg is Network,
        WidgetKind::Tray => msg is Tray,
        WidgetKind::Title => match (widget.monitor, msg) {
            (Some(own), Msg::ActiveWindow { monitor, .. }) => own@ == monitor@,
            _ => false,
        },
        WidgetKind::Bluetooth => msg is Bluetooth,
        WidgetKind::Volume => msg is Volume,
        WidgetKind::Notifications => msg is Notifications,
        WidgetKind::PowerProfilesDaemon => msg is PowerProfiles,
        WidgetKind::Updates => msg is Updates,
        WidgetKind::Hypridle => msg is Hypridle,
        WidgetKind::Power => false,
    }
}

/// Whether the message at place `i` is the last one of some news that a widget shows
/// something of.
pub open spec fn tells(widget: Widget, news: Seq<&Msg>, i: int) -> bool {
    &&& 0 <= i < news.len()
    &&& is_about(widget, *news[i])
    &&& forall|j: int| i < j < news.len() ==> !is_about(widget, *(#[trigger] news[j]))
}

proof fn lemma_about_by_subject(widget: Widget, msg: Msg)
    ensures
        is_about(widget, msg) <==> subject_of(widget) == Some(msg.subject()),
{
    reveal_strlit("tick");
    reveal_strlit("workspaces");
    reveal_strlit("battery");
    reveal_strlit("backlight");
    reveal_strlit("system");
    reveal_strlit("network");
    reveal_strlit("bluetooth");
    reveal_strlit("tray");
    reveal_strlit("tray-menu");
    reveal_strlit("tray-menu-unavail");
    reveal_strlit("volume");
    reveal_strlit("notifications");
    reveal_strlit("power-profiles");
    reveal_strlit("updates");
    reveal_strlit("hypridle");
    reveal_strlit("aw:");
    let own = subject_of(widget);
    let its = msg.subject();
    if own is Some {
        let own = own->0;
        if own.len() > 2 && its.len() > 2 && (own[0] != its[0] || own[1] != its[1] || own[2]
            != its[2]) {
            assert(own != its);
        }
        if own.len() != its.len() {
            assert(own != its);
        }
        match (widget.monitor, msg) {
            (Some(monitor), Msg::ActiveWindow { monitor: other, .. }) => {
                let a = "aw:"@ + monitor@;
                let b = "aw:"@ + other@;
                assert(a.skip(3) =~= monitor@);
                assert(b.skip(3) =~= other@);
            },
            _ => {},
        }
    }
}

proof fn lemma_latest(widget: Widget, news: Seq<&Msg>, i: int)
    requires
        tells(widget, news, i),
    ensures
        subject_of(widget) is Some,
        latest(news, subject_of(widget)->0) == Some(*news[i]),
    decreases news.len(),
{
    let last = *news.last();
    lemma_about_by_subject(widget, last);
    lemma_about_by_subject(widget, *news[i]);
    if i < news.len() - 1 {
        assert(!is_about(widget, *news[news.len() - 1]));
        let init = news.drop_last();
        assert forall|j: int| i < j < init.len() implies !is_about(widget, *(#[trigger] init[j])) by {
            assert(init[j] == news[j]);
        }
        lemma_latest(widget, init, i);
    }
}

proof fn lemma_shown(widget: Widget, news: &[&Msg], pieces: Vec<Piece>, i: int)
    requires
        call_ensures(face, (&widget, news), pieces),
        tells(widget, news@, i),
    ensures
        piece_views(pieces@) == faces_of(widget, *news@[i]).filter(|p: PieceView| is_visible(p)),
{
    lemma_latest(widget, news@, i);
}

proof fn lemma_shown_alone(
    widget: Widget,
    news: &[&Msg],
    pieces: Vec<Piece>,
    i: int,
    piece: PieceView,
)
    requires
        call_ensures(face, (&widget, news), pieces),
        tells(widget, news@, i),
        faces_of(widget, *news@[i]) == seq![piece],
    ensures
        pieces@.len() == if is_visible(piece) {
            1int
        } else {
            0
        },
        is_visible(piece) ==> pieces@[0]@ == piece,
{
    lemma_shown(widget, news, pieces, i);
    lemma_filter_alone(piece);
    assert(piece_views(pieces@).len() == pieces@.len());
    if is_visible(piece) {
        assert(piece_views(pieces@)[0] == pieces@[0]@);
    }
}

proof fn lemma_filter_alone(piece: PieceView)
    ensures
        seq![piece].filter(|p: PieceView| is_visible(p)) == if is_visible(piece) {
            seq![piece]
        } else {
            seq![]
        },
{
    reveal(Seq::filter);
    let all = seq![piece];
    let none = all.drop_last();
    assert(none.len() == 0);
    assert(none.filter(|p: PieceView| is_visible(p)) =~= seq![]);
    assert(all.last() == piece);
    assert(Seq::<PieceView>::empty().push(piece) =~= seq![piece]);
}

/// A widget without news shows nothing, but for the power button, which needs none.
pub proof fn lemma_without_news_nothing_shows(widget: Widget, news: &[&Msg], pieces: Vec<Piece>)
    requires
        call_ensures(face, (&widget, news), pieces),
        widget.kind != WidgetKind::Power,
        forall|j: int| 0 <= j < news@.len() ==> !is_about(widget, *(#[trigger] news@[j])),
    ensures
        pieces@.len() == 0,
{
    if subject_of(widget) is Some {
        lemma_no_latest(widget, news@);
    }
    reveal(Seq::filter);
    assert(piece_views(pieces@).len() == pieces@.len());
}

proof fn lemma_no_latest(widget: Widget, news: Seq<&Msg>)
    requires
        subject_of(widget) is Some,
        forall|j: int| 0 <= j < news.len() ==> !is_about(widget, *(#[trigger] news[j])),
    ensures
        latest(news, subject_of(widget)->0) is None,
    decreases news.len(),
{
    if news.len() > 0 {
        lemma_about_by_subject(widget, *news[news.len() - 1]);
        let init = news.drop_last();
        assert forall|j: int| 0 <= j < init.len() implies !is_about(widget, *(#[trigger] init[j])) by {
            assert(init[j] == news[j]);
        }
        lemma_no_latest(widget, init);
    }
}

/// What a widget shows depends on the last message about it alone.
pub proof fn lemma_only_the_last_news_counts(
    widget: Widget,
    news: &[&Msg],
    i: int,
    others: &[&Msg],
    j: int,
    pieces: Vec<Piece>,
    same: Vec<Piece>,
)
    requires
        call_ensures(face, (&widget, news), pieces),
        call_ensures(face, (&widget, others), same),
        tells(widget, news@, i),
        tells(widget, others@, j),
        *news@[i] == *others@[j],
    ensures
        piece_views(pieces@) == piece_views(same@),
{
    lemma_shown(widget, news, pieces, i);
    lemma_shown(widget, others, same, j);
}

/// A label that begins with the glyph and goes on with text: with a glyph, the text
/// stands behind it; without one, it stands alone, without blanks around it.
proof fn lemma_glyph_then_text(
    widget: Widget,
    format: Seq<char>,
    behind: Seq<char>,
    glyph: GlyphView,
    values: Seq<(Seq<char>, Seq<char>)>,
    colors: StateColors,
)
    requires
        format == "{icon}"@ + behind,
    ensures
        ({
            let piece = labelled(widget, format, glyph, values, colors);
            let tail = template::filled(behind, values);
            if glyph == GlyphView::Hidden {
                &&& piece.lead == text::trimmed(tail)
                &&& piece.glyph == GlyphView::Hidden
                &&& piece.tail == Seq::<char>::empty()
            } else {
                &&& piece.lead == Seq::<char>::empty()
                &&& piece.glyph == glyph
                &&& piece.tail == tail
            }
        }),
{
    let needle = "{icon}"@;
    assert(needle.is_prefix_of(format));
    assert(format.skip(needle.len() as int) =~= behind);
    let before = Seq::<char>::empty();
    assert(template::around(format, needle) == Some((before, behind)));
    assert(template::filled(before, values) =~= before);
    assert(before + template::filled(behind, values) =~= template::filled(behind, values));
}

/// The glyph of a widget: the text or nothing that its style puts there, or else its
/// own icon.
pub open spec fn wears(style: WidgetStyle, glyph: Glyph, art: BuiltinIcon) -> bool {
    &&& style.icon is Default ==> glyph == Glyph::Art(art)
    &&& style.icon is Hidden ==> glyph is Hidden
    &&& style.icon matches IconSetting::Custom(custom) ==> (glyph matches Glyph::Word(word)
        && word@ == custom@)
}

/// The text of a piece beside its glyph, or alone where the style hides the glyph.
pub open spec fn says(style: WidgetStyle, piece: Piece, words: Seq<char>) -> bool {
    if style.icon is Hidden {
        piece.lead@ == text::trimmed(words) && piece.tail@ == Seq::<char>::empty()
    } else {
        piece.lead@ == Seq::<char>::empty() && piece.tail@ == " "@ + words
    }
}

/// Whether a click on a piece runs the programs that are configured for its widget, and
/// scrolling over it asks for nothing.
pub open spec fn launches(widget: Widget, piece: Piece) -> bool {
    &&& match widget.on_click {
        Some(program) => piece.left matches Some(Command::RunProgram(run)) && run@ == program@,
        None => piece.left is None,
    }
    &&& match widget.on_click_right {
        Some(program) => piece.right matches Some(Command::RunProgram(run)) && run@ == program@,
        None => piece.right is None,
    }
    &&& piece.increase is None && piece.decrease is None
}

/// Whether a piece has the outline of its widget's style.
pub open spec fn is_outlined(style: WidgetStyle, piece: Piece) -> bool {
    &&& piece.outline.padding == style.padding
    &&& piece.outline.radius == style.radius
    &&& piece.outline.border_width == style.border_width
}

/// Whether a piece has the colors of its widget's style.
pub open spec fn is_plain(style: WidgetStyle, piece: Piece) -> bool {
    &&& piece.colors.background == style.background
    &&& piece.colors.foreground == style.foreground
    &&& piece.colors.border == style.border
}

/// Blanks at the ends of a text do not count when it stands alone.
proof fn lemma_blank_before(words: Seq<char>)
    ensures
        text::trimmed(" "@ + words) == text::trimmed(words),
{
    reveal_strlit(" ");
    let all = " "@ + words;
    assert(all[0] == ' ');
    assert(all.skip(1) =~= words);
}

proof fn lemma_one_value(key: Seq<char>, value: Seq<char>, behind: Seq<char>, after: Seq<char>)
    requires
        key.len() > 0,
        key[0] == '{',
        behind == " "@ + (key + after),
        !after.contains('{'),
    ensures
        template::filled(behind, seq![(key, value)]) == " "@ + (value + after),
{
    let values = seq![(key, value)];
    reveal_strlit(" ");
    assert(!(" "@).contains('{'));
    template::lemma_text_before_a_brace_passes(" "@, key + after, values);
    template::lemma_a_placeholder_stands_for_its_value(values, 0, after);
    template::lemma_plain_text_stays(after, values);
}

proof fn lemma_worded(widget: Widget, art: BuiltinIcon, words: Seq<char>, colors: StateColors, piece: Piece)
    requires
        piece@ == worded(widget, art, words, colors),
    ensures
        says(widget.style, piece, words),
        wears(widget.style, piece.glyph, art),
{
    reveal_strlit("{icon}");
    reveal_strlit("{label}");
    reveal_strlit("{icon} {label}");
    reveal_strlit(" ");
    let behind = " "@ + ("{label}"@ + Seq::<char>::empty());
    assert("{icon} {label}"@ =~= "{icon}"@ + behind);
    lemma_one_value("{label}"@, words, behind, Seq::empty());
    assert(words + Seq::<char>::empty() =~= words);
    lemma_glyph_then_text(
        widget,
        "{icon} {label}"@,
        behind,
        glyph_of(widget.style, art, None),
        seq![("{label}"@, words)],
        colors,
    );
    lemma_blank_before(words);
}

proof fn lemma_bare(widget: Widget, art: BuiltinIcon, colors: StateColors)
    ensures
        ({
            let piece = bare(widget, art, colors);
            &&& piece.lead == Seq::<char>::empty()
            &&& piece.tail == Seq::<char>::empty()
            &&& piece.glyph == glyph_of(widget.style, art, None)
            &&& piece.colors == colors
        }),
{
    reveal_strlit("{icon}");
    let none = Seq::<char>::empty();
    assert("{icon}"@ =~= "{icon}"@ + none);
    lemma_glyph_then_text(widget, "{icon}"@, none, glyph_of(widget.style, art, None), seq![], colors);
    assert(template::filled(none, seq![]) =~= none);
    assert(text::trimmed(none) =~= none);
}

/// The two digits of a number below a hundred, as characters.
pub open spec fn are_digits(n: int, tens: char, ones: char) -> bool {
    tens as int == '0' as int + n / 10 && ones as int == '0' as int + n % 10
}

proof fn lemma_two_digits(n: nat)
    requires
        n < 100,
    ensures
        two_digits(n).len() == 2,
        are_digits(n as int, two_digits(n)[0], two_digits(n)[1]),
{
    reveal_strlit("0");
    reveal_with_fuel(text::decimal_of, 3);
}

/// The clock shows the time of day in hours and minutes, two digits each, and starts
/// over after a day.
pub proof fn lemma_the_clock_shows_hours_and_minutes(
    widget: Widget,
    news: &[&Msg],
    pieces: Vec<Piece>,
    i: int,
    day: int,
    hour: int,
    minute: int,
    second: int,
    seconds: u64,
)
    requires
        call_ensures(face, (&widget, news), pieces),
        tells(widget, news@, i),
        *news@[i] == Msg::Tick(seconds),
        seconds == 86400 * day + 3600 * hour + 60 * minute + second,
        0 <= day,
        0 <= hour < 24,
        0 <= minute < 60,
        0 <= second < 60,
        widget.style.icon is Default,
    ensures
        pieces@.len() == 1,
        pieces@[0].glyph == Glyph::Art(BuiltinIcon::Clock),
        pieces@[0].lead@.len() == 0,
        ({
            let shown = pieces@[0].tail@;
            &&& shown.len() == 6
            &&& shown[0] == ' ' && shown[3] == ':'
            &&& are_digits(hour, shown[1], shown[2])
            &&& are_digits(minute, shown[4], shown[5])
        }),
        is_plain(widget.style, pieces@[0]),
        is_outlined(widget.style, pieces@[0]),
        launches(widget, pieces@[0]),
        !pieces@[0].dot,
{
    assert(seconds / 3600 % 24 == hour && seconds / 60 % 60 == minute) by (nonlinear_arith)
        requires
            seconds == 86400 * day + 3600 * hour + 60 * minute + second,
            0 <= day,
            0 <= hour < 24,
            0 <= minute < 60,
            0 <= second < 60,
    {
        assert(seconds / 3600 == 24 * day + hour);
        assert(seconds / 60 == 60 * (24 * day + hour) + minute);
    }
    reveal_strlit("{icon}");
    reveal_strlit("{time}");
    reveal_strlit("{icon} {time}");
    reveal_strlit(" ");
    reveal_strlit(":");
    let behind = " "@ + ("{time}"@ + Seq::<char>::empty());
    assert("{icon} {time}"@ =~= "{icon}"@ + behind);
    let time = time_of_day(seconds);
    lemma_one_value("{time}"@, time, behind, Seq::empty());
    lemma_glyph_then_text(
        widget,
        "{icon} {time}"@,
        behind,
        glyph_of(widget.style, BuiltinIcon::Clock, None),
        seq![("{time}"@, time)],
        plain(widget.style),
    );
    lemma_two_digits(hour as nat);
    lemma_two_digits(minute as nat);
    lemma_shown_alone(widget, news, pieces, i, clock_face(widget, seconds));
}

/// The icon of a battery tells that it charges, or else how full it is, and its colors
/// warn while it runs low; a full battery and one that charges never warn.
pub proof fn lemma_a_battery_looks_like_its_charge(
    widget: Widget,
    news: &[&Msg],
    pieces: Vec<Piece>,
    i: int,
    battery: Battery,
    state: BatteryState,
    percent: u8,
)
    requires
        call_ensures(face, (&widget, news), pieces),
        tells(widget, news@, i),
        *news@[i] == Msg::Battery(Some(battery)),
        call_ensures(Battery::state, (&battery,), state),
        call_ensures(Battery::percent, (&battery,), percent),
        widget.style.icon is Default,
        widget.format is None,
    ensures
        pieces@.len() == 1,
        state == BatteryState::Charging ==> {
            &&& pieces@[0].glyph == Glyph::Art(BuiltinIcon::BatteryCharging)
            &&& pieces@[0].colors == widget.style.charging
        },
        state != BatteryState::Charging ==> {
            &&& percent <= 33 ==> pieces@[0].glyph == Glyph::Art(BuiltinIcon::BatteryLow)
            &&& 33 < percent <= 66 ==> pieces@[0].glyph == Glyph::Art(BuiltinIcon::BatteryHalf)
            &&& percent > 66 ==> pieces@[0].glyph == Glyph::Art(BuiltinIcon::BatteryFull)
        },
        state == BatteryState::Discharging && percent < widget.style.warn_threshold
            ==> pieces@[0].colors == widget.style.warn,
        state == BatteryState::Discharging && percent >= widget.style.warn_threshold ==> is_plain(
            widget.style,
            pieces@[0],
        ),
        state == BatteryState::Full || state == BatteryState::Unknown ==> is_plain(
            widget.style,
            pieces@[0],
        ),
        pieces@[0].lead@.len() == 0,
        pieces@[0].tail@ == " "@ + text::decimal_of(percent as nat) + "% "@ + match state {
            BatteryState::Charging => "charging"@,
            BatteryState::Discharging => "discharging"@,
            BatteryState::Full => "full"@,
            BatteryState::Unknown => "unknown"@,
        },
        is_outlined(widget.style, pieces@[0]),
        launches(widget, pieces@[0]),
        !pieces@[0].dot,
{
    reveal_strlit("{icon}");
    reveal_strlit("{percent}");
    reveal_strlit("{state}");
    reveal_strlit("{icon} {percent}% {state}");
    reveal_strlit(" ");
    reveal_strlit("% ");
    let none = Seq::<char>::empty();
    let charge = text::decimal_of(percent as nat);
    let word = widget::battery_word(state);
    let values = seq![("{percent}"@, charge), ("{state}"@, word)];
    let rest = "% "@ + ("{state}"@ + none);
    let behind = " "@ + ("{percent}"@ + rest);
    assert("{icon} {percent}% {state}"@ =~= "{icon}"@ + behind);
    template::lemma_text_before_a_brace_passes(" "@, "{percent}"@ + rest, values);
    template::lemma_a_placeholder_stands_for_its_value(values, 0, rest);
    template::lemma_text_before_a_brace_passes("% "@, "{state}"@ + none, values);
    assert(("{state}"@ + none)[1] == 's' && "{percent}"@[1] == 'p');
    template::lemma_a_placeholder_stands_for_its_value(values, 1, none);
    template::lemma_plain_text_stays(none, values);
    assert(" "@ + (charge + ("% "@ + (word + none))) =~= " "@ + charge + "% "@ + word);
    lemma_glyph_then_text(
        widget,
        "{icon} {percent}% {state}"@,
        behind,
        glyph_of(widget.style, battery_art(battery@), None),
        values,
        battery_colors(widget.style, battery@),
    );
    lemma_shown_alone(widget, news, pieces, i, battery_face(widget, battery@));
}

/// A battery that is not there shows nothing, and so does every other source that tells
/// that it is not there.
pub proof fn lemma_what_is_not_there_does_not_show(
    widget: Widget,
    news: &[&Msg],
    pieces: Vec<Piece>,
    i: int,
)
    requires
        call_ensures(face, (&widget, news), pieces),
        tells(widget, news@, i),
        match *news@[i] {
            Msg::Battery(battery) => battery is None,
            Msg::Backlight(level) => level is None,
            Msg::Network(network) => network is None,
            Msg::ActiveWindow { window, .. } => window is None,
            Msg::Volume(volume) => volume is None,
            Msg::Notifications(state) => state is None,
            Msg::PowerProfiles(state) => state is None,
            Msg::Updates(count) => count is None || count == Some(0u32),
            _ => false,
        },
    ensures
        pieces@.len() == 0,
{
    lemma_shown(widget, news, pieces, i);
    reveal(Seq::filter);
    assert(piece_views(pieces@).len() == pieces@.len());
}

/// What a step of scrolling over the backlight asks for goes the way of the step: more
/// light for a step up, less for a step down, on the configured device and by the
/// configured amount.
pub proof fn lemma_a_scroll_step_goes_its_way(
    widget: Widget,
    news: &[&Msg],
    pieces: Vec<Piece>,
    i: int,
    level: u8,
    k: int,
)
    requires
        call_ensures(face, (&widget, news), pieces),
        tells(widget, news@, i),
        *news@[i] == Msg::Backlight(Some(level)),
        0 <= k < pieces@.len(),
    ensures
        pieces@[k].increase matches Some(Command::AdjustBacklight { device, step, direction })
            && direction == ScrollDirection::Increase && text::optional(device) == text::optional(
            widget.device,
        ) && (widget.scroll_step matches Some(own) ==> step == own),
        pieces@[k].decrease matches Some(Command::AdjustBacklight { device, step, direction })
            && direction == ScrollDirection::Decrease && text::optional(device) == text::optional(
            widget.device,
        ) && (widget.scroll_step matches Some(own) ==> step == own),
        match widget.on_click {
            Some(program) => pieces@[k].left matches Some(Command::RunProgram(run)) && run@
                == program@,
            None => pieces@[k].left is None,
        },
        is_plain(widget.style, pieces@[k]),
        is_outlined(widget.style, pieces@[k]),
{
    lemma_shown_alone(widget, news, pieces, i, backlight_face(widget, level));
}

/// Without a configured amount, a step of scrolling is one percent both ways.
pub proof fn lemma_a_scroll_step_is_one_percent(
    widget: Widget,
    news: &[&Msg],
    pieces: Vec<Piece>,
    i: int,
    level: u8,
    k: int,
)
    requires
        call_ensures(face, (&widget, news), pieces),
        tells(widget, news@, i),
        *news@[i] == Msg::Backlight(Some(level)),
        widget.scroll_step is None,
        0 <= k < pieces@.len(),
    ensures
        pieces@[k].increase matches Some(Command::AdjustBacklight { step, .. }) && step.bits
            == 0x3FF0_0000_0000_0000,
        pieces@[k].decrease matches Some(Command::AdjustBacklight { step, .. }) && step.bits
            == 0x3FF0_0000_0000_0000,
{
    lemma_shown_alone(widget, news, pieces, i, backlight_face(widget, level));
}

/// The backlight shows its percentage, and the brighter it is, the further its icon is on
/// the ramp: none at zero, full from the last sixth on.
pub proof fn lemma_the_backlight_icon_follows_the_level(
    widget: Widget,
    news: &[&Msg],
    pieces: Vec<Piece>,
    i: int,
    level: u8,
)
    requires
        call_ensures(face, (&widget, news), pieces),
        tells(widget, news@, i),
        *news@[i] == Msg::Backlight(Some(level)),
        widget.style.icon is Default,
        widget.format is None,
        widget.format_icons is None,
        level <= 100,
    ensures
        pieces@.len() == 1,
        pieces@[0].lead@.len() == 0,
        pieces@[0].tail@ == " "@ + text::decimal_of(level as nat) + "%"@,
        pieces@[0].glyph matches Glyph::Art(BuiltinIcon::Backlight(step)) && step <= 6 && (step
            == 0 <==> level == 0) && 100 * (step - 1) < 6 * level <= 100 * step,
{
    reveal_strlit("{icon}");
    reveal_strlit("{percent}");
    reveal_strlit("{icon} {percent}%");
    reveal_strlit(" ");
    reveal_strlit("%");
    let charge = text::decimal_of(level as nat);
    let behind = " "@ + ("{percent}"@ + "%"@);
    assert("{icon} {percent}%"@ =~= "{icon}"@ + behind);
    lemma_one_value("{percent}"@, charge, behind, "%"@);
    assert(" "@ + (charge + "%"@) =~= " "@ + charge + "%"@);
    lemma_glyph_then_text(
        widget,
        "{icon} {percent}%"@,
        behind,
        glyph_of(
            widget.style,
            BuiltinIcon::Backlight(((level * 6 + 99) / 100) as u8),
            ramp_icon(widget.format_icons, level),
        ),
        seq![("{percent}"@, charge)],
        plain(widget.style),
    );
    lemma_shown_alone(widget, news, pieces, i, backlight_face(widget, level));
}

/// A table of icons divides the range of the backlight evenly, from low to high: each
/// icon stands for its share, and the last one also for full brightness.
pub proof fn lemma_a_ramp_of_icons_is_even(
    widget: Widget,
    news: &[&Msg],
    pieces: Vec<Piece>,
    i: int,
    level: u8,
    ramp: Vec<String>,
    k: int,
)
    requires
        call_ensures(face, (&widget, news), pieces),
        tells(widget, news@, i),
        *news@[i] == Msg::Backlight(Some(level)),
        widget.style.icon is Default,
        widget.format is None,
        widget.format_icons == Some(FormatIconsConfig::Ramp(ramp)),
        0 <= k < ramp@.len(),
        100 * k <= level * ramp@.len(),
        level * ramp@.len() < 100 * (k + 1) || k == ramp@.len() - 1,
    ensures
        pieces@.len() == 1,
        pieces@[0].glyph matches Glyph::Word(word) && word@ == ramp@[k]@,
{
    let n = ramp@.len() as int;
    assert(level * n / 100 == k || (level * n / 100 >= n && k == n - 1)
        || (k == n - 1 && level * n / 100 == k)) by (nonlinear_arith)
        requires
            0 <= k < n,
            100 * k <= level * n,
            level * n < 100 * (k + 1) || k == n - 1,
    ;
    reveal_strlit("{icon}");
    reveal_strlit("{icon} {percent}%");
    let behind = "{icon} {percent}%"@.skip(6);
    assert("{icon} {percent}%"@ =~= "{icon}"@ + behind);
    lemma_glyph_then_text(
        widget,
        "{icon} {percent}%"@,
        behind,
        glyph_of(
            widget.style,
            BuiltinIcon::Backlight(((level * 6 + 99) / 100) as u8),
            ramp_icon(widget.format_icons, level),
        ),
        seq![("{percent}"@, text::decimal_of(level as nat))],
        plain(widget.style),
    );
    lemma_shown_alone(widget, news, pieces, i, backlight_face(widget, level));
}

/// The load of the machine shows as two percentages, the processor's before that of the
/// memory.
pub proof fn lemma_the_load_shows_processor_and_memory(
    widget: Widget,
    news: &[&Msg],
    pieces: Vec<Piece>,
    i: int,
    stats: SystemStats,
)
    requires
        call_ensures(face, (&widget, news), pieces),
        tells(widget, news@, i),
        *news@[i] == Msg::System(stats),
        widget.style.icon is Default,
    ensures
        pieces@.len() == 1,
        pieces@[0].glyph == Glyph::Art(BuiltinIcon::System),
        pieces@[0].lead@.len() == 0,
        pieces@[0].tail@ == " "@ + text::decimal_of(stats.cpu as nat) + "% "@ + text::decimal_of(
            stats.memory as nat,
        ) + "%"@,
        is_plain(widget.style, pieces@[0]),
        is_outlined(widget.style, pieces@[0]),
        launches(widget, pieces@[0]),
{
    reveal_strlit("{icon}");
    reveal_strlit("{cpu}");
    reveal_strlit("{memory}");
    reveal_strlit("{icon} {cpu}% {memory}%");
    reveal_strlit(" ");
    reveal_strlit("% ");
    reveal_strlit("%");
    let cpu = text::decimal_of(stats.cpu as nat);
    let memory = text::decimal_of(stats.memory as nat);
    let values = seq![("{cpu}"@, cpu), ("{memory}"@, memory)];
    let rest = "% "@ + ("{memory}"@ + "%"@);
    let behind = " "@ + ("{cpu}"@ + rest);
    assert("{icon} {cpu}% {memory}%"@ =~= "{icon}"@ + behind);
    template::lemma_text_before_a_brace_passes(" "@, "{cpu}"@ + rest, values);
    template::lemma_a_placeholder_stands_for_its_value(values, 0, rest);
    template::lemma_text_before_a_brace_passes("% "@, "{memory}"@ + "%"@, values);
    assert(("{memory}"@ + "%"@)[1] == 'm' && "{cpu}"@[1] == 'c');
    template::lemma_a_placeholder_stands_for_its_value(values, 1, "%"@);
    template::lemma_plain_text_stays("%"@, values);
    assert(" "@ + (cpu + ("% "@ + (memory + "%"@))) =~= " "@ + cpu + "% "@ + memory + "%"@);
    lemma_glyph_then_text(
        widget,
        "{icon} {cpu}% {memory}%"@,
        behind,
        glyph_of(widget.style, BuiltinIcon::System, None),
        values,
        plain(widget.style),
    );
    lemma_shown_alone(widget, news, pieces, i, system_face(widget, stats));
}

/// A wireless connection shows as one, with the name of its network, and only it does.
pub proof fn lemma_a_connection_shows_its_kind(
    widget: Widget,
    news: &[&Msg],
    pieces: Vec<Piece>,
    i: int,
    network: Network,
    state: NetworkState,
    ssid: Option<&str>,
    k: int,
)
    requires
        call_ensures(face, (&widget, news), pieces),
        tells(widget, news@, i),
        *news@[i] == Msg::Network(Some(network)),
        call_ensures(Network::state, (&network,), state),
        call_ensures(Network::ssid, (&network,), ssid),
        0 <= k < pieces@.len(),
    ensures
        wears(
            widget.style,
            pieces@[k].glyph,
            if state == NetworkState::Wireless {
                BuiltinIcon::NetworkWireless
            } else {
                BuiltinIcon::NetworkWired
            },
        ),
        state == NetworkState::Wireless ==> (match ssid {
            Some(name) => says(widget.style, pieces@[k], "wifi "@ + name@),
            None => says(widget.style, pieces@[k], "wifi"@),
        }),
        state == NetworkState::Wired ==> says(widget.style, pieces@[k], "wired"@),
        state == NetworkState::Disconnected ==> says(widget.style, pieces@[k], "disconnected"@),
        state == NetworkState::Unknown ==> says(widget.style, pieces@[k], "unknown"@),
        is_plain(widget.style, pieces@[k]),
        is_outlined(widget.style, pieces@[k]),
        launches(widget, pieces@[k]),
{
    let shown = network_face(widget, network@);
    lemma_shown_alone(widget, news, pieces, i, shown);
    lemma_worded(
        widget,
        if state == NetworkState::Wireless {
            BuiltinIcon::NetworkWireless
        } else {
            BuiltinIcon::NetworkWired
        },
        network@.words(),
        plain(widget.style),
        pieces@[0],
    );
}

/// The Bluetooth widget tells an adapter that is missing from one that is off, from one
/// that is on, and that from one with devices, which it counts.
pub proof fn lemma_the_adapter_shows_its_state(
    widget: Widget,
    news: &[&Msg],
    pieces: Vec<Piece>,
    i: int,
    adapter: Option<Bluetooth>,
    k: int,
)
    requires
        call_ensures(face, (&widget, news), pieces),
        tells(widget, news@, i),
        *news@[i] == Msg::Bluetooth(adapter),
        0 <= k < pieces@.len(),
    ensures
        adapter is None ==> says(widget.style, pieces@[k], "unavailable"@),
        adapter matches Some(a) ==> {
            &&& !a.powered ==> says(widget.style, pieces@[k], "off"@)
            &&& a.powered && a.connected == 0 ==> says(widget.style, pieces@[k], "on"@)
            &&& a.powered && a.connected > 0 ==> says(
                widget.style,
                pieces@[k],
                text::decimal_of(a.connected as nat) + " connected"@,
            )
        },
        wears(widget.style, pieces@[k].glyph, BuiltinIcon::Bluetooth),
        is_plain(widget.style, pieces@[k]),
        is_outlined(widget.style, pieces@[k]),
        launches(widget, pieces@[k]),
{
    let words = bluetooth_words(adapter);
    lemma_shown_alone(
        widget,
        news,
        pieces,
        i,
        worded(widget, BuiltinIcon::Bluetooth, words, plain(widget.style)),
    );
    lemma_worded(widget, BuiltinIcon::Bluetooth, words, plain(widget.style), pieces@[0]);
}

/// The volume shows its level, and the louder it is, the more waves its icon has. A muted
/// one shows no level, and neither it nor silence has waves.
pub proof fn lemma_the_volume_looks_as_loud_as_it_is(
    widget: Widget,
    news: &[&Msg],
    pieces: Vec<Piece>,
    i: int,
    volume: Volume,
    level: u8,
    muted: bool,
    k: int,
)
    requires
        call_ensures(face, (&widget, news), pieces),
        tells(widget, news@, i),
        *news@[i] == Msg::Volume(Some(volume)),
        call_ensures(Volume::level, (&volume,), level),
        call_ensures(Volume::muted, (&volume,), muted),
        0 <= k < pieces@.len(),
    ensures
        muted || level == 0 ==> wears(widget.style, pieces@[k].glyph, BuiltinIcon::VolumeMuted),
        !muted && 0 < level <= 33 ==> wears(widget.style, pieces@[k].glyph, BuiltinIcon::VolumeLow),
        !muted && 33 < level <= 66 ==> wears(
            widget.style,
            pieces@[k].glyph,
            BuiltinIcon::VolumeMedium,
        ),
        !muted && 66 < level ==> wears(widget.style, pieces@[k].glyph, BuiltinIcon::VolumeHigh),
        muted ==> says(widget.style, pieces@[k], "Mute"@),
        !muted ==> says(
            widget.style,
            pieces@[k],
            "Vol "@ + text::decimal_of(level as nat) + "%"@,
        ),
        is_plain(widget.style, pieces@[k]),
        is_outlined(widget.style, pieces@[k]),
        launches(widget, pieces@[k]),
{
    lemma_shown_alone(widget, news, pieces, i, volume_face(widget, volume@));
    lemma_worded(
        widget,
        volume_art(volume@),
        if muted {
            "Mute"@
        } else {
            "Vol "@ + text::decimal_of(level as nat) + "%"@
        },
        plain(widget.style),
        pieces@[0],
    );
}

/// The title of the focused window shows whole up to a hundred characters. A longer one
/// shows its beginning and an ellipsis, a hundred characters in all.
pub proof fn lemma_a_title_is_cut_at_a_hundred(
    widget: Widget,
    news: &[&Msg],
    pieces: Vec<Piece>,
    i: int,
    monitor: String,
    window: message::ActiveWindow,
    custom: String,
)
    requires
        call_ensures(face, (&widget, news), pieces),
        tells(widget, news@, i),
        *news@[i] == (Msg::ActiveWindow { monitor, window: Some(window) }),
        widget.style.icon == IconSetting::Custom(custom),
    ensures
        pieces@.len() == 1,
        pieces@[0].glyph matches Glyph::Word(word) && word@ == custom@,
        pieces@[0].lead@.len() == 0,
        pieces@[0].tail@.len() > 0 && pieces@[0].tail@[0] == ' ',
        ({
            let shown = pieces@[0].tail@.skip(1);
            &&& window.title@.len() <= 100 ==> shown == window.title@
            &&& window.title@.len() > 100 ==> shown.len() == 100 && shown[99] == '\u{2026}'
                && shown.take(99) == window.title@.take(99)
        }),
        is_plain(widget.style, pieces@[0]),
        is_outlined(widget.style, pieces@[0]),
{
    reveal_strlit("\u{2026}");
    let title = shortened(window.title@);
    lemma_title(widget, window.title@);
    lemma_shown_alone(widget, news, pieces, i, title_face(widget, window.title@));
    reveal_strlit(" ");
    assert(pieces@[0].tail@.skip(1) =~= title);
    if window.title@.len() > 100 {
        assert(title.take(99) =~= window.title@.take(99));
    }
}

proof fn lemma_title(widget: Widget, title: Seq<char>)
    ensures
        ({
            let piece = title_face(widget, title);
            match widget.style.icon {
                IconSetting::Custom(custom) => piece.glyph == GlyphView::Word(custom@)
                    && piece.lead == Seq::<char>::empty() && piece.tail == " "@ + shortened(title),
                _ => piece.glyph == GlyphView::Hidden && piece.lead == text::trimmed(
                    shortened(title),
                ),
            }
        }),
{
    reveal_strlit("{icon}");
    reveal_strlit("{title}");
    reveal_strlit("{icon} {title}");
    reveal_strlit(" ");
    let none = Seq::<char>::empty();
    let short = shortened(title);
    let behind = " "@ + ("{title}"@ + none);
    assert("{icon} {title}"@ =~= "{icon}"@ + behind);
    lemma_one_value("{title}"@, short, behind, none);
    assert(short + none =~= short);
    lemma_glyph_then_text(
        widget,
        "{icon} {title}"@,
        behind,
        match widget.style.icon {
            IconSetting::Custom(custom) => GlyphView::Word(custom@),
            _ => GlyphView::Hidden,
        },
        seq![("{title}"@, short)],
        plain(widget.style),
    );
    lemma_blank_before(short);
}

/// A title shows no glyph unless the style gives it one: then it stands alone, without
/// blanks around it, and not at all when nothing is left of it.
pub proof fn lemma_a_title_stands_alone(
    widget: Widget,
    news: &[&Msg],
    pieces: Vec<Piece>,
    i: int,
    monitor: String,
    window: message::ActiveWindow,
)
    requires
        call_ensures(face, (&widget, news), pieces),
        tells(widget, news@, i),
        *news@[i] == (Msg::ActiveWindow { monitor, window: Some(window) }),
        !(widget.style.icon is Custom),
        window.title@.len() <= 100,
    ensures
        pieces@.len() == if text::trimmed(window.title@).len() == 0 {
            0int
        } else {
            1
        },
        pieces@.len() > 0 ==> pieces@[0].lead@ == text::trimmed(window.title@)
            && pieces@[0].glyph is Hidden,
{
    lemma_title(widget, window.title@);
    lemma_shown_alone(widget, news, pieces, i, title_face(widget, window.title@));
}

/// The bell has a dot exactly while notifications are pending, and is slashed and half as
/// bright exactly while they are not to disturb. The primary button shows the panel, the
/// other one turns do-not-disturb on or off, whatever programs are configured.
pub proof fn lemma_the_bell_tells_what_is_pending(
    widget: Widget,
    news: &[&Msg],
    pieces: Vec<Piece>,
    i: int,
    state: Notifications,
    count: u32,
    dnd: bool,
)
    requires
        call_ensures(face, (&widget, news), pieces),
        tells(widget, news@, i),
        *news@[i] == Msg::Notifications(Some(state)),
        call_ensures(Notifications::count, (&state,), count),
        call_ensures(Notifications::dnd, (&state,), dnd),
        !(widget.style.icon is Hidden),
    ensures
        pieces@.len() == 1,
        pieces@[0].dot <==> count > 0,
        dnd ==> wears(widget.style, pieces@[0].glyph, BuiltinIcon::NotificationsOff),
        !dnd ==> wears(widget.style, pieces@[0].glyph, BuiltinIcon::Notifications),
        !dnd ==> is_plain(widget.style, pieces@[0]),
        dnd ==> ({
            let is = pieces@[0].colors.foreground;
            let was = widget.style.foreground;
            &&& is.0 == was.0 / 2 && is.1 == was.1 / 2 && is.2 == was.2 / 2 && is.3 == was.3
            &&& pieces@[0].colors.background == widget.style.background
            &&& pieces@[0].colors.border == widget.style.border
        }),
        pieces@[0].left == Some(Command::ToggleNotificationPanel),
        pieces@[0].right == Some(Command::ToggleNotificationsDnd),
        pieces@[0].lead@.len() == 0 && pieces@[0].tail@.len() == 0,
        is_outlined(widget.style, pieces@[0]),
{
    let face = notifications_face(widget, state@);
    lemma_bare(
        widget,
        if state@.1 {
            BuiltinIcon::NotificationsOff
        } else {
            BuiltinIcon::Notifications
        },
        face.colors,
    );
    lemma_shown_alone(widget, news, pieces, i, face);
}

/// Pending updates show as their number, and no number shows when there are none.
pub proof fn lemma_updates_are_counted(
    widget: Widget,
    news: &[&Msg],
    pieces: Vec<Piece>,
    i: int,
    count: u32,
)
    requires
        call_ensures(face, (&widget, news), pieces),
        tells(widget, news@, i),
        *news@[i] == Msg::Updates(Some(count)),
        widget.style.icon is Default,
        widget.format is None,
    ensures
        count == 0 ==> pieces@.len() == 0,
        count > 0 ==> {
            &&& pieces@.len() == 1
            &&& pieces@[0].glyph == Glyph::Art(BuiltinIcon::Updates)
            &&& pieces@[0].lead@.len() == 0
            &&& pieces@[0].tail@ == " "@ + text::decimal_of(count as nat)
            &&& is_plain(widget.style, pieces@[0])
            &&& is_outlined(widget.style, pieces@[0])
            &&& launches(widget, pieces@[0])
        },
{
    reveal_strlit("{icon}");
    reveal_strlit("{count}");
    reveal_strlit("{icon} {count}");
    reveal_strlit(" ");
    let none = Seq::<char>::empty();
    let number = text::decimal_of(count as nat);
    let behind = " "@ + ("{count}"@ + none);
    assert("{icon} {count}"@ =~= "{icon}"@ + behind);
    lemma_one_value("{count}"@, number, behind, none);
    assert(number + none =~= number);
    lemma_glyph_then_text(
        widget,
        "{icon} {count}"@,
        behind,
        glyph_of(widget.style, BuiltinIcon::Updates, None),
        seq![("{count}"@, number)],
        plain(widget.style),
    );
    if count > 0 {
        lemma_shown_alone(widget, news, pieces, i, updates_face(widget, count));
    } else {
        lemma_what_is_not_there_does_not_show(widget, news, pieces, i);
    }
}

/// A click on the idle widget asks for the other state than the one it shows, and the
/// widget is emphasized while the daemon runs.
pub proof fn lemma_a_click_turns_the_idle_daemon_over(
    widget: Widget,
    news: &[&Msg],
    pieces: Vec<Piece>,
    i: int,
    active: bool,
)
    requires
        call_ensures(face, (&widget, news), pieces),
        tells(widget, news@, i),
        *news@[i] == Msg::Hypridle(active),
        !(widget.style.icon is Hidden),
    ensures
        pieces@.len() == 1,
        pieces@[0].left == Some(Command::SetHypridle(!active)),
        pieces@[0].right is None,
        active ==> wears(widget.style, pieces@[0].glyph, BuiltinIcon::HypridleActive),
        !active ==> wears(widget.style, pieces@[0].glyph, BuiltinIcon::HypridleInactive),
        pieces@[0].colors.foreground == if active {
            widget.style.accent
        } else {
            widget.style.foreground
        },
        pieces@[0].colors.background == widget.style.background,
        pieces@[0].colors.border == widget.style.border,
        pieces@[0].tooltip matches Some(told) && told@ == if active {
            "Hypridle active"@
        } else {
            "Hypridle inactive"@
        },
        is_outlined(widget.style, pieces@[0]),
        !pieces@[0].dot,
{
    let face = hypridle_face(widget, active);
    lemma_bare(
        widget,
        if active {
            BuiltinIcon::HypridleActive
        } else {
            BuiltinIcon::HypridleInactive
        },
        face.colors,
    );
    lemma_shown_alone(widget, news, pieces, i, face);
}

/// The power button is there without any news, runs what is configured, and tells what it
/// is unless that is turned off.
pub proof fn lemma_the_power_button_is_always_there(
    widget: Widget,
    news: &[&Msg],
    pieces: Vec<Piece>,
)
    requires
        call_ensures(face, (&widget, news), pieces),
        widget.kind == WidgetKind::Power,
        !(widget.style.icon is Hidden),
    ensures
        pieces@.len() == 1,
        wears(widget.style, pieces@[0].glyph, BuiltinIcon::Power),
        launches(widget, pieces@[0]),
        is_plain(widget.style, pieces@[0]),
        is_outlined(widget.style, pieces@[0]),
        widget.tooltip == Some(false) ==> pieces@[0].tooltip is None,
        widget.tooltip != Some(false) ==> (pieces@[0].tooltip matches Some(told) && told@
            == match widget.tooltip_format {
            Some(own) => own@,
            None => "Power menu"@,
        }),
{
    let face = power_face(widget);
    lemma_bare(widget, BuiltinIcon::Power, plain(widget.style));
    lemma_filter_alone(face);
    assert(piece_views(pieces@).len() == pieces@.len());
    assert(piece_views(pieces@)[0] == pieces@[0]@);
}

proof fn lemma_filter_keeps_all(pieces: Seq<PieceView>)
    requires
        forall|k: int| 0 <= k < pieces.len() ==> is_visible(#[trigger] pieces[k]),
    ensures
        pieces.filter(|p: PieceView| is_visible(p)) == pieces,
    decreases pieces.len(),
{
    reveal(Seq::filter);
    if pieces.len() > 0 {
        let init = pieces.drop_last();
        assert forall|k: int| 0 <= k < init.len() implies is_visible(#[trigger] init[k]) by {
            assert(init[k] == pieces[k]);
        }
        lemma_filter_keeps_all(init);
        assert(pieces.last() == pieces[pieces.len() - 1]);
        assert(init.push(pieces.last()) =~= pieces);
    } else {
        assert(pieces.filter(|p: PieceView| is_visible(p)) =~= pieces);
    }
}

/// The primary button on the power profiles selects the profile behind the active one in
/// the list, the other button the one before it, and both go round at the ends.
pub proof fn lemma_a_click_steps_through_the_profiles(
    widget: Widget,
    news: &[&Msg],
    pieces: Vec<Piece>,
    i: int,
    state: PowerProfilesState,
    at: int,
    k: int,
)
    requires
        call_ensures(face, (&widget, news), pieces),
        tells(widget, news@, i),
        *news@[i] == Msg::PowerProfiles(Some(state)),
        0 <= at < state@.profiles.len(),
        state@.profiles[at].name == state@.active,
        forall|j: int| 0 <= j < at ==> (#[trigger] state@.profiles[j]).name != state@.active,
        0 <= k < pieces@.len(),
    ensures
        pieces@[k].left matches Some(Command::SetPowerProfile(next)) && next@
            == state@.profiles[if at + 1 < state@.profiles.len() {
            at + 1
        } else {
            0
        }].name,
        pieces@[k].right matches Some(Command::SetPowerProfile(previous)) && previous@
            == state@.profiles[if at > 0 {
            at - 1
        } else {
            state@.profiles.len() - 1
        }].name,
        is_plain(widget.style, pieces@[k]),
        is_outlined(widget.style, pieces@[k]),
        pieces@[k].increase is None && pieces@[k].decrease is None,
{
    let n = state@.profiles.len() as int;
    lemma_first_profile(state@.profiles, at);
    assert((at + 1) % n == (if at + 1 < n {
        at + 1
    } else {
        0
    }) && (at + (n - 1)) % n == (if at > 0 {
        at - 1
    } else {
        n - 1
    })) by (nonlinear_arith)
        requires
            0 <= at < n,
    {
        if at > 0 {
            assert(at + (n - 1) == n + (at - 1));
        }
    }
    lemma_shown_alone(widget, news, pieces, i, profiles_face(widget, state@));
}

proof fn lemma_first_profile(profiles: Seq<PowerProfileView>, at: int)
    requires
        0 <= at < profiles.len(),
        forall|j: int| 0 <= j < at ==> (#[trigger] profiles[j]).name != profiles[at].name,
    ensures
        profile_place(profiles, profiles[at].name) == Some(at),
    decreases profiles.len(),
{
    let init = profiles.drop_last();
    let name = profiles[at].name;
    if at < init.len() {
        assert(init[at] == profiles[at]);
        assert forall|j: int| 0 <= j < at implies (#[trigger] init[j]).name != init[at].name by {
            assert(init[j] == profiles[j]);
        }
        lemma_first_profile(init, at);
    } else {
        lemma_profile_place(init, name);
        if profile_place(init, name) is Some {
            let j = profile_place(init, name)->0;
            assert(profiles[j].name == name);
        }
    }
}

/// Where the active profile is not among those offered, a click selects none.
pub proof fn lemma_an_unknown_profile_has_no_neighbours(
    widget: Widget,
    news: &[&Msg],
    pieces: Vec<Piece>,
    i: int,
    state: PowerProfilesState,
    k: int,
)
    requires
        call_ensures(face, (&widget, news), pieces),
        tells(widget, news@, i),
        *news@[i] == Msg::PowerProfiles(Some(state)),
        !state@.offers(state@.active),
        0 <= k < pieces@.len(),
    ensures
        pieces@[k].left is None,
        pieces@[k].right is None,
{
    lemma_profile_place(state@.profiles, state@.active);
    lemma_shown_alone(widget, news, pieces, i, profiles_face(widget, state@));
}

/// The active power profile has an icon of its own where it is one of the two extremes,
/// and its tooltip tells its name and its driver, or what is configured, or nothing when
/// that is turned off.
pub proof fn lemma_the_active_profile_shows(
    widget: Widget,
    news: &[&Msg],
    pieces: Vec<Piece>,
    i: int,
    state: PowerProfilesState,
)
    requires
        call_ensures(face, (&widget, news), pieces),
        tells(widget, news@, i),
        *news@[i] == Msg::PowerProfiles(Some(state)),
        widget.style.icon is Default,
        widget.format is None,
        widget.format_icons is None,
    ensures
        pieces@.len() == 1,
        pieces@[0].glyph == Glyph::Art(
            if state@.active == "performance"@ {
                BuiltinIcon::PowerProfilePerformance
            } else if state@.active == "power-saver"@ {
                BuiltinIcon::PowerProfileSaver
            } else {
                BuiltinIcon::PowerProfileBalanced
            },
        ),
        pieces@[0].lead@.len() == 0 && pieces@[0].tail@.len() == 0,
        pieces@[0].tooltip is Some <==> widget.tooltip != Some(false),
        widget.tooltip != Some(false) && widget.tooltip_format is None ==> ({
            let told = pieces@[0].tooltip->0@;
            let start = "Power profile: "@ + state@.active + "\nDriver: "@;
            &&& start.is_prefix_of(told)
            &&& forall|at: int|
                0 <= at < state@.profiles.len() && (#[trigger] state@.profiles[at]).name
                    == state@.active && (forall|j: int|
                    0 <= j < at ==> (#[trigger] state@.profiles[j]).name != state@.active) ==> told
                    == start + state@.profiles[at].driver
        }),
{
    let face = profiles_face(widget, state@);
    reveal_strlit("{icon}");
    let none = Seq::<char>::empty();
    assert("{icon}"@ =~= "{icon}"@ + none);
    let values = profile_values(state@);
    lemma_glyph_then_text(
        widget,
        "{icon}"@,
        none,
        glyph_of(widget.style, profile_art(state@.active), None),
        values,
        plain(widget.style),
    );
    assert(template::filled(none, values) =~= none);
    lemma_shown_alone(widget, news, pieces, i, face);
    lemma_profile_tooltip(state@);
    assert forall|at: int|
        0 <= at < state@.profiles.len() && (#[trigger] state@.profiles[at]).name == state@.active
            && (forall|j: int|
            0 <= j < at ==> (#[trigger] state@.profiles[j]).name != state@.active) implies profile_place(
        state@.profiles,
        state@.active,
    ) == Some(at) by {
        lemma_first_profile(state@.profiles, at);
    }
}

proof fn lemma_profile_tooltip(state: PowerProfilesView)
    ensures
        template::filled(
            "Power profile: {profile}\nDriver: {driver}"@,
            profile_values(state).push(("{icon}"@, seq![])),
        ) == "Power profile: "@ + state.active + "\nDriver: "@ + profile_values(state)[1].1,
{
    reveal_strlit("{icon}");
    reveal_strlit("{profile}");
    reveal_strlit("{driver}");
    reveal_strlit("{cpu_driver}");
    reveal_strlit("{platform_driver}");
    reveal_strlit("Power profile: ");
    reveal_strlit("\nDriver: ");
    reveal_strlit("Power profile: {profile}\nDriver: {driver}");
    let values = profile_values(state).push(("{icon}"@, seq![]));
    let none = Seq::<char>::empty();
    let driver = values[1].1;
    let rest = "\nDriver: "@ + ("{driver}"@ + none);
    assert("Power profile: {profile}\nDriver: {driver}"@ =~= "Power profile: "@ + ("{profile}"@
        + rest));
    template::lemma_text_before_a_brace_passes("Power profile: "@, "{profile}"@ + rest, values);
    template::lemma_a_placeholder_stands_for_its_value(values, 0, rest);
    template::lemma_text_before_a_brace_passes("\nDriver: "@, "{driver}"@ + none, values);
    assert(("{driver}"@ + none)[1] == 'd' && "{profile}"@[1] == 'p');
    template::lemma_a_placeholder_stands_for_its_value(values, 1, none);
    template::lemma_plain_text_stays(none, values);
    assert("Power profile: "@ + (state.active + ("\nDriver: "@ + (driver + none)))
        =~= "Power profile: "@ + state.active + "\nDriver: "@ + driver);
}

/// How many of the first `n` workspaces stand on a monitor: those tied to it, and those
/// tied to none. A widget without a monitor has them all.
pub open spec fn standing(
    listed: Seq<(i32, Option<String>)>,
    monitor: Option<String>,
    n: int,
) -> int
    decreases n,
{
    if n <= 0 {
        0
    } else {
        standing(listed, monitor, n - 1) + match (monitor, listed[n - 1].1) {
            (Some(own), Some(tied)) => if own@ == tied@ {
                1int
            } else {
                0
            },
            _ => 1,
        }
    }
}

proof fn lemma_standing(
    listed: Seq<(i32, Option<String>)>,
    monitor: Option<String>,
    j: int,
    n: int,
)
    requires
        0 <= j <= n,
    ensures
        0 <= standing(listed, monitor, j) <= standing(listed, monitor, n),
    decreases n,
{
    if j < n {
        lemma_standing(listed, monitor, j, n - 1);
    } else if n > 0 {
        lemma_standing(listed, monitor, n - 1, n - 1);
    }
}

proof fn lemma_workspaces(
    widget: Widget,
    listed: Seq<(i32, Option<String>)>,
    active: i32,
    n: int,
    j: int,
)
    requires
        0 <= n <= listed.len(),
        0 <= j < n,
    ensures
        workspace_faces(widget, listed.take(n), active).len() == standing(
            listed,
            widget.monitor,
            n,
        ),
        0 <= standing(listed, widget.monitor, j) <= standing(listed, widget.monitor, n),
        standing(listed, widget.monitor, j + 1) > standing(listed, widget.monitor, j) ==> {
            &&& standing(listed, widget.monitor, j) < standing(listed, widget.monitor, n)
            &&& workspace_faces(widget, listed.take(n), active)[standing(
                listed,
                widget.monitor,
                j,
            )] == workspace_face(widget, listed[j].0, listed[j].0 == active)
        },
    decreases n,
{
    assert(listed.take(n).drop_last() =~= listed.take(n - 1));
    assert(listed.take(n).last() == listed[n - 1]);
    lemma_standing(listed, widget.monitor, j, n);
    lemma_standing(listed, widget.monitor, j + 1, n);
    if n - 1 > 0 {
        lemma_workspaces(
            widget,
            listed,
            active,
            n - 1,
            if j < n - 1 {
                j
            } else {
                0
            },
        );
    } else {
        assert(workspace_faces(widget, listed.take(n - 1), active).len() == 0);
        assert(standing(listed, widget.monitor, n - 1) == 0);
    }
}

proof fn lemma_workspaces_are_visible(
    widget: Widget,
    listed: Seq<(i32, Option<String>)>,
    active: i32,
)
    ensures
        forall|k: int|
            0 <= k < workspace_faces(widget, listed, active).len() ==> is_visible(
                #[trigger] workspace_faces(widget, listed, active)[k],
            ),
    decreases listed.len(),
{
    if listed.len() > 0 {
        lemma_workspaces_are_visible(widget, listed.drop_last(), active);
        let id = listed.last().0;
        reveal_strlit("[");
        lemma_some_digits(id as int);
        assert(is_visible(workspace_face(widget, id, id == active)));
        let before = workspace_faces(widget, listed.drop_last(), active);
        let all = workspace_faces(widget, listed, active);
        assert forall|k: int| 0 <= k < all.len() implies is_visible(#[trigger] all[k]) by {
            if k < before.len() {
                assert(all[k] == before[k]);
            }
        }
    }
}

proof fn lemma_some_digits(n: int)
    ensures
        text::signed_decimal_of(n).len() > 0,
{
    let size = if n < 0 {
        (-n) as nat
    } else {
        n as nat
    };
    assert(text::decimal_of(size).len() > 0);
}

proof fn lemma_shown_on(monitors: Seq<(Seq<char>, i32)>, monitor: Seq<char>, at: int)
    requires
        0 <= at <= monitors.len(),
        forall|j: int| 0 <= j < at ==> (#[trigger] monitors[j]).0 != monitor,
        at < monitors.len() ==> monitors[at].0 == monitor,
    ensures
        message::shown_on(monitors, monitor) == if at < monitors.len() {
            Some(monitors[at].1)
        } else {
            None
        },
    decreases at,
{
    if at > 0 {
        let rest = monitors.skip(1);
        assert(monitors[0].0 != monitor);
        assert forall|j: int| 0 <= j < at - 1 implies (#[trigger] rest[j]).0 != monitor by {
            assert(rest[j] == monitors[j + 1]);
        }
        lemma_shown_on(rest, monitor, at - 1);
    }
}

proof fn lemma_active_workspace(widget: Widget, workspaces: Workspaces, active: i32)
    requires
        is_active_workspace(widget, workspaces, active),
    ensures
        active_on(widget.monitor, workspaces) == active,
{
    match widget.monitor {
        Some(monitor) => {
            let monitors = workspaces.monitors();
            if exists|j: int| 0 <= j < monitors.len() && (#[trigger] monitors[j]).0 == monitor@ {
                let at = choose|at: int|
                    0 <= at < workspaces.monitors().len() && (
                    #[trigger] workspaces.monitors()[at]).0 == monitor@
                        && workspaces.monitors()[at].1 == active && forall|j: int|
                        0 <= j < at ==> (#[trigger] workspaces.monitors()[j]).0 != monitor@;
                lemma_shown_on(monitors, monitor@, at);
            } else {
                lemma_shown_on(monitors, monitor@, monitors.len() as int);
            }
        },
        None => {},
    }
}

/// There is one piece for each workspace that stands on the widget's monitor, in the order
/// in which they are listed. A click on it switches to that workspace, its number is what
/// it shows, and brackets and the accent mark the active one alone.
pub proof fn lemma_each_workspace_has_its_piece(
    widget: Widget,
    news: &[&Msg],
    pieces: Vec<Piece>,
    i: int,
    workspaces: Workspaces,
    listed: &Vec<(i32, Option<String>)>,
    active: i32,
    j: int,
)
    requires
        call_ensures(face, (&widget, news), pieces),
        tells(widget, news@, i),
        *news@[i] == Msg::Workspaces(workspaces),
        call_ensures(Workspaces::listed, (&workspaces,), listed),
        is_active_workspace(widget, workspaces, active),
        0 <= j < listed@.len(),
        standing(listed@, widget.monitor, j + 1) > standing(listed@, widget.monitor, j),
    ensures
        pieces@.len() == standing(listed@, widget.monitor, listed@.len() as int),
        0 <= standing(listed@, widget.monitor, j) < pieces@.len(),
        ({
            let piece = pieces@[standing(listed@, widget.monitor, j)];
            let id = listed@[j].0;
            let number = text::signed_decimal_of(id as int);
            &&& piece.left == Some(Command::SwitchWorkspace(id))
            &&& piece.right is None && piece.increase is None && piece.decrease is None
            &&& id == active ==> piece.lead@ == "["@ + number + "]"@ && piece.colors.foreground
                == widget.style.accent
            &&& id != active ==> piece.lead@ == number && piece.colors.foreground
                == widget.style.foreground
            &&& piece.colors.background == widget.style.background
            &&& piece.colors.border == widget.style.border
            &&& piece.glyph is Hidden && piece.tail@.len() == 0 && !piece.dot
            &&& is_outlined(widget.style, piece)
        }),
{
    let all = workspace_faces(widget, listed@, active);
    lemma_active_workspace(widget, workspaces, active);
    assert(listed@.take(listed@.len() as int) =~= listed@);
    lemma_workspaces(widget, listed@, active, listed@.len() as int, j);
    lemma_workspaces_are_visible(widget, listed@, active);
    lemma_filter_keeps_all(all);
    lemma_shown(widget, news, pieces, i);
    assert(piece_views(pieces@).len() == pieces@.len());
    let at = standing(listed@, widget.monitor, j);
    assert(piece_views(pieces@)[at] == pieces@[at]@);
}

/// Whether `active` is the workspace that is active for a widget: the one that is shown on
/// its monitor, or the focused one when it has no monitor or nothing is known of it.
pub open spec fn is_active_workspace(widget: Widget, workspaces: Workspaces, active: i32) -> bool {
    match widget.monitor {
        Some(monitor) => {
            ||| exists|at: int|
                0 <= at < workspaces.monitors().len() && (#[trigger] workspaces.monitors()[at]).0
                    == monitor@ && workspaces.monitors()[at].1 == active && forall|j: int|
                    0 <= j < at ==> (#[trigger] workspaces.monitors()[j]).0 != monitor@
            ||| active == workspaces.focused() && forall|j: int|
                0 <= j < workspaces.monitors().len() ==> (#[trigger] workspaces.monitors()[j]).0
                    != monitor@
        },
        None => active == workspaces.focused(),
    }
}


/// Every tray item has its piece, in order: its icon, or without one the initial of its
/// title. The secondary button opens its menu, the primary one too where the item is all
/// menu, and activates it elsewhere; an item that needs attention gets its colors.
pub proof fn lemma_each_tray_item_has_its_piece(
    widget: Widget,
    news: &[&Msg],
    pieces: Vec<Piece>,
    i: int,
    state: TrayState,
    k: int,
)
    requires
        call_ensures(face, (&widget, news), pieces),
        tells(widget, news@, i),
        *news@[i] == Msg::Tray(state),
        0 <= k < state@.len(),
    ensures
        pieces@.len() == state@.len(),
        ({
            let item = state@[k];
            let piece = pieces@[k];
            &&& item.icon is Some ==> piece.glyph == Glyph::Item(k as usize) && piece.lead@.len()
                == 0
            &&& item.icon is None ==> piece.glyph is Hidden && piece.lead@ == item.initial()
            &&& item.menu == TrayMenuMode::Primary ==> (piece.left matches Some(
                Command::OpenTrayMenu { key, .. },
            ) && key@ == item.key)
            &&& item.menu != TrayMenuMode::Primary ==> (piece.left matches Some(
                Command::ActivateTrayItem { key, .. },
            ) && key@ == item.key)
            &&& piece.right matches Some(Command::OpenTrayMenu { key, .. }) && key@ == item.key
            &&& piece.tooltip matches Some(told) && told@ == item.title
            &&& item.status == TrayStatus::NeedsAttention ==> piece.colors == widget.style.attention
            &&& item.status != TrayStatus::NeedsAttention ==> is_plain(widget.style, piece)
            &&& piece.tail@.len() == 0 && !piece.dot
            &&& piece.increase is None && piece.decrease is None
            &&& is_outlined(widget.style, piece)
        }),
{
    let all = tray_faces(widget, state@);
    assert forall|j: int| 0 <= j < all.len() implies is_visible(#[trigger] all[j]) by {
        assert(all[j] == tray_face(widget, state@[j], j));
    }
    lemma_filter_keeps_all(all);
    lemma_shown(widget, news, pieces, i);
    assert(piece_views(pieces@).len() == pieces@.len());
    assert(piece_views(pieces@)[k] == pieces@[k]@);
    assert(all[k] == tray_face(widget, state@[k], k));
}

/// A configured format is the label: one without placeholders shows as it stands, without
/// blanks around it and without a glyph, whatever the news.
pub proof fn lemma_a_configured_format_is_the_label(
    widget: Widget,
    news: &[&Msg],
    pieces: Vec<Piece>,
    i: int,
    format: String,
)
    requires
        call_ensures(face, (&widget, news), pieces),
        tells(widget, news@, i),
        match *news@[i] {
            Msg::Battery(battery) => battery is Some,
            Msg::Backlight(level) => level is Some,
            Msg::PowerProfiles(state) => state is Some,
            Msg::Updates(count) => count matches Some(count) && count > 0,
            _ => false,
        },
        widget.format == Some(format),
        !format@.contains('{'),
        text::trimmed(format@).len() > 0,
    ensures
        pieces@.len() == 1,
        pieces@[0].lead@ == text::trimmed(format@),
        pieces@[0].glyph is Hidden,
        pieces@[0].tail@.len() == 0,
{
    reveal_strlit("{icon}");
    reveal_strlit("{percent}");
    reveal_strlit("{state}");
    reveal_strlit("{count}");
    reveal_strlit("{profile}");
    reveal_strlit("{driver}");
    reveal_strlit("{cpu_driver}");
    reveal_strlit("{platform_driver}");
    let none = Seq::<char>::empty();
    lemma_no_glyph(format@);
    match *news@[i] {
        Msg::Battery(Some(battery)) => {
            let face = battery_face(widget, battery@);
            template::lemma_plain_text_stays(
                format@,
                seq![
                    ("{percent}"@, text::decimal_of(battery@.1 as nat)),
                    ("{state}"@, widget::battery_word(battery@.0)),
                ],
            );
            assert(format@ + none =~= format@);
            lemma_shown_alone(widget, news, pieces, i, face);
        },
        Msg::Backlight(Some(level)) => {
            template::lemma_plain_text_stays(
                format@,
                seq![("{percent}"@, text::decimal_of(level as nat))],
            );
            assert(format@ + none =~= format@);
            lemma_shown_alone(widget, news, pieces, i, backlight_face(widget, level));
        },
        Msg::PowerProfiles(Some(state)) => {
            template::lemma_plain_text_stays(format@, profile_values(state@));
            assert(format@ + none =~= format@);
            lemma_shown_alone(widget, news, pieces, i, profiles_face(widget, state@));
        },
        Msg::Updates(Some(count)) => {
            template::lemma_plain_text_stays(
                format@,
                seq![("{count}"@, text::decimal_of(count as nat))],
            );
            assert(format@ + none =~= format@);
            lemma_shown_alone(widget, news, pieces, i, updates_face(widget, count));
        },
        _ => {},
    }
}

proof fn lemma_no_glyph(format: Seq<char>)
    requires
        !format.contains('{'),
    ensures
        template::around(format, "{icon}"@) is None,
    decreases format.len(),
{
    reveal_strlit("{icon}");
    if format.len() > 0 {
        assert(format.contains(format[0]));
        let rest = format.skip(1);
        assert forall|k: int| 0 <= k < rest.len() implies rest[k] != '{' by {
            assert(format.contains(format[k + 1]));
        }
        lemma_no_glyph(rest);
        if "{icon}"@.is_prefix_of(format) {
            assert("{icon}"@[0] == format[0]);
        }
    }
}

/// What is offered for the active power profile in a table of icons stands in place of
/// the built-in one; without an entry for it, the default entry does.
pub proof fn lemma_a_table_of_icons_names_the_profile(
    widget: Widget,
    news: &[&Msg],
    pieces: Vec<Piece>,
    i: int,
    state: PowerProfilesState,
    named: Vec<(String, String)>,
    at: int,
)
    requires
        call_ensures(face, (&widget, news), pieces),
        tells(widget, news@, i),
        *news@[i] == Msg::PowerProfiles(Some(state)),
        widget.style.icon is Default,
        widget.format is None,
        widget.format_icons == Some(FormatIconsConfig::Named(named)),
        0 <= at < named@.len(),
        ({
            let own = |j: int| named@[j].0@ == state@.active;
            let default = |j: int| named@[j].0@ == "default"@;
            ||| own(at) && forall|j: int| 0 <= j < at ==> (#[trigger] named@[j]).0@ != state@.active
            ||| default(at) && (forall|j: int|
                0 <= j < at ==> (#[trigger] named@[j]).0@ != "default"@) && forall|j: int|
                0 <= j < named@.len() ==> (#[trigger] named@[j]).0@ != state@.active
        }),
    ensures
        pieces@.len() == 1,
        pieces@[0].glyph matches Glyph::Word(word) && word@ == named@[at].1@,
{
    if named@[at].0@ == state@.active {
        lemma_entry(named@, state@.active, at);
    } else {
        lemma_entry(named@, state@.active, named@.len() as int);
        lemma_entry(named@, "default"@, at);
    }
    reveal_strlit("{icon}");
    let none = Seq::<char>::empty();
    assert("{icon}"@ =~= "{icon}"@ + none);
    let values = profile_values(state@);
    let icon = named_icon(widget.format_icons, state@.active);
    lemma_glyph_then_text(
        widget,
        "{icon}"@,
        none,
        glyph_of(widget.style, profile_art(state@.active), icon),
        values,
        plain(widget.style),
    );
    lemma_shown_alone(widget, news, pieces, i, profiles_face(widget, state@));
}

proof fn lemma_entry(entries: Seq<(String, String)>, name: Seq<char>, at: int)
    requires
        0 <= at <= entries.len(),
        forall|j: int| 0 <= j < at ==> (#[trigger] entries[j]).0@ != name,
        at < entries.len() ==> entries[at].0@ == name,
    ensures
        entry(entries, name) == if at < entries.len() {
            Some(entries[at].1@)
        } else {
            None
        },
    decreases at,
{
    if at > 0 {
        let rest = entries.skip(1);
        assert(entries[0].0@ != name);
        assert forall|j: int| 0 <= j < at - 1 implies (#[trigger] rest[j]).0@ != name by {
            assert(rest[j] == entries[j + 1]);
        }
        lemma_entry(rest, name, at - 1);
    }
}

/// A message about a widget is on its subject.
pub proof fn lemma_about(widget: Widget, msg: Msg)
    ensures
        is_about(widget, msg) <==> subject_of(widget) == Some(msg.subject()),
{
    lemma_about_by_subject(widget, msg);
}

/// The bell is one piece, whatever is pending, or none where its glyph is hidden.
pub proof fn lemma_bell_is_one_piece(
    widget: Widget,
    news: Seq<&Msg>,
    i: int,
    state: Notifications,
)
    requires
        tells(widget, news, i),
        *news[i] == Msg::Notifications(Some(state)),
    ensures
        face_of(widget, news).len() == if widget.style.icon is Hidden {
            0int
        } else {
            1
        },
{
    lemma_latest(widget, news, i);
    let face = notifications_face(widget, state@);
    lemma_bare(
        widget,
        if state@.1 {
            BuiltinIcon::NotificationsOff
        } else {
            BuiltinIcon::Notifications
        },
        face.colors,
    );
    lemma_filter_alone(face);
}

/// In the tooltip of the power profiles each placeholder stands for its own: the profile's
/// name, its driver, and those of the processor and the platform.
pub proof fn lemma_each_placeholder_stands_for_its_driver(
    widget: Widget,
    news: &[&Msg],
    pieces: Vec<Piece>,
    i: int,
    state: PowerProfilesState,
    format: String,
    at: int,
)
    requires
        call_ensures(face, (&widget, news), pieces),
        tells(widget, news@, i),
        *news@[i] == Msg::PowerProfiles(Some(state)),
        widget.style.icon is Default,
        widget.format is None,
        widget.format_icons is None,
        widget.tooltip is None,
        widget.tooltip_format == Some(format),
        0 <= at < state@.profiles.len(),
        state@.profiles[at].name == state@.active,
        forall|j: int| 0 <= j < at ==> (#[trigger] state@.profiles[j]).name != state@.active,
    ensures
        pieces@.len() == 1,
        pieces@[0].tooltip is Some,
        format@ == "{profile}"@ ==> pieces@[0].tooltip->0@ == state@.active,
        format@ == "{driver}"@ ==> pieces@[0].tooltip->0@ == state@.profiles[at].driver,
        format@ == "{cpu_driver}"@ ==> pieces@[0].tooltip->0@ == state@.profiles[at].cpu_driver,
        format@ == "{platform_driver}"@ ==> pieces@[0].tooltip->0@
            == state@.profiles[at].platform_driver,
{
    let face = profiles_face(widget, state@);
    reveal_strlit("{icon}");
    reveal_strlit("{profile}");
    reveal_strlit("{driver}");
    reveal_strlit("{cpu_driver}");
    reveal_strlit("{platform_driver}");
    let none = Seq::<char>::empty();
    assert("{icon}"@ =~= "{icon}"@ + none);
    let values = profile_values(state@);
    lemma_glyph_then_text(
        widget,
        "{icon}"@,
        none,
        glyph_of(widget.style, profile_art(state@.active), None),
        values,
        plain(widget.style),
    );
    assert(template::filled(none, values) =~= none);
    lemma_shown_alone(widget, news, pieces, i, face);
    lemma_first_profile(state@.profiles, at);
    let all = values.push(("{icon}"@, seq![]));
    assert(all[0] == values[0] && all[1] == values[1] && all[2] == values[2] && all[3]
        == values[3]);
    assert("{profile}"@[1] == 'p' && "{driver}"@[1] == 'd' && "{cpu_driver}"@[1] == 'c'
        && "{platform_driver}"@[1] == 'p');
    assert("{profile}"@[2] == 'r' && "{platform_driver}"@[2] == 'l');
    assert forall|k: int| 0 <= k < 4 && format@ == #[trigger] all[k].0 implies template::filled(
        format@,
        all,
    ) == all[k].1 by {
        assert(all[k].0 + none =~= format@);
        assert forall|j: int| 0 <= j < k implies !(#[trigger] all[j]).0.is_prefix_of(
            all[k].0 + none,
        ) || all[j].0.len() == 0 by {
            if all[j].0.is_prefix_of(format@) {
                let begin = format@.subrange(0, all[j].0.len() as int);
                assert(begin[1] == format@[1] && begin[2] == format@[2]);
            }
        }
        template::lemma_a_placeholder_stands_for_its_value(all, k, none);
        assert(template::filled(none, all) =~= none);
        assert(all[k].1 + none =~= all[k].1);
    }
    assert(all[0].0 == "{profile}"@);
    assert(all[1].0 == "{driver}"@);
    assert(all[2].0 == "{cpu_driver}"@);
    assert(all[3].0 == "{platform_driver}"@);
}

} // verus!
