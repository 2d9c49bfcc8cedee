//! Configuration of the bar: theme, dimensions, fonts, zone layout, and
//! per-widget styling.
//!
//! Every field has a documented default, so an absent configuration renders the
//! full default bar. Placement (which zone a widget sits in) lives in [`Bar`];
//! per-widget *styling* lives in [`WidgetStyles`], so moving a widget between
//! zones never disturbs its colors. A [`MonitorConfig`] restyles or re-lays-out
//! one output, matched by connector name.

pub mod color;
pub mod layout;
pub mod message;
pub mod path;
pub mod style;
pub mod validate;

use crate::number::{Single, SINGLE_SIXTEEN};
use crate::text;
use vstd::prelude::*;

pub use color::Color;
pub use layout::ResolvedZones;
pub use path::config_file_path_from;
pub use style::{FormatIconsConfig, StateColorConfig, WidgetStyleConfig, WidgetStyles};

verus! {

/// Default bar height in pixels.
pub const DEFAULT_HEIGHT: u32 = 32;

/// The bar's color theme.
#[derive(Debug, Clone, Copy, PartialEq, Eq, Structural)]
pub struct Theme {
    /// Background fill behind every widget.
    pub background: Color,
    /// Default text color.
    pub foreground: Color,
    /// Emphasis color (e.g. the active workspace).
    pub accent: Color,
}

impl Theme {
    /// The theme that nothing configures: light on opaque dark.
    pub open spec fn builtin() -> Theme {
        Theme {
            background: Color { r: 0x18, g: 0x18, b: 0x18, a: 0xFF },
            foreground: Color { r: 0xEA, g: 0xEA, b: 0xEA, a: 0xFF },
            accent: Color { r: 0xEA, g: 0xEA, b: 0xEA, a: 0xFF },
        }
    }
}

impl Default for Theme {
    fn default() -> (theme: Self)
        ensures
            theme == Theme::builtin(),
    {
        Theme {
            background: Color::rgb(0x18, 0x18, 0x18),
            foreground: Color::rgb(0xEA, 0xEA, 0xEA),
            accent: Color::rgb(0xEA, 0xEA, 0xEA),
        }
    }
}

/// Font selection for rendered text.
#[derive(Debug, PartialEq, Eq)]
pub struct Font {
    /// Font family name. `None` uses the system default font.
    pub family: Option<String>,
    /// Text size in pixels.
    pub size: Single,
}

/// The contents of a [`Font`].
#[verifier::ext_equal]
pub struct FontView {
    /// Font family name.
    pub family: Option<Seq<char>>,
    /// Text size in pixels.
    pub size: Single,
}

impl View for Font {
    type V = FontView;

    open spec fn view(&self) -> FontView {
        FontView { family: text::optional(self.family), size: self.size }
    }
}

impl FontView {
    /// The font that nothing configures: the system's, at sixteen pixels.
    pub open spec fn builtin() -> FontView {
        FontView { family: None, size: Single { bits: SINGLE_SIXTEEN } }
    }
}

impl Clone for Font {
    fn clone(&self) -> (copy: Self)
        ensures
            copy@ == self@,
    {
        Font { family: text::copy_optional(&self.family), size: self.size }
    }
}

impl Default for Font {
    fn default() -> (font: Self)
        ensures
            font@ == FontView::builtin(),
    {
        Font { family: None, size: Single { bits: SINGLE_SIXTEEN } }
    }
}

/// One kind of widget the bar can render, named in the zone lists.
#[derive(Debug, Clone, Copy, PartialEq, Eq, Structural)]
pub enum WidgetKind {
    /// The Hyprland workspace indicator.
    Workspaces,
    /// The wall clock.
    Clock,
    /// The battery indicator.
    Battery,
    /// The screen brightness indicator and scroll control (opt-in).
    Backlight,
    /// The CPU/memory indicator.
    System,
    /// The network connectivity indicator.
    Network,
    /// The StatusNotifierItem system tray.
    Tray,
    /// The focused window's title on the bound monitor.
    Title,
    /// The local Bluetooth adapter state (opt-in: not in the default zones).
    Bluetooth,
    /// The active PipeWire output sink's volume / mute state (opt-in: not in
    /// the default zones).
    Volume,
    /// The swaync notification indicator (opt-in: not in the default zones).
    Notifications,
    /// The active power-profiles-daemon profile.
    PowerProfilesDaemon,
    /// Available Arch repository and AUR package updates (opt-in).
    Updates,
    /// Whether the Hypridle daemon is active, with a primary-click toggle (opt-in).
    Hypridle,
    /// Configurable session power launcher (opt-in).
    Power,
}

/// Copy a zone list.
pub fn copy_zone(zone: &Vec<WidgetKind>) -> (copy: Vec<WidgetKind>)
    ensures
        copy@ == zone@,
{
    let mut copy: Vec<WidgetKind> = Vec::new();
    let mut i: usize = 0;
    while i < zone.len()
        invariant
            i <= zone@.len(),
            copy@ == zone@.take(i as int),
        decreases zone@.len() - i,
    {
        copy.push(zone[i]);
        i += 1;
    }
    copy
}

/// The bar layout: which widgets populate each of the three zones, plus the
/// bar-wide spacing and an optional background that overrides the theme's.
///
/// Placement lives here; per-widget *styling* lives in the separate
/// [`WidgetStyles`] tables, so moving a widget between zones never disturbs its
/// colors, and restyling never disturbs its position.
#[derive(Debug, PartialEq, Eq)]
pub struct Bar {
    /// Bar background; `None` inherits the theme's background. A non-opaque
    /// alpha makes the bar (the space between pills) transparent.
    pub background: Option<Color>,
    /// Inset around the whole pill row, in logical pixels.
    pub margin: u32,
    /// Gap between adjacent pills within a zone, in logical pixels.
    pub gap: u32,
    /// Widgets clustered at the left edge.
    pub modules_left: Vec<WidgetKind>,
    /// Widgets centered in the bar.
    pub modules_center: Vec<WidgetKind>,
    /// Widgets clustered at the right edge.
    pub modules_right: Vec<WidgetKind>,
}

/// The contents of a [`Bar`].
#[verifier::ext_equal]
pub struct BarView {
    /// Bar background.
    pub background: Option<Color>,
    /// Inset around the whole pill row.
    pub margin: u32,
    /// Gap between adjacent pills.
    pub gap: u32,
    /// The left zone.
    pub modules_left: Seq<WidgetKind>,
    /// The center zone.
    pub modules_center: Seq<WidgetKind>,
    /// The right zone.
    pub modules_right: Seq<WidgetKind>,
}

impl View for Bar {
    type V = BarView;

    open spec fn view(&self) -> BarView {
        BarView {
            background: self.background,
            margin: self.margin,
            gap: self.gap,
            modules_left: self.modules_left@,
            modules_center: self.modules_center@,
            modules_right: self.modules_right@,
        }
    }
}

impl BarView {
    /// The conventional bar that nothing configures: workspaces at the left, the
    /// title centered, the time-and-status cluster at the right.
    pub open spec fn builtin() -> BarView {
        BarView {
            background: None,
            margin: 0,
            gap: 0,
            modules_left: seq![WidgetKind::Workspaces],
            modules_center: seq![WidgetKind::Title],
            modules_right: seq![
                WidgetKind::Clock,
                WidgetKind::Battery,
                WidgetKind::System,
                WidgetKind::Network,
                WidgetKind::PowerProfilesDaemon,
            ],
        }
    }

    /// Whether a zone names `kind`.
    pub open spec fn names(self, kind: WidgetKind) -> bool {
        ||| self.modules_left.contains(kind)
        ||| self.modules_center.contains(kind)
        ||| self.modules_right.contains(kind)
    }
}

impl Clone for Bar {
    fn clone(&self) -> (copy: Self)
        ensures
            copy@ == self@,
    {
        Bar {
            background: self.background,
            margin: self.margin,
            gap: self.gap,
            modules_left: copy_zone(&self.modules_left),
            modules_center: copy_zone(&self.modules_center),
            modules_right: copy_zone(&self.modules_right),
        }
    }
}

impl Default for Bar {
    fn default() -> (bar: Self)
        ensures
            bar@ == BarView::builtin(),
    {
        let bar = Bar {
            background: None,
            margin: 0,
            gap: 0,
            modules_left: vec![WidgetKind::Workspaces],
            modules_center: vec![WidgetKind::Title],
            modules_right: vec![
                WidgetKind::Clock,
                WidgetKind::Battery,
                WidgetKind::System,
                WidgetKind::Network,
                WidgetKind::PowerProfilesDaemon,
            ],
        };
        assert(bar@ =~= BarView::builtin());
        bar
    }
}

/// Per-channel theme overrides for one monitor.
///
/// Each channel is optional: a set channel replaces the base theme's, an unset
/// one inherits it. This field-level merge is why a monitor that overrides only
/// `background` keeps the global `foreground` and `accent` rather than resetting
/// them to the [`Theme`] defaults.
#[derive(Debug, Clone, Copy, PartialEq, Eq, Structural)]
pub struct ThemeOverride {
    /// Background fill, if overridden.
    pub background: Option<Color>,
    /// Text color, if overridden.
    pub foreground: Option<Color>,
    /// Emphasis color, if overridden.
    pub accent: Option<Color>,
}

/// The value an override leaves in place of a plain one.
pub open spec fn replaced<T>(set: Option<T>, base: T) -> T {
    match set {
        Some(value) => value,
        None => base,
    }
}

impl ThemeOverride {
    /// The override with nothing set.
    pub open spec fn unset() -> ThemeOverride {
        ThemeOverride { background: None, foreground: None, accent: None }
    }

    /// `base` with each channel that `self` sets replaced.
    pub open spec fn over(self, base: Theme) -> Theme {
        Theme {
            background: replaced(self.background, base.background),
            foreground: replaced(self.foreground, base.foreground),
            accent: replaced(self.accent, base.accent),
        }
    }

    /// Apply the set channels onto `base`, leaving unset ones untouched.
    pub fn apply(self, base: &mut Theme)
        ensures
            *final(base) == self.over(*old(base)),
    {
        if let Some(background) = self.background {
            base.background = background;
        }
        if let Some(foreground) = self.foreground {
            base.foreground = foreground;
        }
        if let Some(accent) = self.accent {
            base.accent = accent;
        }
    }
}

impl Default for ThemeOverride {
    fn default() -> (theme: Self)
        ensures
            theme == ThemeOverride::unset(),
    {
        ThemeOverride { background: None, foreground: None, accent: None }
    }
}

/// Per-field font overrides for one monitor (see [`ThemeOverride`] for the
/// inherit-when-unset rationale).
#[derive(Debug, PartialEq, Eq)]
pub struct FontOverride {
    /// Font family, if overridden.
    pub family: Option<String>,
    /// Text size, if overridden.
    pub size: Option<Single>,
}

/// The contents of a [`FontOverride`].
#[verifier::ext_equal]
pub struct FontOverrideView {
    /// Font family, if overridden.
    pub family: Option<Seq<char>>,
    /// Text size, if overridden.
    pub size: Option<Single>,
}

impl View for FontOverride {
    type V = FontOverrideView;

    open spec fn view(&self) -> FontOverrideView {
        FontOverrideView { family: text::optional(self.family), size: self.size }
    }
}

impl FontOverrideView {
    /// The override with nothing set.
    pub open spec fn unset() -> FontOverrideView {
        FontOverrideView { family: None, size: None }
    }

    /// `base` with each field that `self` sets replaced.
    pub open spec fn over(self, base: FontView) -> FontView {
        FontView {
            family: style::overridden(self.family, base.family),
            size: replaced(self.size, base.size),
        }
    }
}

impl FontOverride {
    /// Apply the set fields onto `base`, leaving unset ones untouched.
    pub fn apply(&self, base: &mut Font)
        ensures
            final(base)@ == self@.over(old(base)@),
    {
        if self.family.is_some() {
            base.family = text::copy_optional(&self.family);
        }
        if let Some(size) = self.size {
            base.size = size;
        }
    }
}

impl Default for FontOverride {
    fn default() -> (font: Self)
        ensures
            font@ == FontOverrideView::unset(),
    {
        FontOverride { family: None, size: None }
    }
}

/// Per-field bar overrides for one monitor.
///
/// Every field is optional (see [`ThemeOverride`] for the inherit-when-unset
/// rationale). A set zone list *replaces* the global one wholesale, while an
/// unset zone inherits the global layout. Spacing and background follow the same
/// set-replaces rule.
#[derive(Debug, PartialEq, Eq)]
pub struct BarOverride {
    /// Bar background, if overridden.
    pub background: Option<Color>,
    /// Pill-row inset, if overridden.
    pub margin: Option<u32>,
    /// Inter-pill gap, if overridden.
    pub gap: Option<u32>,
    /// Left zone, if overridden (replaces the global list wholesale).
    pub modules_left: Option<Vec<WidgetKind>>,
    /// Center zone, if overridden (replaces the global list wholesale).
    pub modules_center: Option<Vec<WidgetKind>>,
    /// Right zone, if overridden (replaces the global list wholesale).
    pub modules_right: Option<Vec<WidgetKind>>,
}

/// The contents of a [`BarOverride`].
#[verifier::ext_equal]
pub struct BarOverrideView {
    /// Bar background, if overridden.
    pub background: Option<Color>,
    /// Pill-row inset, if overridden.
    pub margin: Option<u32>,
    /// Inter-pill gap, if overridden.
    pub gap: Option<u32>,
    /// Left zone, if overridden.
    pub modules_left: Option<Seq<WidgetKind>>,
    /// Center zone, if overridden.
    pub modules_center: Option<Seq<WidgetKind>>,
    /// Right zone, if overridden.
    pub modules_right: Option<Seq<WidgetKind>>,
}

/// The widgets of an optional zone list.
pub open spec fn optional_zone(zone: Option<Vec<WidgetKind>>) -> Option<Seq<WidgetKind>> {
    match zone {
        Some(zone) => Some(zone@),
        None => None,
    }
}

impl View for BarOverride {
    type V = BarOverrideView;

    open spec fn view(&self) -> BarOverrideView {
        BarOverrideView {
            background: self.background,
            margin: self.margin,
            gap: self.gap,
            modules_left: optional_zone(self.modules_left),
            modules_center: optional_zone(self.modules_center),
            modules_right: optional_zone(self.modules_right),
        }
    }
}

/// Whether an overridden zone names `kind`.
pub open spec fn zone_names(zone: Option<Seq<WidgetKind>>, kind: WidgetKind) -> bool {
    zone is Some && zone->0.contains(kind)
}

impl BarOverrideView {
    /// The override with nothing set.
    pub open spec fn unset() -> BarOverrideView {
        BarOverrideView {
            background: None,
            margin: None,
            gap: None,
            modules_left: None,
            modules_center: None,
            modules_right: None,
        }
    }

    /// `base` with each field that `self` sets replaced.
    pub open spec fn over(self, base: BarView) -> BarView {
        BarView {
            background: style::overridden(self.background, base.background),
            margin: replaced(self.margin, base.margin),
            gap: replaced(self.gap, base.gap),
            modules_left: replaced(self.modules_left, base.modules_left),
            modules_center: replaced(self.modules_center, base.modules_center),
            modules_right: replaced(self.modules_right, base.modules_right),
        }
    }

    /// Whether an overridden zone names `kind`.
    pub open spec fn names(self, kind: WidgetKind) -> bool {
        ||| zone_names(self.modules_left, kind)
        ||| zone_names(self.modules_center, kind)
        ||| zone_names(self.modules_right, kind)
    }
}

impl BarOverride {
    /// Apply the set fields onto `base`, leaving unset ones untouched.
    pub fn apply(&self, base: &mut Bar)
        ensures
            final(base)@ == self@.over(old(base)@),
    {
        if self.background.is_some() {
            base.background = self.background;
        }
        if let Some(margin) = self.margin {
            base.margin = margin;
        }
        if let Some(gap) = self.gap {
            base.gap = gap;
        }
        if let Some(left) = &self.modules_left {
            base.modules_left = copy_zone(left);
        }
        if let Some(center) = &self.modules_center {
            base.modules_center = copy_zone(center);
        }
        if let Some(right) = &self.modules_right {
            base.modules_right = copy_zone(right);
        }
    }
}

impl Default for BarOverride {
    fn default() -> (bar: Self)
        ensures
            bar@ == BarOverrideView::unset(),
    {
        BarOverride {
            background: None,
            margin: None,
            gap: None,
            modules_left: None,
            modules_center: None,
            modules_right: None,
        }
    }
}

/// A per-monitor configuration override, matched to an output by connector name.
///
/// Every field except [`name`](MonitorConfig::name) is optional and inherits the
/// global [`Config`] when unset, so a monitor entry only states what differs.
/// Resolved by [`Config::resolve_for_output`].
#[derive(Debug, PartialEq, Eq)]
pub struct MonitorConfig {
    /// The output connector name this override applies to (e.g. `"DP-1"`).
    pub name: String,
    /// Bar height override.
    pub height: Option<u32>,
    /// Theme channel overrides.
    pub theme: ThemeOverride,
    /// Font field overrides.
    pub font: FontOverride,
    /// Bar layout overrides: per-zone module lists, spacing, and background.
    pub bar: BarOverride,
    /// Per-widget style overrides, folded onto the global widget tables.
    pub widget: WidgetStyles,
}

/// The contents of a [`MonitorConfig`].
#[verifier::ext_equal]
pub struct MonitorConfigView {
    /// The output connector name.
    pub name: Seq<char>,
    /// Bar height override.
    pub height: Option<u32>,
    /// Theme channel overrides.
    pub theme: ThemeOverride,
    /// Font field overrides.
    pub font: FontOverrideView,
    /// Bar layout overrides.
    pub bar: BarOverrideView,
    /// Per-widget style overrides.
    pub widget: style::WidgetStylesView,
}

impl View for MonitorConfig {
    type V = MonitorConfigView;

    open spec fn view(&self) -> MonitorConfigView {
        MonitorConfigView {
            name: self.name@,
            height: self.height,
            theme: self.theme,
            font: self.font@,
            bar: self.bar@,
            widget: self.widget@,
        }
    }
}

impl Default for MonitorConfig {
    fn default() -> (monitor: Self)
        ensures
            monitor@ == (MonitorConfigView {
                name: seq![],
                height: None,
                theme: ThemeOverride::unset(),
                font: FontOverrideView::unset(),
                bar: BarOverrideView::unset(),
                widget: style::WidgetStylesView::unset(),
            }),
    {
        MonitorConfig {
            name: String::new(),
            height: None,
            theme: ThemeOverride::default(),
            font: FontOverride::default(),
            bar: BarOverride::default(),
            widget: WidgetStyles::default(),
        }
    }
}

/// The bar configuration.
///
/// [`Config::default`] is the documented baseline every field falls back to. On
/// a multi-monitor setup, [`resolve_for_output`](Config::resolve_for_output)
/// folds any matching [`MonitorConfig`] into a per-output config.
#[derive(Debug, PartialEq, Eq)]
pub struct Config {
    /// Bar height in pixels.
    pub height: u32,
    /// Color theme.
    pub theme: Theme,
    /// Font selection.
    pub font: Font,
    /// Bar layout: zone module lists, spacing, and optional background.
    pub bar: Bar,
    /// Per-widget style tables.
    pub widget: WidgetStyles,
    /// Per-monitor overrides, matched to outputs by connector name.
    pub monitors: Vec<MonitorConfig>,
}

/// The contents of a [`Config`].
#[verifier::ext_equal]
pub struct ConfigView {
    /// Bar height in pixels.
    pub height: u32,
    /// Color theme.
    pub theme: Theme,
    /// Font selection.
    pub font: FontView,
    /// Bar layout.
    pub bar: BarView,
    /// Per-widget style tables.
    pub widget: style::WidgetStylesView,
    /// Per-monitor overrides.
    pub monitors: Seq<MonitorConfigView>,
}

/// The contents of each monitor override.
pub open spec fn monitor_views(monitors: Seq<MonitorConfig>) -> Seq<MonitorConfigView> {
    monitors.map_values(|m: MonitorConfig| m@)
}

impl View for Config {
    type V = ConfigView;

    open spec fn view(&self) -> ConfigView {
        ConfigView {
            height: self.height,
            theme: self.theme,
            font: self.font@,
            bar: self.bar@,
            widget: self.widget@,
            monitors: monitor_views(self.monitors@),
        }
    }
}

/// The first monitor override named `name`.
pub open spec fn first_named(
    monitors: Seq<MonitorConfigView>,
    name: Seq<char>,
) -> Option<MonitorConfigView>
    decreases monitors.len(),
{
    if monitors.len() == 0 {
        None
    } else if monitors[0].name == name {
        Some(monitors[0])
    } else {
        first_named(monitors.skip(1), name)
    }
}

impl ConfigView {
    /// The configuration that nothing configures.
    pub open spec fn builtin() -> ConfigView {
        ConfigView {
            height: DEFAULT_HEIGHT,
            theme: Theme::builtin(),
            font: FontView::builtin(),
            bar: BarView::builtin(),
            widget: style::WidgetStylesView::unset(),
            monitors: seq![],
        }
    }

    /// The configuration without its monitor overrides.
    pub open spec fn global(self) -> ConfigView {
        ConfigView { monitors: seq![], ..self }
    }

    /// The global configuration with `monitor` folded onto it.
    pub open spec fn folded(self, monitor: MonitorConfigView) -> ConfigView {
        ConfigView {
            height: replaced(monitor.height, self.height),
            theme: monitor.theme.over(self.theme),
            font: monitor.font.over(self.font),
            bar: monitor.bar.over(self.bar),
            widget: monitor.widget.over(self.widget),
            monitors: seq![],
        }
    }

    /// What the configuration comes to on the output named `output`: the first
    /// monitor override of that name folded onto the global values, or the global
    /// values alone.
    pub open spec fn for_output(self, output: Option<Seq<char>>) -> ConfigView {
        match output {
            None => self.global(),
            Some(name) => match first_named(self.monitors, name) {
                None => self.global(),
                Some(monitor) => self.folded(monitor),
            },
        }
    }
}

impl Default for Config {
    fn default() -> (config: Self)
        ensures
            config@ == ConfigView::builtin(),
    {
        let config = Config {
            height: DEFAULT_HEIGHT,
            theme: Theme::default(),
            font: Font::default(),
            bar: Bar::default(),
            widget: WidgetStyles::default(),
            monitors: Vec::new(),
        };
        assert(config@ =~= ConfigView::builtin());
        config
    }
}

impl Config {
    /// Resolve the effective config for one output, by connector name.
    ///
    /// The first [`MonitorConfig`] whose `name` matches `output` is folded onto a
    /// copy of the base config: each `Some` override replaces the corresponding
    /// field, each unset one inherits the global value. When `output` is `None`,
    /// or no monitor entry matches, the global defaults stand. The returned
    /// config carries an empty [`monitors`](Config::monitors) list: it is already
    /// specialized for one output and is not resolved again.
    pub fn resolve_for_output(&self, output: Option<&str>) -> (resolved: Config)
        ensures
            resolved@ == self@.for_output(text::optional_str(output)),
    {
        let mut resolved = Config {
            height: self.height,
            theme: self.theme,
            font: self.font.clone(),
            bar: self.bar.clone(),
            widget: self.widget.clone(),
            monitors: Vec::new(),
        };
        assert(resolved@ =~= self@.global());
        let name: &str = match output {
            Some(name) => name,
            None => {
                return resolved;
            },
        };
        let index: usize = match self.monitor_index(name) {
            Some(index) => index,
            None => {
                return resolved;
            },
        };
        let monitor: &MonitorConfig = &self.monitors[index];
        if let Some(height) = monitor.height {
            resolved.height = height;
        }
        monitor.theme.apply(&mut resolved.theme);
        monitor.font.apply(&mut resolved.font);
        monitor.bar.apply(&mut resolved.bar);
        monitor.widget.apply(&mut resolved.widget);
        assert(resolved@ =~= self@.folded(monitor@));
        resolved
    }

    /// Where the first monitor override named `name` stands.
    fn monitor_index(&self, name: &str) -> (index: Option<usize>)
        ensures
            match index {
                Some(i) => i < self.monitors@.len() && first_named(self@.monitors, name@) == Some(
                    self.monitors@[i as int]@,
                ),
                None => first_named(self@.monitors, name@) is None,
            },
    {
        let ghost all = self@.monitors;
        let mut i: usize = 0;
        assert(all.skip(0) =~= all);
        while i < self.monitors.len()
            invariant
                i <= self.monitors@.len(),
                all == monitor_views(self.monitors@),
                first_named(all, name@) == first_named(all.skip(i as int), name@),
            decreases self.monitors@.len() - i,
        {
            assert(all.skip(i as int)[0] == self.monitors@[i as int]@);
            assert(all.skip(i as int).skip(1) =~= all.skip(i + 1));
            if text::same(self.monitors[i].name.as_str(), name) {
                return Some(i);
            }
            i += 1;
        }
        assert(all.skip(i as int).len() == 0);
        None
    }
}

/// Resolving is final: a config resolved for an output resolves to itself for
/// every output.
pub proof fn lemma_resolving_is_final(
    config: ConfigView,
    output: Option<Seq<char>>,
    again: Option<Seq<char>>,
)
    ensures
        config.for_output(output).for_output(again) == config.for_output(output),
{
    let resolved = config.for_output(output);
    assert(resolved.monitors =~= seq![]);
    assert(resolved.global() == resolved);
}

/// An output that no override names, and one without a name, run on the global
/// values unchanged.
pub proof fn lemma_unmatched_output_is_global(config: ConfigView, name: Seq<char>)
    requires
        forall|i: int|
            0 <= i < config.monitors.len() ==> (#[trigger] config.monitors[i]).name != name,
    ensures
        config.for_output(Some(name)) == config.global(),
        config.for_output(None) == config.global(),
{
    lemma_none_named(config.monitors, name);
}

proof fn lemma_none_named(monitors: Seq<MonitorConfigView>, name: Seq<char>)
    requires
        forall|i: int| 0 <= i < monitors.len() ==> (#[trigger] monitors[i]).name != name,
    ensures
        first_named(monitors, name) is None,
    decreases monitors.len(),
{
    if monitors.len() > 0 {
        assert forall|i: int| 0 <= i < monitors.skip(1).len() implies (
        #[trigger] monitors.skip(1)[i]).name != name by {
            assert(monitors.skip(1)[i] == monitors[i + 1]);
        }
        lemma_none_named(monitors.skip(1), name);
    }
}

/// Of several overrides with one name the first counts: those behind it may be
/// anything.
pub proof fn lemma_first_match_wins(
    config: ConfigView,
    name: Seq<char>,
    place: int,
)
    requires
        0 <= place < config.monitors.len(),
        config.monitors[place].name == name,
        forall|i: int| 0 <= i < place ==> (#[trigger] config.monitors[i]).name != name,
    ensures
        config.for_output(Some(name)) == config.folded(config.monitors[place]),
{
    lemma_first_named(config.monitors, name, place);
}

proof fn lemma_first_named(monitors: Seq<MonitorConfigView>, name: Seq<char>, place: int)
    requires
        0 <= place < monitors.len(),
        monitors[place].name == name,
        forall|i: int| 0 <= i < place ==> (#[trigger] monitors[i]).name != name,
    ensures
        first_named(monitors, name) == Some(monitors[place]),
    decreases monitors.len(),
{
    if place > 0 {
        assert(monitors[0].name != name);
        let rest = monitors.skip(1);
        assert forall|i: int| 0 <= i < place - 1 implies (#[trigger] rest[i]).name != name by {
            assert(rest[i] == monitors[i + 1]);
        }
        assert(rest[place - 1] == monitors[place]);
        lemma_first_named(rest, name, place - 1);
    }
}

/// An override that sets nothing leaves the output on the global values.
pub proof fn lemma_unset_monitor_changes_nothing(config: ConfigView, monitor: MonitorConfigView)
    requires
        monitor.height is None,
        monitor.theme == ThemeOverride::unset(),
        monitor.font == FontOverrideView::unset(),
        monitor.bar == BarOverrideView::unset(),
        monitor.widget == style::WidgetStylesView::unset(),
    ensures
        config.folded(monitor) == config.global(),
{
}

/// What an override of a theme sets is the theme's color, and every other color stays.
pub proof fn lemma_each_color_overrides_its_own(set: ThemeOverride, theme: &mut Theme)
    requires
        call_ensures(ThemeOverride::apply, (set, theme), ()),
    ensures
        set.background matches Some(color) ==> final(theme).background == color,
        set.background is None ==> final(theme).background == old(theme).background,
        set.foreground matches Some(color) ==> final(theme).foreground == color,
        set.foreground is None ==> final(theme).foreground == old(theme).foreground,
        set.accent matches Some(color) ==> final(theme).accent == color,
        set.accent is None ==> final(theme).accent == old(theme).accent,
{
}

/// What an override of a font sets is the font's, and the rest stays.
pub proof fn lemma_family_and_size_override_their_own(set: FontOverride, font: &mut Font)
    requires
        call_ensures(FontOverride::apply, (&set, font), ()),
    ensures
        set.family matches Some(family) ==> text::optional(final(font).family) == Some(family@),
        set.family is None ==> text::optional(final(font).family) == text::optional(
            old(font).family,
        ),
        set.size matches Some(size) ==> final(font).size == size,
        set.size is None ==> final(font).size == old(font).size,
{
    assert(final(font)@ == set@.over(font@));
}

/// A zone list that an override of a bar sets is the list of that zone, and its spacing and
/// background are the bar's; whatever it does not set stays.
pub proof fn lemma_each_zone_overrides_its_own(set: BarOverride, bar: &mut Bar)
    requires
        call_ensures(BarOverride::apply, (&set, bar), ()),
    ensures
        is_bar_overridden(set, *old(bar), *final(bar)),
{
    lemma_bar_overridden(set, *bar, *final(bar));
}

/// Whether each part of a bar is what an override leaves of it.
pub open spec fn is_bar_overridden(set: BarOverride, was: Bar, is: Bar) -> bool {
    &&& set.modules_left matches Some(zone) ==> is.modules_left@ == zone@
    &&& set.modules_left is None ==> is.modules_left@ == was.modules_left@
    &&& set.modules_center matches Some(zone) ==> is.modules_center@ == zone@
    &&& set.modules_center is None ==> is.modules_center@ == was.modules_center@
    &&& set.modules_right matches Some(zone) ==> is.modules_right@ == zone@
    &&& set.modules_right is None ==> is.modules_right@ == was.modules_right@
    &&& set.background is Some ==> is.background == set.background
    &&& set.background is None ==> is.background == was.background
    &&& set.margin matches Some(margin) ==> is.margin == margin
    &&& set.margin is None ==> is.margin == was.margin
    &&& set.gap matches Some(gap) ==> is.gap == gap
    &&& set.gap is None ==> is.gap == was.gap
}

proof fn lemma_bar_overridden(set: BarOverride, was: Bar, is: Bar)
    requires
        is@ == set@.over(was@),
    ensures
        is_bar_overridden(set, was, is),
{
    assert(is@.modules_left == is.modules_left@);
    assert(is@.modules_center == is.modules_center@);
    assert(is@.modules_right == is.modules_right@);
}

/// What an output runs on: where the first monitor table of its name sets something, that
/// is it, and where it does not, the global setting is.
pub proof fn lemma_a_monitor_overrides_what_it_sets(
    config: Config,
    output: &str,
    resolved: Config,
    place: int,
)
    requires
        call_ensures(Config::resolve_for_output, (&config, Some(output)), resolved),
        0 <= place < config.monitors@.len(),
        config.monitors@[place].name@ == output@,
        forall|i: int| 0 <= i < place ==> (#[trigger] config.monitors@[i]).name@ != output@,
    ensures
        ({
            let monitor = config.monitors@[place];
            &&& monitor.height matches Some(height) ==> resolved.height == height
            &&& monitor.height is None ==> resolved.height == config.height
            &&& monitor.theme.background matches Some(color) ==> resolved.theme.background == color
            &&& monitor.theme.background is None ==> resolved.theme.background
                == config.theme.background
            &&& monitor.theme.foreground matches Some(color) ==> resolved.theme.foreground == color
            &&& monitor.theme.foreground is None ==> resolved.theme.foreground
                == config.theme.foreground
            &&& monitor.theme.accent matches Some(color) ==> resolved.theme.accent == color
            &&& monitor.theme.accent is None ==> resolved.theme.accent == config.theme.accent
            &&& monitor.font.family matches Some(family) ==> text::optional(resolved.font.family)
                == Some(family@)
            &&& monitor.font.family is None ==> text::optional(resolved.font.family)
                == text::optional(config.font.family)
            &&& monitor.font.size matches Some(size) ==> resolved.font.size == size
            &&& monitor.font.size is None ==> resolved.font.size == config.font.size
            &&& is_bar_overridden(monitor.bar, config.bar, resolved.bar)
            &&& style::are_overridden(monitor.widget, config.widget, resolved.widget)
            &&& resolved.monitors@.len() == 0
        }),
{
    let monitor = config.monitors@[place];
    assert forall|i: int| 0 <= i < place implies (#[trigger] config@.monitors[i]).name != output@ by {
        assert(config@.monitors[i] == config.monitors@[i]@);
    }
    assert(config@.monitors[place] == monitor@);
    lemma_first_match_wins(config@, output@, place);
    assert(resolved@ == config@.folded(monitor@));
    assert(resolved.font@ == monitor.font@.over(config.font@));
    lemma_bar_overridden(monitor.bar, config.bar, resolved.bar);
    style::lemma_are_overridden(monitor.widget, config.widget, resolved.widget);
    assert(resolved@.monitors.len() == resolved.monitors@.len());
}

/// An output without a name, and one that no monitor table names, runs on the global
/// settings as they are.
pub proof fn lemma_other_outputs_run_on_the_global_settings(
    config: Config,
    output: Option<&str>,
    resolved: Config,
)
    requires
        call_ensures(Config::resolve_for_output, (&config, output), resolved),
        output matches Some(name) ==> forall|i: int|
            0 <= i < config.monitors@.len() ==> (#[trigger] config.monitors@[i]).name@ != name@,
    ensures
        resolved.height == config.height,
        resolved.theme == config.theme,
        text::optional(resolved.font.family) == text::optional(config.font.family),
        resolved.font.size == config.font.size,
        resolved.bar.background == config.bar.background,
        resolved.bar.margin == config.bar.margin,
        resolved.bar.gap == config.bar.gap,
        resolved.bar.modules_left@ == config.bar.modules_left@,
        resolved.bar.modules_center@ == config.bar.modules_center@,
        resolved.bar.modules_right@ == config.bar.modules_right@,
        resolved.widget@ == config.widget@,
        resolved.monitors@.len() == 0,
{
    if output is Some {
        let name = output->0@;
        assert forall|i: int| 0 <= i < config@.monitors.len() implies (
        #[trigger] config@.monitors[i]).name != name by {
            assert(config@.monitors[i] == config.monitors@[i]@);
        }
        lemma_unmatched_output_is_global(config@, name);
    }
    assert(resolved@ == config@.global());
    assert(resolved.font@ == config.font@);
    assert(resolved.bar@ == config.bar@);
    assert(resolved@.monitors.len() == resolved.monitors@.len());
}

} // verus!
