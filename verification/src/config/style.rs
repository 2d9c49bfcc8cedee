//! Per-widget style tables: what a `[widget.<name>]` table holds, how a
//! per-monitor table folds onto it, and how it resolves against the theme.

use super::{Color, Theme, WidgetKind};
use crate::number::Double;
use crate::text;
use crate::widget::{IconSetting, StateColors, WidgetStyle};
use vstd::prelude::*;

verus! {

/// The value an override leaves in place: its own when set, else the base's.
pub open spec fn overridden<T>(set: Option<T>, base: Option<T>) -> Option<T> {
    if set is Some {
        set
    } else {
        base
    }
}

/// Optional colors for one widget state (warn, attention, or charging).
///
/// Each channel is optional and inherits that state's resolved defaults when
/// unset, so a `[widget.battery.warn]` table that sets only `foreground` keeps
/// the default pill behind it.
#[derive(Debug, Clone, Copy, PartialEq, Eq, Structural)]
pub struct StateColorConfig {
    /// Pill fill for this state, if overridden.
    pub background: Option<Color>,
    /// Text/glyph color for this state, if overridden.
    pub foreground: Option<Color>,
    /// Border color for this state, if overridden.
    pub border: Option<Color>,
}

impl StateColorConfig {
    /// The table with nothing set.
    pub open spec fn unset() -> StateColorConfig {
        StateColorConfig { background: None, foreground: None, border: None }
    }

    /// `base` with each channel that `self` sets replaced.
    pub open spec fn over(self, base: StateColorConfig) -> StateColorConfig {
        StateColorConfig {
            background: overridden(self.background, base.background),
            foreground: overridden(self.foreground, base.foreground),
            border: overridden(self.border, base.border),
        }
    }

    /// Copy each set channel of this override onto `base`, leaving unset ones
    /// untouched.
    pub fn apply(&self, base: &mut StateColorConfig)
        ensures
            *final(base) == self.over(*old(base)),
    {
        if self.background.is_some() {
            base.background = self.background;
        }
        if self.foreground.is_some() {
            base.foreground = self.foreground;
        }
        if self.border.is_some() {
            base.border = self.border;
        }
    }
}

impl Default for StateColorConfig {
    fn default() -> (config: Self)
        ensures
            config == StateColorConfig::unset(),
    {
        StateColorConfig { background: None, foreground: None, border: None }
    }
}

/// The two shapes accepted by `format-icons`.
#[derive(Debug, PartialEq, Eq)]
pub enum FormatIconsConfig {
    /// Ordered low-to-high icon ramp, used by backlight.
    Ramp(Vec<String>),
    /// Named state icons as `(name, icon)` pairs, used by power-profiles-daemon.
    Named(Vec<(String, String)>),
}

/// The contents of a [`FormatIconsConfig`].
#[verifier::ext_equal]
pub enum FormatIconsView {
    /// An icon ramp.
    Ramp(Seq<Seq<char>>),
    /// Named icons.
    Named(Seq<(Seq<char>, Seq<char>)>),
}

/// The text of each `(name, icon)` pair.
pub open spec fn pair_texts(pairs: Seq<(String, String)>) -> Seq<(Seq<char>, Seq<char>)> {
    pairs.map_values(|p: (String, String)| (p.0@, p.1@))
}

impl View for FormatIconsConfig {
    type V = FormatIconsView;

    open spec fn view(&self) -> FormatIconsView {
        match self {
            FormatIconsConfig::Ramp(icons) => FormatIconsView::Ramp(text::list(icons@)),
            FormatIconsConfig::Named(pairs) => FormatIconsView::Named(pair_texts(pairs@)),
        }
    }
}

/// The contents of an optional icon table.
pub open spec fn optional_icons(icons: Option<FormatIconsConfig>) -> Option<FormatIconsView> {
    match icons {
        Some(icons) => Some(icons@),
        None => None,
    }
}

/// Copy a list of text pairs.
pub fn copy_pairs(pairs: &Vec<(String, String)>) -> (copy: Vec<(String, String)>)
    ensures
        copy@ == pairs@,
{
    let mut copy: Vec<(String, String)> = Vec::new();
    let mut i: usize = 0;
    while i < pairs.len()
        invariant
            i <= pairs@.len(),
            copy@ == pairs@.take(i as int),
        decreases pairs@.len() - i,
    {
        copy.push((pairs[i].0.clone(), pairs[i].1.clone()));
        i += 1;
    }
    copy
}

impl Clone for FormatIconsConfig {
    fn clone(&self) -> (copy: Self)
        ensures
            copy@ == self@,
    {
        match self {
            FormatIconsConfig::Ramp(icons) => FormatIconsConfig::Ramp(text::copy_list(icons)),
            FormatIconsConfig::Named(pairs) => FormatIconsConfig::Named(copy_pairs(pairs)),
        }
    }
}

fn copy_optional_icons(icons: &Option<FormatIconsConfig>) -> (copy: Option<FormatIconsConfig>)
    ensures
        optional_icons(copy) == optional_icons(*icons),
{
    match icons {
        Some(icons) => Some(icons.clone()),
        None => None,
    }
}

impl FormatIconsConfig {
    /// The icon ramp, if this is one.
    pub fn ramp(&self) -> (icons: Option<&Vec<String>>)
        ensures
            match *self {
                FormatIconsConfig::Ramp(list) => icons == Some(&list),
                FormatIconsConfig::Named(_) => icons is None,
            },
    {
        match self {
            FormatIconsConfig::Ramp(icons) => Some(icons),
            FormatIconsConfig::Named(_) => None,
        }
    }

    /// The named icons, if this is a named table.
    pub fn named(&self) -> (icons: Option<&Vec<(String, String)>>)
        ensures
            match *self {
                FormatIconsConfig::Named(pairs) => icons == Some(&pairs),
                FormatIconsConfig::Ramp(_) => icons is None,
            },
    {
        match self {
            FormatIconsConfig::Named(icons) => Some(icons),
            FormatIconsConfig::Ramp(_) => None,
        }
    }
}

/// A `[widget.<name>]` style table: every field optional, folded onto the theme
/// (and built-in defaults) by [`WidgetStyleConfig::resolve`].
///
/// An entirely-absent table resolves to a flat widget: no pill, theme
/// foreground.
#[derive(Debug, PartialEq, Eq)]
pub struct WidgetStyleConfig {
    /// Normal-state pill fill; absent means *no pill* (text floats on the bar).
    pub background: Option<Color>,
    /// Normal-state text/glyph color; inherits the theme foreground when unset.
    pub foreground: Option<Color>,
    /// Emphasis color (e.g. the active workspace); inherits the theme accent.
    pub accent: Option<Color>,
    /// Optional border around the widget pill or cell.
    pub border: Option<Color>,
    /// Border width in logical pixels; defaults to one when a border is set.
    pub border_width: Option<u32>,
    /// Pill corner radius in logical pixels.
    pub radius: Option<u32>,
    /// Inset between a pill edge and its text, in logical pixels.
    pub padding: Option<u32>,
    /// Glyph override: absent keeps the widget's built-in glyph, `"none"`
    /// disables it, any other string is used verbatim.
    pub icon: Option<String>,
    /// Percent below which a discharging battery shows its warn colors.
    pub warn_threshold: Option<u32>,
    /// Colors for the warn state (e.g. low battery).
    pub warn: StateColorConfig,
    /// Colors for the attention state (e.g. a tray item needing attention).
    pub attention: StateColorConfig,
    /// Colors used while a battery is charging.
    pub charging: StateColorConfig,
    /// Program run when the widget is clicked; absent makes it display-only.
    pub on_click: Option<String>,
    /// Program run when the widget is right-clicked.
    pub on_click_right: Option<String>,
    /// Widget label format. Supported placeholders depend on the widget.
    pub format: Option<String>,
    /// Widget-specific icon configuration: a ramp or a named table.
    pub format_icons: Option<FormatIconsConfig>,
    /// Percentage points changed by one backlight scroll step.
    pub scroll_step: Option<Double>,
    /// Preferred kernel backlight device name.
    pub device: Option<String>,
    /// Whether a supported widget displays its hover tooltip.
    pub tooltip: Option<bool>,
    /// Tooltip format for widgets that expose structured hover details.
    pub tooltip_format: Option<String>,
}

/// The contents of a [`WidgetStyleConfig`].
#[verifier::ext_equal]
pub struct WidgetStyleConfigView {
    /// Normal-state pill fill; absent means *no pill* (text floats on the bar).
    pub background: Option<Color>,
    /// Normal-state text/glyph color; inherits the theme foreground when unset.
    pub foreground: Option<Color>,
    /// Emphasis color (e.g. the active workspace); inherits the theme accent.
    pub accent: Option<Color>,
    /// Optional border around the widget pill or cell.
    pub border: Option<Color>,
    /// Border width in logical pixels; defaults to one when a border is set.
    pub border_width: Option<u32>,
    /// Pill corner radius in logical pixels.
    pub radius: Option<u32>,
    /// Inset between a pill edge and its text, in logical pixels.
    pub padding: Option<u32>,
    /// Glyph override: absent keeps the widget's built-in glyph, `"none"`
    /// disables it, any other string is used verbatim.
    pub icon: Option<Seq<char>>,
    /// Percent below which a discharging battery shows its warn colors.
    pub warn_threshold: Option<u32>,
    /// Colors for the warn state (e.g. low battery).
    pub warn: StateColorConfig,
    /// Colors for the attention state (e.g. a tray item needing attention).
    pub attention: StateColorConfig,
    /// Colors used while a battery is charging.
    pub charging: StateColorConfig,
    /// Program run when the widget is clicked; absent makes it display-only.
    pub on_click: Option<Seq<char>>,
    /// Program run when the widget is right-clicked.
    pub on_click_right: Option<Seq<char>>,
    /// Widget label format. Supported placeholders depend on the widget.
    pub format: Option<Seq<char>>,
    /// Widget-specific icon configuration: a ramp or a named table.
    pub format_icons: Option<FormatIconsView>,
    /// Percentage points changed by one backlight scroll step.
    pub scroll_step: Option<Double>,
    /// Preferred kernel backlight device name.
    pub device: Option<Seq<char>>,
    /// Whether a supported widget displays its hover tooltip.
    pub tooltip: Option<bool>,
    /// Tooltip format for widgets that expose structured hover details.
    pub tooltip_format: Option<Seq<char>>,
}

impl View for WidgetStyleConfig {
    type V = WidgetStyleConfigView;

    open spec fn view(&self) -> WidgetStyleConfigView {
        WidgetStyleConfigView {
            background: self.background,
            foreground: self.foreground,
            accent: self.accent,
            border: self.border,
            border_width: self.border_width,
            radius: self.radius,
            padding: self.padding,
            icon: text::optional(self.icon),
            warn_threshold: self.warn_threshold,
            warn: self.warn,
            attention: self.attention,
            charging: self.charging,
            on_click: text::optional(self.on_click),
            on_click_right: text::optional(self.on_click_right),
            format: text::optional(self.format),
            format_icons: optional_icons(self.format_icons),
            scroll_step: self.scroll_step,
            device: text::optional(self.device),
            tooltip: self.tooltip,
            tooltip_format: text::optional(self.tooltip_format),
        }
    }
}

impl WidgetStyleConfigView {
    /// The table with nothing set.
    pub open spec fn unset() -> WidgetStyleConfigView {
        WidgetStyleConfigView {
            background: None,
            foreground: None,
            accent: None,
            border: None,
            border_width: None,
            radius: None,
            padding: None,
            icon: None,
            warn_threshold: None,
            warn: StateColorConfig::unset(),
            attention: StateColorConfig::unset(),
            charging: StateColorConfig::unset(),
            on_click: None,
            on_click_right: None,
            format: None,
            format_icons: None,
            scroll_step: None,
            device: None,
            tooltip: None,
            tooltip_format: None,
        }
    }

    /// `base` with each field that `self` sets replaced.
    pub open spec fn over(self, base: WidgetStyleConfigView) -> WidgetStyleConfigView {
        WidgetStyleConfigView {
            background: overridden(self.background, base.background),
            foreground: overridden(self.foreground, base.foreground),
            accent: overridden(self.accent, base.accent),
            border: overridden(self.border, base.border),
            border_width: overridden(self.border_width, base.border_width),
            radius: overridden(self.radius, base.radius),
            padding: overridden(self.padding, base.padding),
            icon: overridden(self.icon, base.icon),
            warn_threshold: overridden(self.warn_threshold, base.warn_threshold),
            warn: self.warn.over(base.warn),
            attention: self.attention.over(base.attention),
            charging: self.charging.over(base.charging),
            on_click: overridden(self.on_click, base.on_click),
            on_click_right: overridden(self.on_click_right, base.on_click_right),
            format: overridden(self.format, base.format),
            format_icons: overridden(self.format_icons, base.format_icons),
            scroll_step: overridden(self.scroll_step, base.scroll_step),
            device: overridden(self.device, base.device),
            tooltip: overridden(self.tooltip, base.tooltip),
            tooltip_format: overridden(self.tooltip_format, base.tooltip_format),
        }
    }
}

impl Clone for WidgetStyleConfig {
    fn clone(&self) -> (copy: Self)
        ensures
            copy@ == self@,
    {
        WidgetStyleConfig {
            background: self.background,
            foreground: self.foreground,
            accent: self.accent,
            border: self.border,
            border_width: self.border_width,
            radius: self.radius,
            padding: self.padding,
            icon: text::copy_optional(&self.icon),
            warn_threshold: self.warn_threshold,
            warn: self.warn,
            attention: self.attention,
            charging: self.charging,
            on_click: text::copy_optional(&self.on_click),
            on_click_right: text::copy_optional(&self.on_click_right),
            format: text::copy_optional(&self.format),
            format_icons: copy_optional_icons(&self.format_icons),
            scroll_step: self.scroll_step,
            device: text::copy_optional(&self.device),
            tooltip: self.tooltip,
            tooltip_format: text::copy_optional(&self.tooltip_format),
        }
    }
}

impl Default for WidgetStyleConfig {
    fn default() -> (config: Self)
        ensures
            config@ == WidgetStyleConfigView::unset(),
    {
        WidgetStyleConfig {
            background: None,
            foreground: None,
            accent: None,
            border: None,
            border_width: None,
            radius: None,
            padding: None,
            icon: None,
            warn_threshold: None,
            warn: StateColorConfig::default(),
            attention: StateColorConfig::default(),
            charging: StateColorConfig::default(),
            on_click: None,
            on_click_right: None,
            format: None,
            format_icons: None,
            scroll_step: None,
            device: None,
            tooltip: None,
            tooltip_format: None,
        }
    }
}

/// The resolved colors of one channel: the configured color, if any.
pub open spec fn channels_of(color: Option<Color>) -> Option<(u8, u8, u8, u8)> {
    match color {
        Some(color) => Some(color.channels()),
        None => None,
    }
}

/// The channels of the configured color, or `fallback` when none is configured.
pub open spec fn channels_or(color: Option<Color>, fallback: (u8, u8, u8, u8)) -> (
    u8,
    u8,
    u8,
    u8,
) {
    match color {
        Some(color) => color.channels(),
        None => fallback,
    }
}

/// The configured number, or `fallback` when none is configured.
pub open spec fn number_or(number: Option<u32>, fallback: u32) -> u32 {
    match number {
        Some(number) => number,
        None => fallback,
    }
}

/// What a state table resolves to over the state's default colors.
pub open spec fn resolved_state(config: StateColorConfig, default: StateColors) -> StateColors {
    StateColors {
        background: overridden(channels_of(config.background), default.background),
        foreground: channels_or(config.foreground, default.foreground),
        border: overridden(channels_of(config.border), default.border),
    }
}

/// Whether `icon` is what an `icon` value means: absent keeps the built-in
/// glyph, `"none"` disables it, any other text overrides it.
pub open spec fn icon_means(value: Option<Seq<char>>, icon: IconSetting) -> bool {
    match value {
        None => icon is Default,
        Some(name) => if name == "none"@ {
            icon is Hidden
        } else {
            icon matches IconSetting::Custom(glyph) && glyph@ == name
        },
    }
}

/// Whether `style` is the resolution of `config` against `theme`, where
/// `defaults` is what unset geometry and alert colors fall back to.
pub open spec fn resolves_to(
    config: WidgetStyleConfigView,
    theme: Theme,
    defaults: WidgetStyle,
    style: WidgetStyle,
) -> bool {
    let background = channels_of(config.background);
    let foreground = channels_or(config.foreground, theme.foreground.channels());
    let border = channels_of(config.border);
    &&& style.background == background
    &&& style.foreground == foreground
    &&& style.accent == channels_or(config.accent, theme.accent.channels())
    &&& style.border == border
    &&& style.border_width == number_or(config.border_width, defaults.border_width)
    &&& style.radius == number_or(config.radius, defaults.radius)
    &&& style.padding == number_or(config.padding, defaults.padding)
    &&& icon_means(config.icon, style.icon)
    &&& style.warn_threshold == number_or(config.warn_threshold, defaults.warn_threshold)
    &&& style.warn == resolved_state(config.warn, defaults.warn)
    &&& style.attention == resolved_state(config.attention, defaults.attention)
    &&& style.charging == resolved_state(
        config.charging,
        (StateColors { background, foreground, border }),
    )
}

fn optional_channels(color: Option<Color>) -> (channels: Option<(u8, u8, u8, u8)>)
    ensures
        channels == channels_of(color),
{
    match color {
        Some(color) => Some(color.to_rgba()),
        None => None,
    }
}

fn color_or(color: Option<Color>, fallback: (u8, u8, u8, u8)) -> (channels: (u8, u8, u8, u8))
    ensures
        channels == channels_or(color, fallback),
{
    match color {
        Some(color) => color.to_rgba(),
        None => fallback,
    }
}

fn size_or(number: Option<u32>, fallback: u32) -> (size: u32)
    ensures
        size == number_or(number, fallback),
{
    match number {
        Some(number) => number,
        None => fallback,
    }
}

/// Map an `icon` config value to its resolved [`IconSetting`]: absent keeps the
/// widget's built-in glyph, `"none"` disables it, any other string overrides it.
pub fn resolve_icon(icon: Option<&str>) -> (setting: IconSetting)
    ensures
        icon_means(text::optional_str(icon), setting),
{
    match icon {
        None => IconSetting::Default,
        Some(custom) => if text::same(custom, "none") {
            IconSetting::Hidden
        } else {
            IconSetting::Custom(custom.to_owned())
        },
    }
}

/// Fold a [`StateColorConfig`] onto resolved defaults, taking each set channel
/// and inheriting the rest.
pub fn resolve_state(config: StateColorConfig, default: StateColors) -> (colors: StateColors)
    ensures
        colors == resolved_state(config, default),
{
    StateColors {
        background: match config.background {
            Some(color) => Some(color.to_rgba()),
            None => default.background,
        },
        foreground: color_or(config.foreground, default.foreground),
        border: match config.border {
            Some(color) => Some(color.to_rgba()),
            None => default.border,
        },
    }
}

fn set_value<T: Copy>(set: Option<T>, base: &mut Option<T>)
    ensures
        *final(base) == overridden(set, *old(base)),
{
    if set.is_some() {
        *base = set;
    }
}

fn set_text(set: &Option<String>, base: &mut Option<String>)
    ensures
        text::optional(*final(base)) == overridden(
            text::optional(*set),
            text::optional(*old(base)),
        ),
{
    if set.is_some() {
        *base = text::copy_optional(set);
    }
}

fn set_icons(set: &Option<FormatIconsConfig>, base: &mut Option<FormatIconsConfig>)
    ensures
        optional_icons(*final(base)) == overridden(
            optional_icons(*set),
            optional_icons(*old(base)),
        ),
{
    if set.is_some() {
        *base = copy_optional_icons(set);
    }
}

impl WidgetStyleConfig {
    /// Resolve this table against `theme` into a concrete [`WidgetStyle`].
    ///
    /// Unset colors fall back to the theme (foreground/accent) or to the
    /// built-in alert colors (warn/attention); unset geometry falls back to
    /// [`WidgetStyle::default`]; an unset `background` resolves to `None`, which
    /// the widgets read as "draw no pill".
    pub fn resolve(&self, theme: &Theme) -> (style: WidgetStyle)
        ensures
            resolves_to(self@, *theme, WidgetStyle::builtin(), style),
    {
        let defaults: WidgetStyle = WidgetStyle::default();
        let background = optional_channels(self.background);
        let foreground = color_or(self.foreground, theme.foreground.to_rgba());
        let border = optional_channels(self.border);
        let icon: Option<&str> = match &self.icon {
            Some(icon) => Some(icon.as_str()),
            None => None,
        };
        WidgetStyle {
            background,
            foreground,
            accent: color_or(self.accent, theme.accent.to_rgba()),
            border,
            border_width: size_or(self.border_width, defaults.border_width),
            radius: size_or(self.radius, defaults.radius),
            padding: size_or(self.padding, defaults.padding),
            icon: resolve_icon(icon),
            warn_threshold: size_or(self.warn_threshold, defaults.warn_threshold),
            warn: resolve_state(self.warn, defaults.warn),
            attention: resolve_state(self.attention, defaults.attention),
            charging: resolve_state(
                self.charging,
                StateColors { background, foreground, border },
            ),
        }
    }

    /// Copy each set field of this override onto `base`, leaving unset ones
    /// untouched.
    ///
    /// This is the field-level merge a `[monitor.widget.<name>]` table uses to
    /// refine the global widget style for one output: a monitor that sets only
    /// `background` keeps the global foreground, radius, glyph, and so on. The
    /// merge happens on the still-unresolved table (before
    /// [`resolve`](WidgetStyleConfig::resolve)), so theme fallbacks are applied
    /// once, afterwards, to the already-merged table.
    pub fn apply(&self, base: &mut WidgetStyleConfig)
        ensures
            final(base)@ == self@.over(old(base)@),
    {
        set_value(self.background, &mut base.background);
        set_value(self.foreground, &mut base.foreground);
        set_value(self.accent, &mut base.accent);
        set_value(self.border, &mut base.border);
        set_value(self.border_width, &mut base.border_width);
        set_value(self.radius, &mut base.radius);
        set_value(self.padding, &mut base.padding);
        set_text(&self.icon, &mut base.icon);
        set_value(self.warn_threshold, &mut base.warn_threshold);
        set_text(&self.on_click, &mut base.on_click);
        set_text(&self.on_click_right, &mut base.on_click_right);
        set_text(&self.format, &mut base.format);
        set_icons(&self.format_icons, &mut base.format_icons);
        set_value(self.scroll_step, &mut base.scroll_step);
        set_text(&self.device, &mut base.device);
        set_value(self.tooltip, &mut base.tooltip);
        set_text(&self.tooltip_format, &mut base.tooltip_format);
        self.warn.apply(&mut base.warn);
        self.attention.apply(&mut base.attention);
        self.charging.apply(&mut base.charging);
    }
}

/// The per-widget style tables, one named field per widget kind.
#[derive(Debug, PartialEq, Eq)]
pub struct WidgetStyles {
    /// Style for the workspaces widget.
    pub workspaces: WidgetStyleConfig,
    /// Style for the clock widget.
    pub clock: WidgetStyleConfig,
    /// Style for the battery widget.
    pub battery: WidgetStyleConfig,
    /// Style and behavior for the backlight widget.
    pub backlight: WidgetStyleConfig,
    /// Style for the system widget.
    pub system: WidgetStyleConfig,
    /// Style for the network widget.
    pub network: WidgetStyleConfig,
    /// Style for the tray widget.
    pub tray: WidgetStyleConfig,
    /// Style for the title widget.
    pub title: WidgetStyleConfig,
    /// Style for the bluetooth widget.
    pub bluetooth: WidgetStyleConfig,
    /// Style for the volume widget.
    pub volume: WidgetStyleConfig,
    /// Style for the notifications widget.
    pub notifications: WidgetStyleConfig,
    /// Style and behavior for the power-profiles-daemon widget.
    pub power_profiles_daemon: WidgetStyleConfig,
    /// Style and behavior for the Arch package-updates widget.
    pub updates: WidgetStyleConfig,
    /// Style for the Hypridle state widget.
    pub hypridle: WidgetStyleConfig,
    /// Style and launch actions for the power widget.
    pub power: WidgetStyleConfig,
}

/// The contents of a [`WidgetStyles`].
#[verifier::ext_equal]
pub struct WidgetStylesView {
    /// Style for the workspaces widget.
    pub workspaces: WidgetStyleConfigView,
    /// Style for the clock widget.
    pub clock: WidgetStyleConfigView,
    /// Style for the battery widget.
    pub battery: WidgetStyleConfigView,
    /// Style and behavior for the backlight widget.
    pub backlight: WidgetStyleConfigView,
    /// Style for the system widget.
    pub system: WidgetStyleConfigView,
    /// Style for the network widget.
    pub network: WidgetStyleConfigView,
    /// Style for the tray widget.
    pub tray: WidgetStyleConfigView,
    /// Style for the title widget.
    pub title: WidgetStyleConfigView,
    /// Style for the bluetooth widget.
    pub bluetooth: WidgetStyleConfigView,
    /// Style for the volume widget.
    pub volume: WidgetStyleConfigView,
    /// Style for the notifications widget.
    pub notifications: WidgetStyleConfigView,
    /// Style and behavior for the power-profiles-daemon widget.
    pub power_profiles_daemon: WidgetStyleConfigView,
    /// Style and behavior for the Arch package-updates widget.
    pub updates: WidgetStyleConfigView,
    /// Style for the Hypridle state widget.
    pub hypridle: WidgetStyleConfigView,
    /// Style and launch actions for the power widget.
    pub power: WidgetStyleConfigView,
}

impl View for WidgetStyles {
    type V = WidgetStylesView;

    open spec fn view(&self) -> WidgetStylesView {
        WidgetStylesView {
            workspaces: self.workspaces@,
            clock: self.clock@,
            battery: self.battery@,
            backlight: self.backlight@,
            system: self.system@,
            network: self.network@,
            tray: self.tray@,
            title: self.title@,
            bluetooth: self.bluetooth@,
            volume: self.volume@,
            notifications: self.notifications@,
            power_profiles_daemon: self.power_profiles_daemon@,
            updates: self.updates@,
            hypridle: self.hypridle@,
            power: self.power@,
        }
    }
}

impl WidgetStylesView {
    /// The tables with nothing set.
    pub open spec fn unset() -> WidgetStylesView {
        WidgetStylesView {
            workspaces: WidgetStyleConfigView::unset(),
            clock: WidgetStyleConfigView::unset(),
            battery: WidgetStyleConfigView::unset(),
            backlight: WidgetStyleConfigView::unset(),
            system: WidgetStyleConfigView::unset(),
            network: WidgetStyleConfigView::unset(),
            tray: WidgetStyleConfigView::unset(),
            title: WidgetStyleConfigView::unset(),
            bluetooth: WidgetStyleConfigView::unset(),
            volume: WidgetStyleConfigView::unset(),
            notifications: WidgetStyleConfigView::unset(),
            power_profiles_daemon: WidgetStyleConfigView::unset(),
            updates: WidgetStyleConfigView::unset(),
            hypridle: WidgetStyleConfigView::unset(),
            power: WidgetStyleConfigView::unset(),
        }
    }

    /// `base` with each field that a table of `self` sets replaced.
    pub open spec fn over(self, base: WidgetStylesView) -> WidgetStylesView {
        WidgetStylesView {
            workspaces: self.workspaces.over(base.workspaces),
            clock: self.clock.over(base.clock),
            battery: self.battery.over(base.battery),
            backlight: self.backlight.over(base.backlight),
            system: self.system.over(base.system),
            network: self.network.over(base.network),
            tray: self.tray.over(base.tray),
            title: self.title.over(base.title),
            bluetooth: self.bluetooth.over(base.bluetooth),
            volume: self.volume.over(base.volume),
            notifications: self.notifications.over(base.notifications),
            power_profiles_daemon: self.power_profiles_daemon.over(base.power_profiles_daemon),
            updates: self.updates.over(base.updates),
            hypridle: self.hypridle.over(base.hypridle),
            power: self.power.over(base.power),
        }
    }

    /// The table for `kind`.
    pub open spec fn of(self, kind: WidgetKind) -> WidgetStyleConfigView {
        match kind {
            WidgetKind::Workspaces => self.workspaces,
            WidgetKind::Clock => self.clock,
            WidgetKind::Battery => self.battery,
            WidgetKind::Backlight => self.backlight,
            WidgetKind::System => self.system,
            WidgetKind::Network => self.network,
            WidgetKind::Tray => self.tray,
            WidgetKind::Title => self.title,
            WidgetKind::Bluetooth => self.bluetooth,
            WidgetKind::Volume => self.volume,
            WidgetKind::Notifications => self.notifications,
            WidgetKind::PowerProfilesDaemon => self.power_profiles_daemon,
            WidgetKind::Updates => self.updates,
            WidgetKind::Hypridle => self.hypridle,
            WidgetKind::Power => self.power,
        }
    }
}

impl Clone for WidgetStyles {
    fn clone(&self) -> (copy: Self)
        ensures
            copy@ == self@,
    {
        WidgetStyles {
            workspaces: self.workspaces.clone(),
            clock: self.clock.clone(),
            battery: self.battery.clone(),
            backlight: self.backlight.clone(),
            system: self.system.clone(),
            network: self.network.clone(),
            tray: self.tray.clone(),
            title: self.title.clone(),
            bluetooth: self.bluetooth.clone(),
            volume: self.volume.clone(),
            notifications: self.notifications.clone(),
            power_profiles_daemon: self.power_profiles_daemon.clone(),
            updates: self.updates.clone(),
            hypridle: self.hypridle.clone(),
            power: self.power.clone(),
        }
    }
}

impl Default for WidgetStyles {
    fn default() -> (styles: Self)
        ensures
            styles@ == WidgetStylesView::unset(),
    {
        WidgetStyles {
            workspaces: WidgetStyleConfig::default(),
            clock: WidgetStyleConfig::default(),
            battery: WidgetStyleConfig::default(),
            backlight: WidgetStyleConfig::default(),
            system: WidgetStyleConfig::default(),
            network: WidgetStyleConfig::default(),
            tray: WidgetStyleConfig::default(),
            title: WidgetStyleConfig::default(),
            bluetooth: WidgetStyleConfig::default(),
            volume: WidgetStyleConfig::default(),
            notifications: WidgetStyleConfig::default(),
            power_profiles_daemon: WidgetStyleConfig::default(),
            updates: WidgetStyleConfig::default(),
            hypridle: WidgetStyleConfig::default(),
            power: WidgetStyleConfig::default(),
        }
    }
}

impl WidgetStyles {
    /// The style table for `kind`.
    pub fn get(&self, kind: WidgetKind) -> (table: &WidgetStyleConfig)
        ensures
            table@ == self@.of(kind),
    {
        match kind {
            WidgetKind::Workspaces => &self.workspaces,
            WidgetKind::Clock => &self.clock,
            WidgetKind::Battery => &self.battery,
            WidgetKind::Backlight => &self.backlight,
            WidgetKind::System => &self.system,
            WidgetKind::Network => &self.network,
            WidgetKind::Tray => &self.tray,
            WidgetKind::Title => &self.title,
            WidgetKind::Bluetooth => &self.bluetooth,
            WidgetKind::Volume => &self.volume,
            WidgetKind::Notifications => &self.notifications,
            WidgetKind::PowerProfilesDaemon => &self.power_profiles_daemon,
            WidgetKind::Updates => &self.updates,
            WidgetKind::Hypridle => &self.hypridle,
            WidgetKind::Power => &self.power,
        }
    }

    /// Fold each widget's set style fields from this override onto `base`,
    /// per-widget and per-field (see [`WidgetStyleConfig::apply`]).
    pub fn apply(&self, base: &mut WidgetStyles)
        ensures
            final(base)@ == self@.over(old(base)@),
    {
        self.workspaces.apply(&mut base.workspaces);
        self.clock.apply(&mut base.clock);
        self.battery.apply(&mut base.battery);
        self.backlight.apply(&mut base.backlight);
        self.system.apply(&mut base.system);
        self.network.apply(&mut base.network);
        self.tray.apply(&mut base.tray);
        self.title.apply(&mut base.title);
        self.bluetooth.apply(&mut base.bluetooth);
        self.volume.apply(&mut base.volume);
        self.notifications.apply(&mut base.notifications);
        self.power_profiles_daemon.apply(&mut base.power_profiles_daemon);
        self.updates.apply(&mut base.updates);
        self.hypridle.apply(&mut base.hypridle);
        self.power.apply(&mut base.power);
    }
}

/// A table with nothing set leaves the base as it is.
pub proof fn lemma_unset_style_changes_nothing(base: WidgetStyleConfigView)
    ensures
        WidgetStyleConfigView::unset().over(base) == base,
{
}

/// Folding the same table twice is folding it once.
pub proof fn lemma_style_override_is_idempotent(
    table: WidgetStyleConfigView,
    base: WidgetStyleConfigView,
)
    ensures
        table.over(table.over(base)) == table.over(base),
{
}

/// Folding two tables one after the other is folding their merge.
pub proof fn lemma_style_override_is_associative(
    late: WidgetStyleConfigView,
    early: WidgetStyleConfigView,
    base: WidgetStyleConfigView,
)
    ensures
        late.over(early.over(base)) == late.over(early).over(base),
{
}

/// Folding tables touches each widget alone: what a widget ends with depends on
/// that widget's two tables only.
pub proof fn lemma_styles_fold_per_widget(
    tables: WidgetStylesView,
    base: WidgetStylesView,
    kind: WidgetKind,
)
    ensures
        tables.over(base).of(kind) == tables.of(kind).over(base.of(kind)),
{
    match kind {
        WidgetKind::Workspaces => {},
        WidgetKind::Clock => {},
        WidgetKind::Battery => {},
        WidgetKind::Backlight => {},
        WidgetKind::System => {},
        WidgetKind::Network => {},
        WidgetKind::Tray => {},
        WidgetKind::Title => {},
        WidgetKind::Bluetooth => {},
        WidgetKind::Volume => {},
        WidgetKind::Notifications => {},
        WidgetKind::PowerProfilesDaemon => {},
        WidgetKind::Updates => {},
        WidgetKind::Hypridle => {},
        WidgetKind::Power => {},
    }
}

/// An absent table resolves to a flat widget in the theme's colors.
pub proof fn lemma_absent_table_is_flat(theme: Theme, defaults: WidgetStyle, style: WidgetStyle)
    requires
        resolves_to(WidgetStyleConfigView::unset(), theme, defaults, style),
    ensures
        style.background is None,
        style.border is None,
        style.foreground == theme.foreground.channels(),
        style.accent == theme.accent.channels(),
        style.icon is Default,
{
}

/// Whether an optional value is what an override leaves: its own where it sets one, and
/// what was there where it does not.
pub open spec fn is_left<T>(set: Option<T>, was: Option<T>, is: Option<T>) -> bool {
    &&& set is Some ==> is == set
    &&& set is None ==> is == was
}

/// Whether each setting of a table is what an override leaves of it: its own where it
/// makes one, and what was there where it does not.
pub open spec fn is_overridden(
    set: WidgetStyleConfig,
    was: WidgetStyleConfig,
    is: WidgetStyleConfig,
) -> bool {
    &&& is_left(set.background, was.background, is.background)
    &&& is_left(set.foreground, was.foreground, is.foreground)
    &&& is_left(set.accent, was.accent, is.accent)
    &&& is_left(set.border, was.border, is.border)
    &&& is_left(set.border_width, was.border_width, is.border_width)
    &&& is_left(set.radius, was.radius, is.radius)
    &&& is_left(set.padding, was.padding, is.padding)
    &&& is_left(set.warn_threshold, was.warn_threshold, is.warn_threshold)
    &&& is_left(set.scroll_step, was.scroll_step, is.scroll_step)
    &&& is_left(set.tooltip, was.tooltip, is.tooltip)
    &&& is_left(text::optional(set.icon), text::optional(was.icon), text::optional(is.icon))
    &&& is_left(text::optional(set.on_click), text::optional(was.on_click), text::optional(is.on_click))
    &&& is_left(text::optional(set.on_click_right), text::optional(was.on_click_right), text::optional(is.on_click_right))
    &&& is_left(text::optional(set.format), text::optional(was.format), text::optional(is.format))
    &&& is_left(text::optional(set.device), text::optional(was.device), text::optional(is.device))
    &&& is_left(text::optional(set.tooltip_format), text::optional(was.tooltip_format), text::optional(is.tooltip_format))
    &&& is_left(set.warn.background, was.warn.background, is.warn.background)
    &&& is_left(set.warn.foreground, was.warn.foreground, is.warn.foreground)
    &&& is_left(set.warn.border, was.warn.border, is.warn.border)
    &&& is_left(set.attention.background, was.attention.background, is.attention.background)
    &&& is_left(set.attention.foreground, was.attention.foreground, is.attention.foreground)
    &&& is_left(set.attention.border, was.attention.border, is.attention.border)
    &&& is_left(set.charging.background, was.charging.background, is.charging.background)
    &&& is_left(set.charging.foreground, was.charging.foreground, is.charging.foreground)
    &&& is_left(set.charging.border, was.charging.border, is.charging.border)
    &&& match (set.format_icons, is.format_icons) {
        (Some(FormatIconsConfig::Ramp(set)), Some(FormatIconsConfig::Ramp(is))) => text::list(is@)
            == text::list(set@),
        (Some(FormatIconsConfig::Named(set)), Some(FormatIconsConfig::Named(is))) => pair_texts(is@)
            == pair_texts(set@),
        (Some(_), _) => false,
        (None, None) => was.format_icons is None,
        (None, Some(is)) => was.format_icons matches Some(was) && is@ == was@,
    }
}

/// A setting that an override makes is the setting, and every other one stays.
pub proof fn lemma_each_setting_overrides_its_own(
    set: WidgetStyleConfig,
    table: &mut WidgetStyleConfig,
)
    requires
        call_ensures(WidgetStyleConfig::apply, (&set, table), ()),
    ensures
        is_overridden(set, *old(table), *final(table)),
{
    lemma_overridden(set, *table, *final(table));
}

/// A table that shows as an override of another leaves it has each of its settings.
pub proof fn lemma_overridden(
    set: WidgetStyleConfig,
    was: WidgetStyleConfig,
    is: WidgetStyleConfig,
)
    requires
        is@ == set@.over(was@),
    ensures
        is_overridden(set, was, is),
{
    assert(is@.format_icons == overridden(set@.format_icons, was@.format_icons));
    match (set.format_icons, is.format_icons) {
        (Some(a), Some(b)) => {
            assert(a@ == b@);
        },
        _ => {},
    }
    assert(is@.warn == set@.warn.over(was@.warn));
    assert(is@.attention == set@.attention.over(was@.attention));
    assert(is@.charging == set@.charging.over(was@.charging));
    assert(is@.icon == overridden(set@.icon, was@.icon));
    assert(is@.on_click == overridden(set@.on_click, was@.on_click));
    assert(is@.on_click_right == overridden(set@.on_click_right, was@.on_click_right));
    assert(is@.format == overridden(set@.format, was@.format));
    assert(is@.device == overridden(set@.device, was@.device));
    assert(is@.tooltip_format == overridden(set@.tooltip_format, was@.tooltip_format));
}

/// Whether the table of every widget is what the override of that widget leaves.
pub open spec fn are_overridden(set: WidgetStyles, was: WidgetStyles, is: WidgetStyles) -> bool {
    &&& is_overridden(set.workspaces, was.workspaces, is.workspaces)
    &&& is_overridden(set.clock, was.clock, is.clock)
    &&& is_overridden(set.battery, was.battery, is.battery)
    &&& is_overridden(set.backlight, was.backlight, is.backlight)
    &&& is_overridden(set.system, was.system, is.system)
    &&& is_overridden(set.network, was.network, is.network)
    &&& is_overridden(set.tray, was.tray, is.tray)
    &&& is_overridden(set.title, was.title, is.title)
    &&& is_overridden(set.bluetooth, was.bluetooth, is.bluetooth)
    &&& is_overridden(set.volume, was.volume, is.volume)
    &&& is_overridden(set.notifications, was.notifications, is.notifications)
    &&& is_overridden(set.power_profiles_daemon, was.power_profiles_daemon, is.power_profiles_daemon)
    &&& is_overridden(set.updates, was.updates, is.updates)
    &&& is_overridden(set.hypridle, was.hypridle, is.hypridle)
    &&& is_overridden(set.power, was.power, is.power)
}

/// The overrides of a widget are its own: the table of each widget is what the override of
/// that widget leaves.
pub proof fn lemma_each_widget_is_overridden_by_its_own(
    set: WidgetStyles,
    tables: &mut WidgetStyles,
)
    requires
        call_ensures(WidgetStyles::apply, (&set, tables), ()),
    ensures
        are_overridden(set, *old(tables), *final(tables)),
{
    lemma_are_overridden(set, *tables, *final(tables));
}

/// Tables that show as overrides of others leave them have each of their settings.
pub proof fn lemma_are_overridden(set: WidgetStyles, was: WidgetStyles, is: WidgetStyles)
    requires
        is@ == set@.over(was@),
    ensures
        are_overridden(set, was, is),
{
    lemma_overridden(set.workspaces, was.workspaces, is.workspaces);
    lemma_overridden(set.clock, was.clock, is.clock);
    lemma_overridden(set.battery, was.battery, is.battery);
    lemma_overridden(set.backlight, was.backlight, is.backlight);
    lemma_overridden(set.system, was.system, is.system);
    lemma_overridden(set.network, was.network, is.network);
    lemma_overridden(set.tray, was.tray, is.tray);
    lemma_overridden(set.title, was.title, is.title);
    lemma_overridden(set.bluetooth, was.bluetooth, is.bluetooth);
    lemma_overridden(set.volume, was.volume, is.volume);
    lemma_overridden(set.notifications, was.notifications, is.notifications);
    lemma_overridden(set.power_profiles_daemon, was.power_profiles_daemon, is.power_profiles_daemon);
    lemma_overridden(set.updates, was.updates, is.updates);
    lemma_overridden(set.hypridle, was.hypridle, is.hypridle);
    lemma_overridden(set.power, was.power, is.power);
}

/// Each kind of widget has the table of its own name.
pub proof fn lemma_each_widget_has_its_own_table(
    tables: WidgetStyles,
    kind: WidgetKind,
    table: &WidgetStyleConfig,
)
    requires
        call_ensures(WidgetStyles::get, (&tables, kind), table),
    ensures
        kind == WidgetKind::Workspaces ==> table@ == tables.workspaces@,
        kind == WidgetKind::Clock ==> table@ == tables.clock@,
        kind == WidgetKind::Battery ==> table@ == tables.battery@,
        kind == WidgetKind::Backlight ==> table@ == tables.backlight@,
        kind == WidgetKind::System ==> table@ == tables.system@,
        kind == WidgetKind::Network ==> table@ == tables.network@,
        kind == WidgetKind::Tray ==> table@ == tables.tray@,
        kind == WidgetKind::Title ==> table@ == tables.title@,
        kind == WidgetKind::Bluetooth ==> table@ == tables.bluetooth@,
        kind == WidgetKind::Volume ==> table@ == tables.volume@,
        kind == WidgetKind::Notifications ==> table@ == tables.notifications@,
        kind == WidgetKind::PowerProfilesDaemon ==> table@ == tables.power_profiles_daemon@,
        kind == WidgetKind::Updates ==> table@ == tables.updates@,
        kind == WidgetKind::Hypridle ==> table@ == tables.hypridle@,
        kind == WidgetKind::Power ==> table@ == tables.power@,
{
}

/// Whether a color is the configured one, or another where none is configured.
pub open spec fn is_color(
    set: Option<Color>,
    other: Option<(u8, u8, u8, u8)>,
    is: Option<(u8, u8, u8, u8)>,
) -> bool {
    &&& set matches Some(set) ==> is == Some((set.r, set.g, set.b, set.a))
    &&& set is None ==> is == other
}

/// A table's settings are the widget's, and what it does not set comes from the theme, the
/// text and the accent, or is nothing, the background and the border, or is the usual
/// size. The colors of a warning and of attention stand in for each other's lack alike;
/// those of charging are the widget's own where they are not set.
pub proof fn lemma_a_table_styles_its_widget(
    table: WidgetStyleConfig,
    theme: Theme,
    style: WidgetStyle,
)
    requires
        call_ensures(WidgetStyleConfig::resolve, (&table, &theme), style),
    ensures
        is_color(table.background, None, style.background),
        is_color(table.border, None, style.border),
        is_color(
            table.foreground,
            Some((theme.foreground.r, theme.foreground.g, theme.foreground.b, theme.foreground.a)),
            Some(style.foreground),
        ),
        is_color(
            table.accent,
            Some((theme.accent.r, theme.accent.g, theme.accent.b, theme.accent.a)),
            Some(style.accent),
        ),
        style.border_width == match table.border_width {
            Some(width) => width,
            None => 1,
        },
        style.radius == match table.radius {
            Some(radius) => radius,
            None => 8,
        },
        style.padding == match table.padding {
            Some(padding) => padding,
            None => 8,
        },
        style.warn_threshold == match table.warn_threshold {
            Some(percent) => percent,
            None => 20,
        },
        table.icon is None ==> style.icon is Default,
        table.icon matches Some(icon) ==> {
            &&& icon@ == "none"@ ==> style.icon is Hidden
            &&& icon@ != "none"@ ==> (style.icon matches IconSetting::Custom(own) && own@ == icon@)
        },
        is_color(table.warn.background, Some((0xBF, 0x61, 0x6A, 0xFF)), style.warn.background),
        is_color(
            table.warn.foreground,
            Some((0xEA, 0xEA, 0xEA, 0xFF)),
            Some(style.warn.foreground),
        ),
        is_color(table.warn.border, None, style.warn.border),
        is_color(
            table.attention.background,
            Some((0xBF, 0x61, 0x6A, 0xFF)),
            style.attention.background,
        ),
        is_color(
            table.attention.foreground,
            Some((0xEA, 0xEA, 0xEA, 0xFF)),
            Some(style.attention.foreground),
        ),
        is_color(table.attention.border, None, style.attention.border),
        is_color(table.charging.background, style.background, style.charging.background),
        is_color(
            table.charging.foreground,
            Some(style.foreground),
            Some(style.charging.foreground),
        ),
        is_color(table.charging.border, style.border, style.charging.border),
{
}

} // verus!
