//! What a configuration comes to: the zones, the render settings, and the
//! widgets of one output's bar.

use super::style::{self, FormatIconsConfig, WidgetStyleConfig};
use super::{BarView, Config, ConfigView, WidgetKind};
use crate::number::Single;
use crate::render::{Bounds, RenderSettings, RenderSettingsView};
use crate::scale::Scale;
use crate::text;
use crate::widget::{Dashboard, Widget, WidgetStyle};
use vstd::prelude::*;

verus! {

/// The widgets to build for each zone, after cross-zone de-duplication.
///
/// Each list is in display order.
#[derive(Debug, PartialEq, Eq)]
pub struct ResolvedZones {
    /// Widgets clustered at the left edge.
    pub left: Vec<WidgetKind>,
    /// Widgets centered in the bar.
    pub center: Vec<WidgetKind>,
    /// Widgets clustered at the right edge.
    pub right: Vec<WidgetKind>,
}

/// The widgets of `zone` at their first mention, without those in `seen`.
pub open spec fn first_mentions(zone: Seq<WidgetKind>, seen: Seq<WidgetKind>) -> Seq<WidgetKind>
    decreases zone.len(),
{
    if zone.len() == 0 {
        seq![]
    } else {
        let before = first_mentions(zone.drop_last(), seen);
        if (seen + before).contains(zone.last()) {
            before
        } else {
            before.push(zone.last())
        }
    }
}

impl BarView {
    /// The widgets of the left zone.
    pub open spec fn left_zone(self) -> Seq<WidgetKind> {
        first_mentions(self.modules_left, seq![])
    }

    /// The widgets of the center zone.
    pub open spec fn center_zone(self) -> Seq<WidgetKind> {
        first_mentions(self.modules_center, self.left_zone())
    }

    /// The widgets of the right zone.
    pub open spec fn right_zone(self) -> Seq<WidgetKind> {
        first_mentions(self.modules_right, self.left_zone() + self.center_zone())
    }
}

fn kind_in(list: &Vec<WidgetKind>, kind: WidgetKind) -> (found: bool)
    ensures
        found == list@.contains(kind),
{
    let mut i: usize = 0;
    while i < list.len()
        invariant
            i <= list@.len(),
            forall|k: int| 0 <= k < i ==> #[trigger] list@[k] != kind,
        decreases list@.len() - i,
    {
        if list[i] == kind {
            return true;
        }
        i += 1;
    }
    false
}

/// Append the not-yet-seen widgets of `zone` to a fresh list, recording each in
/// `seen` so later zones skip any already placed (first-mention-wins).
pub fn dedup_zone(zone: &[WidgetKind], seen: &mut Vec<WidgetKind>) -> (resolved: Vec<WidgetKind>)
    ensures
        resolved@ == first_mentions(zone@, old(seen)@),
        final(seen)@ == old(seen)@ + resolved@,
{
    let mut resolved: Vec<WidgetKind> = Vec::new();
    let mut i: usize = 0;
    assert(seen@ =~= old(seen)@ + resolved@);
    while i < zone.len()
        invariant
            i <= zone@.len(),
            resolved@ == first_mentions(zone@.take(i as int), old(seen)@),
            seen@ == old(seen)@ + resolved@,
        decreases zone@.len() - i,
    {
        let kind: WidgetKind = zone[i];
        assert(zone@.take(i + 1).drop_last() =~= zone@.take(i as int));
        assert(zone@.take(i + 1).last() == kind);
        if !kind_in(seen, kind) {
            seen.push(kind);
            resolved.push(kind);
            assert(seen@ =~= old(seen)@ + resolved@);
        }
        i += 1;
    }
    assert(zone@.take(i as int) =~= zone@);
    resolved
}

/// Whether the configuration names `kind` in its layout or in an override's.
pub open spec fn uses(config: ConfigView, kind: WidgetKind) -> bool {
    ||| config.bar.names(kind)
    ||| exists|i: int|
        0 <= i < config.monitors.len() && (#[trigger] config.monitors[i]).bar.names(kind)
}

fn optional_zone_has(zone: &Option<Vec<WidgetKind>>, kind: WidgetKind) -> (found: bool)
    ensures
        found == super::zone_names(super::optional_zone(*zone), kind),
{
    match zone {
        Some(zone) => kind_in(zone, kind),
        None => false,
    }
}

/// The render settings a configuration resolves to, at a physical font size and
/// an output scale.
pub open spec fn settings_of(config: ConfigView, font_size: Single, scale: u32)
    -> RenderSettingsView {
    RenderSettingsView {
        background: super::replaced(
            config.bar.background,
            config.theme.background,
        ).channels(),
        foreground: config.theme.foreground.channels(),
        accent: config.theme.accent.channels(),
        font_size,
        font_family: config.font.family,
        scale,
    }
}

impl Config {
    /// The widgets each zone builds, with duplicates removed across *all three*
    /// zones (first occurrence wins).
    ///
    /// A widget is a single live instance, so naming it in two zones would
    /// otherwise build it twice; cross-zone de-duplication keeps the first
    /// mention and drops the rest, mirroring the within-zone rule.
    pub fn resolved_zones(&self) -> (zones: ResolvedZones)
        ensures
            zones.left@ == self@.bar.left_zone(),
            zones.center@ == self@.bar.center_zone(),
            zones.right@ == self@.bar.right_zone(),
    {
        let mut seen: Vec<WidgetKind> = Vec::new();
        let left = dedup_zone(self.bar.modules_left.as_slice(), &mut seen);
        assert(seen@ =~= left@);
        let center = dedup_zone(self.bar.modules_center.as_slice(), &mut seen);
        let right = dedup_zone(self.bar.modules_right.as_slice(), &mut seen);
        ResolvedZones { left, center, right }
    }

    /// Whether a widget appears in the global layout or any monitor override.
    pub fn uses_widget(&self, kind: WidgetKind) -> (used: bool)
        ensures
            used == uses(self@, kind),
    {
        if kind_in(&self.bar.modules_left, kind) || kind_in(&self.bar.modules_center, kind)
            || kind_in(&self.bar.modules_right, kind) {
            return true;
        }
        let mut i: usize = 0;
        while i < self.monitors.len()
            invariant
                i <= self.monitors@.len(),
                forall|k: int|
                    0 <= k < i ==> !(#[trigger] self@.monitors[k]).bar.names(kind),
            decreases self.monitors@.len() - i,
        {
            let bar = &self.monitors[i].bar;
            if optional_zone_has(&bar.modules_left, kind) || optional_zone_has(
                &bar.modules_center,
                kind,
            ) || optional_zone_has(&bar.modules_right, kind) {
                assert(self@.monitors[i as int].bar.names(kind));
                return true;
            }
            i += 1;
        }
        false
    }

    /// The render settings (theme colors and font) this configuration resolves to.
    ///
    /// Sizes are logical pixels, the values as written in the config. For a
    /// scaled output, resolve physical settings with
    /// [`scaled_render_settings`](Config::scaled_render_settings).
    pub fn render_settings(&self) -> (settings: RenderSettings)
        ensures
            settings@ == settings_of(self@, self@.font.size, 1),
    {
        let background = match self.bar.background {
            Some(background) => background,
            None => self.theme.background,
        };
        RenderSettings {
            background: background.to_rgba(),
            foreground: self.theme.foreground.to_rgba(),
            accent: self.theme.accent.to_rgba(),
            font_size: self.font.size,
            font_family: text::copy_optional(&self.font.family),
            scale: 1,
        }
    }

    /// The render settings for an output at `scale`, given the configured font
    /// size in the output's physical pixels.
    ///
    /// Only the font size scales; colors and family are scale-independent. With
    /// the configured size at the identity scale this equals
    /// [`render_settings`](Config::render_settings).
    pub fn scaled_render_settings(&self, scale: Scale, physical_font: Single) -> (settings:
        RenderSettings)
        ensures
            settings@ == settings_of(self@, physical_font, scale@ as u32),
    {
        let settings = self.render_settings();
        RenderSettings { font_size: physical_font, scale: scale.get(), ..settings }
    }

    /// The bar's physical height in device pixels for an output at `scale`.
    ///
    /// The configured height is logical, so the surface keeps a consistent
    /// apparent size across scales. This is the buffer height; the layer-shell
    /// size request stays logical.
    pub fn physical_height(&self, scale: Scale) -> (height: u32)
        ensures
            height == crate::scale::scaled_length(scale@, self.height as int),
    {
        scale.to_physical(self.height)
    }
}

/// Whether a widget kind runs a program on a click.
pub open spec fn launches(kind: WidgetKind) -> bool {
    kind == WidgetKind::Bluetooth || kind == WidgetKind::Volume || kind == WidgetKind::Updates
        || kind == WidgetKind::Network || kind == WidgetKind::Clock || kind == WidgetKind::Power
}

/// Whether a widget kind runs a program on a right click.
pub open spec fn launches_right(kind: WidgetKind) -> bool {
    kind == WidgetKind::Network || kind == WidgetKind::Clock || kind == WidgetKind::Power
}

/// The monitor a widget of `kind` is scoped to: workspaces take the name as it
/// is, the title an empty one when there is none, and the rest none.
pub open spec fn scope_of(kind: WidgetKind, monitor: Option<Seq<char>>) -> Option<Seq<char>> {
    match kind {
        WidgetKind::Workspaces => monitor,
        WidgetKind::Title => match monitor {
            Some(name) => Some(name),
            None => Some(seq![]),
        },
        _ => None,
    }
}

/// Whether `widget` carries nothing that a style table sets beyond its style and
/// its click.
pub open spec fn is_plain(widget: Widget) -> bool {
    &&& widget.on_click_right is None
    &&& widget.format is None
    &&& widget.format_icons is None
    &&& widget.scroll_step is None
    &&& widget.device is None
    &&& widget.tooltip is None
    &&& widget.tooltip_format is None
}

fn copy_str(s: Option<&str>) -> (copy: Option<String>)
    ensures
        text::optional(copy) == text::optional_str(s),
{
    match s {
        Some(s) => Some(s.to_owned()),
        None => None,
    }
}

impl WidgetKind {
    fn runs_on_click(self) -> (runs: bool)
        ensures
            runs == launches(self),
    {
        self == WidgetKind::Bluetooth || self == WidgetKind::Volume || self == WidgetKind::Updates
            || self == WidgetKind::Network || self == WidgetKind::Clock || self
            == WidgetKind::Power
    }

    fn runs_on_right_click(self) -> (runs: bool)
        ensures
            runs == launches_right(self),
    {
        self == WidgetKind::Network || self == WidgetKind::Clock || self == WidgetKind::Power
    }

    /// Construct the widget this kind names, occupying `bounds` and carrying its
    /// resolved `style`.
    ///
    /// `monitor` is the connector name of the output this dashboard serves,
    /// threaded to the workspace and title widgets so they show only that
    /// monitor. `on_click` is the program the widget runs when clicked; the kinds
    /// without a click action of that sort drop it.
    pub fn build(
        self,
        bounds: Bounds,
        style: WidgetStyle,
        monitor: Option<&str>,
        on_click: Option<String>,
    ) -> (widget: Widget)
        ensures
            widget.kind == self,
            widget.bounds == bounds,
            widget.style == style,
            text::optional(widget.monitor) == scope_of(self, text::optional_str(monitor)),
            text::optional(widget.on_click) == if launches(self) {
                text::optional(on_click)
            } else {
                None
            },
            is_plain(widget),
    {
        let scope: Option<String> = match self {
            WidgetKind::Workspaces => copy_str(monitor),
            WidgetKind::Title => match monitor {
                Some(name) => Some(name.to_owned()),
                None => Some(String::new()),
            },
            _ => None,
        };
        Widget {
            kind: self,
            bounds,
            style,
            monitor: scope,
            on_click: if self.runs_on_click() {
                on_click
            } else {
                None
            },
            on_click_right: None,
            format: None,
            format_icons: None,
            scroll_step: None,
            device: None,
            tooltip: None,
            tooltip_format: None,
        }
    }
}

/// The icons a widget of `kind` takes from its table: a ramp for the backlight,
/// named icons for the power profiles.
pub open spec fn icons_for(kind: WidgetKind, icons: Option<style::FormatIconsView>) -> Option<
    style::FormatIconsView,
> {
    match icons {
        Some(style::FormatIconsView::Ramp(_)) => if kind == WidgetKind::Backlight {
            icons
        } else {
            None
        },
        Some(style::FormatIconsView::Named(_)) => if kind == WidgetKind::PowerProfilesDaemon {
            icons
        } else {
            None
        },
        None => None,
    }
}

/// Whether `widget` is what `config` describes for `kind` on the bar of an
/// output: its own style table resolved, and of the table's other fields those
/// its kind has a use for.
pub open spec fn is_described(
    config: ConfigView,
    kind: WidgetKind,
    bounds: Bounds,
    monitor: Option<Seq<char>>,
    widget: Widget,
) -> bool {
    let table = config.widget.of(kind);
    let profiles = kind == WidgetKind::PowerProfilesDaemon;
    &&& widget.kind == kind
    &&& widget.bounds == bounds
    &&& style::resolves_to(table, config.theme, WidgetStyle::builtin(), widget.style)
    &&& text::optional(widget.monitor) == scope_of(kind, monitor)
    &&& text::optional(widget.on_click) == if launches(kind) {
        table.on_click
    } else {
        None
    }
    &&& text::optional(widget.on_click_right) == if launches_right(kind) {
        table.on_click_right
    } else {
        None
    }
    &&& text::optional(widget.format) == if kind == WidgetKind::Battery || kind
        == WidgetKind::Backlight || kind == WidgetKind::Updates || profiles {
        table.format
    } else {
        None
    }
    &&& style::optional_icons(widget.format_icons) == icons_for(kind, table.format_icons)
    &&& widget.scroll_step == if kind == WidgetKind::Backlight {
        table.scroll_step
    } else {
        None
    }
    &&& text::optional(widget.device) == if kind == WidgetKind::Backlight {
        table.device
    } else {
        None
    }
    &&& widget.tooltip == if profiles || kind == WidgetKind::Power {
        table.tooltip
    } else {
        None
    }
    &&& text::optional(widget.tooltip_format) == if profiles || kind == WidgetKind::Power {
        table.tooltip_format
    } else {
        None
    }
}

/// Whether `widgets` are what `config` describes for `kinds`, in order.
pub open spec fn zone_described(
    config: ConfigView,
    kinds: Seq<WidgetKind>,
    bounds: Bounds,
    monitor: Option<Seq<char>>,
    widgets: Seq<Widget>,
) -> bool {
    &&& widgets.len() == kinds.len()
    &&& forall|i: int|
        0 <= i < kinds.len() ==> is_described(
            config,
            kinds[i],
            bounds,
            monitor,
            #[trigger] widgets[i],
        )
}

fn icons_taken(kind: WidgetKind, icons: &Option<FormatIconsConfig>) -> (taken: Option<
    FormatIconsConfig,
>)
    ensures
        style::optional_icons(taken) == icons_for(kind, style::optional_icons(*icons)),
{
    match icons {
        Some(icons) => match icons {
            FormatIconsConfig::Ramp(_) => if kind == WidgetKind::Backlight {
                Some(icons.clone())
            } else {
                None
            },
            FormatIconsConfig::Named(_) => if kind == WidgetKind::PowerProfilesDaemon {
                Some(icons.clone())
            } else {
                None
            },
        },
        None => None,
    }
}

impl Config {
    /// Build one widget, carrying its resolved style and the fields of its style
    /// table that its kind has a use for.
    fn build_widget(&self, kind: WidgetKind, bounds: Bounds, monitor: Option<&str>) -> (widget:
        Widget)
        ensures
            is_described(self@, kind, bounds, text::optional_str(monitor), widget),
    {
        let table: &WidgetStyleConfig = self.widget.get(kind);
        let style: WidgetStyle = table.resolve(&self.theme);
        let mut widget: Widget = kind.build(
            bounds,
            style,
            monitor,
            text::copy_optional(&table.on_click),
        );
        if kind.runs_on_right_click() {
            widget.on_click_right = text::copy_optional(&table.on_click_right);
        }
        if kind == WidgetKind::Battery || kind == WidgetKind::Backlight || kind
            == WidgetKind::Updates || kind == WidgetKind::PowerProfilesDaemon {
            widget.format = text::copy_optional(&table.format);
        }
        widget.format_icons = icons_taken(kind, &table.format_icons);
        if kind == WidgetKind::Backlight {
            widget.scroll_step = table.scroll_step;
            widget.device = text::copy_optional(&table.device);
        }
        if kind == WidgetKind::PowerProfilesDaemon || kind == WidgetKind::Power {
            widget.tooltip = table.tooltip;
            widget.tooltip_format = text::copy_optional(&table.tooltip_format);
        }
        widget
    }

    fn build_zone(&self, kinds: &Vec<WidgetKind>, bounds: Bounds, monitor: Option<&str>) -> (widgets:
        Vec<Widget>)
        ensures
            zone_described(self@, kinds@, bounds, text::optional_str(monitor), widgets@),
    {
        let mut widgets: Vec<Widget> = Vec::new();
        let mut i: usize = 0;
        while i < kinds.len()
            invariant
                i <= kinds@.len(),
                zone_described(
                    self@,
                    kinds@.take(i as int),
                    bounds,
                    text::optional_str(monitor),
                    widgets@,
                ),
            decreases kinds@.len() - i,
        {
            let widget: Widget = self.build_widget(kinds[i], bounds, monitor);
            let ghost before = widgets@;
            widgets.push(widget);
            proof {
                assert forall|k: int| 0 <= k < i + 1 implies is_described(
                    self@,
                    kinds@.take(i + 1)[k],
                    bounds,
                    text::optional_str(monitor),
                    #[trigger] widgets@[k],
                ) by {
                    if k < i {
                        assert(widgets@[k] == before[k]);
                        assert(kinds@.take(i as int)[k] == kinds@[k]);
                    }
                }
            }
            i += 1;
        }
        assert(kinds@.take(i as int) =~= kinds@);
        widgets
    }

    /// Build the dashboard this configuration describes for one output.
    ///
    /// Each zone's widgets are constructed in order, seeded at `bounds` and
    /// carrying their resolved per-widget style, and the dashboard carries the
    /// bar margin and inter-pill gap. `monitor` is the output's connector name,
    /// threaded to the widgets that show only that monitor; pass `None` for the
    /// global fallback.
    pub fn build_dashboard(&self, bounds: Bounds, monitor: Option<&str>) -> (dashboard: Dashboard)
        ensures
            zone_described(
                self@,
                self@.bar.left_zone(),
                bounds,
                text::optional_str(monitor),
                dashboard.left@,
            ),
            zone_described(
                self@,
                self@.bar.center_zone(),
                bounds,
                text::optional_str(monitor),
                dashboard.center@,
            ),
            zone_described(
                self@,
                self@.bar.right_zone(),
                bounds,
                text::optional_str(monitor),
                dashboard.right@,
            ),
            dashboard.margin == self@.bar.margin,
            dashboard.gap == self@.bar.gap,
    {
        let zones: ResolvedZones = self.resolved_zones();
        Dashboard {
            left: self.build_zone(&zones.left, bounds, monitor),
            center: self.build_zone(&zones.center, bounds, monitor),
            right: self.build_zone(&zones.right, bounds, monitor),
            margin: self.bar.margin,
            gap: self.bar.gap,
        }
    }
}

proof fn lemma_first_mentions(zone: Seq<WidgetKind>, seen: Seq<WidgetKind>)
    ensures
        first_mentions(zone, seen).no_duplicates(),
        forall|k: WidgetKind| #[trigger]
            first_mentions(zone, seen).contains(k) <==> zone.contains(k) && !seen.contains(k),
    decreases zone.len(),
{
    if zone.len() > 0 {
        let init = zone.drop_last();
        let last = zone.last();
        let before = first_mentions(init, seen);
        let all = first_mentions(zone, seen);
        lemma_first_mentions(init, seen);
        assert forall|k: WidgetKind| (seen + before).contains(k) <==> seen.contains(k)
            || before.contains(k) by {
            if seen.contains(k) {
                let i = choose|i: int| 0 <= i < seen.len() && seen[i] == k;
                assert((seen + before)[i] == k);
            }
            if before.contains(k) {
                let i = choose|i: int| 0 <= i < before.len() && before[i] == k;
                assert((seen + before)[seen.len() + i] == k);
            }
        }
        assert forall|k: WidgetKind| zone.contains(k) <==> init.contains(k) || k == last by {
            if init.contains(k) {
                let i = choose|i: int| 0 <= i < init.len() && init[i] == k;
                assert(zone[i] == k);
            }
            if zone.contains(k) && k != last {
                let i = choose|i: int| 0 <= i < zone.len() && zone[i] == k;
                assert(init[i] == k);
            }
            assert(zone[zone.len() - 1] == last);
        }
        if !(seen + before).contains(last) {
            assert forall|k: WidgetKind| #[trigger] all.contains(k) <==> before.contains(k) || k
                == last by {
                if before.contains(k) {
                    let i = choose|i: int| 0 <= i < before.len() && before[i] == k;
                    assert(all[i] == k);
                }
                assert(all[before.len() as int] == last);
            }
            assert forall|i: int, j: int| 0 <= i < j < all.len() implies all[i] != all[j] by {
                assert(before.contains(before[i]));
            }
        }
    }
}

/// No widget is built twice: within a zone nothing repeats, and no zone repeats
/// a widget of another.
pub proof fn lemma_no_widget_is_built_twice(bar: BarView)
    ensures
        bar.left_zone().no_duplicates(),
        bar.center_zone().no_duplicates(),
        bar.right_zone().no_duplicates(),
        forall|k: WidgetKind| #[trigger]
            bar.left_zone().contains(k) ==> !bar.center_zone().contains(k)
                && !bar.right_zone().contains(k),
        forall|k: WidgetKind| #[trigger]
            bar.center_zone().contains(k) ==> !bar.right_zone().contains(k),
{
    lemma_zone_members(bar);
}

/// Every named widget is built, in the first zone that names it, and nothing
/// else is.
pub proof fn lemma_every_named_widget_is_built(bar: BarView, kind: WidgetKind)
    ensures
        bar.left_zone().contains(kind) <==> bar.modules_left.contains(kind),
        bar.center_zone().contains(kind) <==> bar.modules_center.contains(kind)
            && !bar.modules_left.contains(kind),
        bar.right_zone().contains(kind) <==> bar.modules_right.contains(kind)
            && !bar.modules_left.contains(kind) && !bar.modules_center.contains(kind),
        bar.names(kind) <==> bar.left_zone().contains(kind) || bar.center_zone().contains(kind)
            || bar.right_zone().contains(kind),
{
    lemma_zone_members(bar);
}

proof fn lemma_zone_members(bar: BarView)
    ensures
        bar.left_zone().no_duplicates(),
        bar.center_zone().no_duplicates(),
        bar.right_zone().no_duplicates(),
        forall|k: WidgetKind| #[trigger]
            bar.left_zone().contains(k) <==> bar.modules_left.contains(k),
        forall|k: WidgetKind| #[trigger]
            bar.center_zone().contains(k) <==> bar.modules_center.contains(k)
                && !bar.modules_left.contains(k),
        forall|k: WidgetKind| #[trigger]
            bar.right_zone().contains(k) <==> bar.modules_right.contains(k)
                && !bar.modules_left.contains(k) && !bar.modules_center.contains(k),
{
    let left = bar.left_zone();
    let center = bar.center_zone();
    lemma_first_mentions(bar.modules_left, seq![]);
    lemma_first_mentions(bar.modules_center, left);
    lemma_first_mentions(bar.modules_right, left + center);
    assert forall|k: WidgetKind| #[trigger] left.contains(k) <==> bar.modules_left.contains(k) by {
        assert(!Seq::<WidgetKind>::empty().contains(k));
    }
    assert forall|k: WidgetKind| (left + center).contains(k) <==> left.contains(k)
        || center.contains(k) by {
        if left.contains(k) {
            let i = choose|i: int| 0 <= i < left.len() && left[i] == k;
            assert((left + center)[i] == k);
        }
        if center.contains(k) {
            let i = choose|i: int| 0 <= i < center.len() && center[i] == k;
            assert((left + center)[left.len() + i] == k);
        }
    }
    assert forall|k: WidgetKind| #[trigger] bar.right_zone().contains(k) <==> (
    bar.modules_right.contains(k) && !bar.modules_left.contains(k)
        && !bar.modules_center.contains(k)) by {
        assert(left.contains(k) <==> bar.modules_left.contains(k));
        assert(center.contains(k) <==> bar.modules_center.contains(k) && !left.contains(k));
    }
}

/// A widget that some output's bar shows is a widget the configuration uses, so
/// its data source runs.
pub proof fn lemma_shown_widgets_are_used(
    config: ConfigView,
    output: Option<Seq<char>>,
    kind: WidgetKind,
)
    requires
        config.for_output(output).bar.names(kind),
    ensures
        uses(config, kind),
{
    if let Some(name) = output {
        if super::first_named(config.monitors, name) is Some {
            lemma_named_is_listed(config.monitors, name);
            let i = choose|i: int|
                0 <= i < config.monitors.len() && #[trigger] config.monitors[i]
                    == super::first_named(config.monitors, name)->0;
            let monitor = config.monitors[i];
            if !config.bar.names(kind) {
                assert(monitor.bar.names(kind));
            }
        }
    }
}

proof fn lemma_named_is_listed(monitors: Seq<super::MonitorConfigView>, name: Seq<char>)
    requires
        super::first_named(monitors, name) is Some,
    ensures
        exists|i: int|
            0 <= i < monitors.len() && #[trigger] monitors[i] == super::first_named(
                monitors,
                name,
            )->0,
    decreases monitors.len(),
{
    if monitors[0].name == name {
        assert(monitors[0] == super::first_named(monitors, name)->0);
    } else {
        lemma_named_is_listed(monitors.skip(1), name);
        let i = choose|i: int|
            0 <= i < monitors.skip(1).len() && #[trigger] monitors.skip(1)[i]
                == super::first_named(monitors.skip(1), name)->0;
        assert(monitors[i + 1] == super::first_named(monitors, name)->0);
    }
}

/// Only the font scales: the settings of a scaled output are the logical ones in
/// all but the font size and the recorded factor, so at the identity scale, with
/// the configured size, they are the same.
pub proof fn lemma_only_the_font_scales(config: ConfigView, font_size: Single, scale: u32)
    ensures
        settings_of(config, font_size, scale) == (RenderSettingsView {
            font_size,
            scale,
            ..settings_of(config, config.font.size, 1)
        }),
{
}

/// A widget stands in the zone that names it first, and within a zone the widgets stand in
/// the order in which they are named there.
pub proof fn lemma_zones_keep_the_order_of_names(
    config: Config,
    zones: ResolvedZones,
    i: int,
    j: int,
    q: int,
)
    requires
        call_ensures(Config::resolved_zones, (&config,), zones),
        0 <= i < j,
    ensures
        j < zones.left@.len() && 0 <= q < config.bar.modules_left@.len()
            && config.bar.modules_left@[q] == zones.left@[j] ==> config.bar.modules_left@.take(
            q,
        ).contains(zones.left@[i]),
        j < zones.center@.len() && 0 <= q < config.bar.modules_center@.len()
            && config.bar.modules_center@[q] == zones.center@[j] ==> config.bar.modules_center@.take(
            q,
        ).contains(zones.center@[i]),
        j < zones.right@.len() && 0 <= q < config.bar.modules_right@.len()
            && config.bar.modules_right@[q] == zones.right@[j] ==> config.bar.modules_right@.take(
            q,
        ).contains(zones.right@[i]),
        forall|kind: WidgetKind| #[trigger]
            zones.left@.contains(kind) <==> config.bar.modules_left@.contains(kind),
        forall|kind: WidgetKind| #[trigger]
            zones.center@.contains(kind) <==> config.bar.modules_center@.contains(kind)
                && !config.bar.modules_left@.contains(kind),
        forall|kind: WidgetKind| #[trigger]
            zones.right@.contains(kind) <==> config.bar.modules_right@.contains(kind)
                && !config.bar.modules_left@.contains(kind) && !config.bar.modules_center@.contains(
                kind,
            ),
{
    let bar = config.bar@;
    lemma_zone_members(bar);
    if j < zones.left@.len() && 0 <= q < bar.modules_left.len() && bar.modules_left[q]
        == zones.left@[j] {
        lemma_mention_order(bar.modules_left, seq![], i, j, q);
    }
    if j < zones.center@.len() && 0 <= q < bar.modules_center.len() && bar.modules_center[q]
        == zones.center@[j] {
        lemma_mention_order(bar.modules_center, bar.left_zone(), i, j, q);
    }
    if j < zones.right@.len() && 0 <= q < bar.modules_right.len() && bar.modules_right[q]
        == zones.right@[j] {
        lemma_mention_order(
            bar.modules_right,
            bar.left_zone() + bar.center_zone(),
            i,
            j,
            q,
        );
    }
}

proof fn lemma_mention_order(
    zone: Seq<WidgetKind>,
    seen: Seq<WidgetKind>,
    i: int,
    j: int,
    q: int,
)
    requires
        0 <= i < j < first_mentions(zone, seen).len(),
        0 <= q < zone.len(),
        zone[q] == first_mentions(zone, seen)[j],
    ensures
        zone.take(q).contains(first_mentions(zone, seen)[i]),
    decreases zone.len(),
{
    let init = zone.drop_last();
    let before = first_mentions(init, seen);
    let all = first_mentions(zone, seen);
    lemma_first_mentions(init, seen);
    lemma_first_mentions(zone, seen);
    assert(all[i] == before[i]);
    assert(before.contains(before[i]));
    if j < before.len() {
        if q < init.len() {
            assert(init[q] == zone[q]);
            lemma_mention_order(init, seen, i, j, q);
            assert(init.take(q) =~= zone.take(q));
        } else {
            assert(zone.take(q) =~= init);
        }
    } else {
        if q < init.len() {
            assert(init[q] == zone[q]);
            assert(init.contains(zone[q]));
            assert(all.contains(all[j]));
            assert(before.contains(zone[q]));
            let k = choose|k: int| 0 <= k < before.len() && before[k] == zone[q];
            assert(all[k] == all[j]);
        }
        assert(zone.take(q) =~= init);
    }
}

/// Whether a widget is what its own table says: the programs of a click go to the widgets
/// that launch any, a format to those that have a label to form, and so on.
pub open spec fn is_built_from(table: WidgetStyleConfig, widget: Widget) -> bool {
    let kind = widget.kind;
    &&& match kind {
        WidgetKind::Bluetooth | WidgetKind::Volume | WidgetKind::Updates | WidgetKind::Network
        | WidgetKind::Clock | WidgetKind::Power => text::optional(widget.on_click)
            == text::optional(table.on_click),
        _ => widget.on_click is None,
    }
    &&& match kind {
        WidgetKind::Network | WidgetKind::Clock | WidgetKind::Power => text::optional(
            widget.on_click_right,
        ) == text::optional(table.on_click_right),
        _ => widget.on_click_right is None,
    }
    &&& match kind {
        WidgetKind::Battery | WidgetKind::Backlight | WidgetKind::Updates
        | WidgetKind::PowerProfilesDaemon => text::optional(widget.format) == text::optional(
            table.format,
        ),
        _ => widget.format is None,
    }
    &&& kind == WidgetKind::Backlight ==> widget.scroll_step == table.scroll_step
        && text::optional(widget.device) == text::optional(table.device)
    &&& kind != WidgetKind::Backlight ==> widget.scroll_step is None && widget.device is None
    &&& match kind {
        WidgetKind::Power | WidgetKind::PowerProfilesDaemon => widget.tooltip == table.tooltip
            && text::optional(widget.tooltip_format) == text::optional(table.tooltip_format),
        _ => widget.tooltip is None && widget.tooltip_format is None,
    }
    &&& match (kind, table.format_icons) {
        (WidgetKind::Backlight, Some(FormatIconsConfig::Ramp(icons))) => (
        widget.format_icons matches Some(FormatIconsConfig::Ramp(own)) && text::list(own@)
            == text::list(icons@)),
        (WidgetKind::PowerProfilesDaemon, Some(FormatIconsConfig::Named(icons))) => (
        widget.format_icons matches Some(FormatIconsConfig::Named(own)) && style::pair_texts(own@)
            == style::pair_texts(icons@)),
        _ => widget.format_icons is None,
    }
}

/// Whether a widget is bound to the monitor of its bar: workspaces are shown for it, where
/// it has a name, and a title for it alone; no other widget is bound to one.
pub open spec fn is_bound(monitor: Option<&str>, widget: Widget) -> bool {
    match widget.kind {
        WidgetKind::Workspaces => text::optional(widget.monitor) == text::optional_str(monitor),
        WidgetKind::Title => widget.monitor matches Some(own) && own@ == match monitor {
            Some(name) => name@,
            None => Seq::<char>::empty(),
        },
        _ => widget.monitor is None,
    }
}

/// The widgets of a bar are those of its zones, in order, each built from its own table
/// and bound to the monitor of the bar; the spacing is the bar's.
pub proof fn lemma_a_dashboard_is_built_as_configured(
    config: Config,
    bounds: Bounds,
    monitor: Option<&str>,
    dashboard: Dashboard,
    zones: ResolvedZones,
    widgets: Seq<Widget>,
    kinds: Seq<WidgetKind>,
    i: int,
    table: &WidgetStyleConfig,
)
    requires
        call_ensures(Config::build_dashboard, (&config, bounds, monitor), dashboard),
        call_ensures(Config::resolved_zones, (&config,), zones),
        (widgets == dashboard.left@ && kinds == zones.left@) || (widgets == dashboard.center@
            && kinds == zones.center@) || (widgets == dashboard.right@ && kinds == zones.right@),
        0 <= i < kinds.len(),
        call_ensures(super::style::WidgetStyles::get, (&config.widget, kinds[i]), table),
    ensures
        dashboard.margin == config.bar.margin,
        dashboard.gap == config.bar.gap,
        widgets.len() == kinds.len(),
        widgets[i].kind == kinds[i],
        widgets[i].bounds == bounds,
        is_built_from(*table, widgets[i]),
        is_bound(monitor, widgets[i]),
        style::resolves_to(table@, config.theme, WidgetStyle::builtin(), widgets[i].style),
{
    assert(is_described(config@, kinds[i], bounds, text::optional_str(monitor), widgets[i]));
    assert(config@.widget.of(kinds[i]) == table@);
    match (kinds[i], table.format_icons) {
        (WidgetKind::Backlight, Some(FormatIconsConfig::Ramp(icons))) => {
            assert(table@.format_icons == Some(style::FormatIconsView::Ramp(text::list(icons@))));
            assert(widgets[i].format_icons is Some);
            assert(widgets[i].format_icons->0@ == style::FormatIconsView::Ramp(text::list(icons@)));
        },
        (WidgetKind::PowerProfilesDaemon, Some(FormatIconsConfig::Named(icons))) => {
            assert(widgets[i].format_icons is Some);
            assert(widgets[i].format_icons->0@ == style::FormatIconsView::Named(
                style::pair_texts(icons@),
            ));
        },
        _ => {},
    }
}

/// A widget of a kind is used when a zone of the bar, or one that a monitor table sets,
/// names it, and only then.
pub proof fn lemma_a_used_widget_is_named(config: Config, kind: WidgetKind, used: bool)
    requires
        call_ensures(Config::uses_widget, (&config, kind), used),
    ensures
        used <==> {
            ||| config.bar.modules_left@.contains(kind)
            ||| config.bar.modules_center@.contains(kind)
            ||| config.bar.modules_right@.contains(kind)
            ||| exists|i: int|
                0 <= i < config.monitors@.len() && {
                    let bar = (#[trigger] config.monitors@[i]).bar;
                    ||| bar.modules_left matches Some(zone) && zone@.contains(kind)
                    ||| bar.modules_center matches Some(zone) && zone@.contains(kind)
                    ||| bar.modules_right matches Some(zone) && zone@.contains(kind)
                }
        },
{
    assert(forall|i: int|
        0 <= i < config.monitors@.len() ==> #[trigger] config@.monitors[i]
            == config.monitors@[i]@);
    if exists|i: int|
        0 <= i < config@.monitors.len() && (#[trigger] config@.monitors[i]).bar.names(kind) {
        let i = choose|i: int|
            0 <= i < config@.monitors.len() && (#[trigger] config@.monitors[i]).bar.names(kind);
        assert(config.monitors@[i].bar@ == config@.monitors[i].bar);
    }
    assert forall|i: int|
        0 <= i < config.monitors@.len() && ({
            let bar = (#[trigger] config.monitors@[i]).bar;
            ||| bar.modules_left matches Some(zone) && zone@.contains(kind)
            ||| bar.modules_center matches Some(zone) && zone@.contains(kind)
            ||| bar.modules_right matches Some(zone) && zone@.contains(kind)
        }) implies used by {
        assert(config@.monitors[i].bar.names(kind));
    }
}

/// A bar is painted in its own background, or the theme's where it has none, with the
/// theme's text and accent and the configured font. On a scaled output only the size of
/// the font and the scale differ.
pub proof fn lemma_a_bar_is_painted_as_configured(
    config: Config,
    scale: Scale,
    font: Single,
    settings: RenderSettings,
    scaled: RenderSettings,
)
    requires
        call_ensures(Config::render_settings, (&config,), settings),
        call_ensures(Config::scaled_render_settings, (&config, scale, font), scaled),
    ensures
        ({
            let background = match config.bar.background {
                Some(own) => own,
                None => config.theme.background,
            };
            let text = config.theme.foreground;
            let accent = config.theme.accent;
            &&& settings.background == (background.r, background.g, background.b, background.a)
            &&& settings.foreground == (text.r, text.g, text.b, text.a)
            &&& settings.accent == (accent.r, accent.g, accent.b, accent.a)
        }),
        settings.font_size == config.font.size,
        text::optional(settings.font_family) == text::optional(config.font.family),
        settings.scale == 1,
        scaled.background == settings.background,
        scaled.foreground == settings.foreground,
        scaled.accent == settings.accent,
        text::optional(scaled.font_family) == text::optional(settings.font_family),
        scaled.font_size == font,
        scaled.scale == scale@ as u32,
{
    assert(settings@.font_family == config@.font.family);
    assert(scaled@.font_family == config@.font.family);
}

} // verus!
