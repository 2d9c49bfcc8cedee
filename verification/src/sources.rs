//! Which sources a configuration needs.

use crate::config::layout;
use crate::config::{Config, ConfigView, WidgetKind};
use crate::power_profiles::platform::{PowerProfilesSettings, SettingsView};
use crate::text;
use vstd::prelude::*;

verus! {

/// A source of news.
#[derive(Debug, Clone, Copy, PartialEq, Eq, Structural)]
pub enum Source {
    /// Workspaces and window titles.
    Hyprland,
    /// The battery.
    Battery,
    /// The backlight.
    Backlight,
    /// The load of the machine.
    System,
    /// The connectivity.
    Network,
    /// The Bluetooth adapter.
    Bluetooth,
    /// The volume.
    Volume,
    /// The tray.
    Tray,
    /// The notifications.
    Notifications,
    /// The power profiles.
    PowerProfiles,
    /// Pending updates.
    Updates,
    /// The idle daemon.
    Hypridle,
}

/// The sources that serve one widget each, in the order in which they start.
pub open spec fn widget_sources() -> Seq<(WidgetKind, Source)> {
    seq![
        (WidgetKind::Battery, Source::Battery),
        (WidgetKind::Backlight, Source::Backlight),
        (WidgetKind::System, Source::System),
        (WidgetKind::Network, Source::Network),
        (WidgetKind::Bluetooth, Source::Bluetooth),
        (WidgetKind::Volume, Source::Volume),
        (WidgetKind::Tray, Source::Tray),
        (WidgetKind::Notifications, Source::Notifications),
        (WidgetKind::PowerProfilesDaemon, Source::PowerProfiles),
        (WidgetKind::Updates, Source::Updates),
        (WidgetKind::Hypridle, Source::Hypridle),
    ]
}

/// The sources among `sources` whose widgets a configuration shows on some output.
pub open spec fn needed(config: ConfigView, sources: Seq<(WidgetKind, Source)>) -> Seq<Source>
    decreases sources.len(),
{
    if sources.len() == 0 {
        seq![]
    } else {
        let rest = needed(config, sources.drop_last());
        if layout::uses(config, sources.last().0) {
            rest.push(sources.last().1)
        } else {
            rest
        }
    }
}

/// The sources a configuration needs, in the order in which they start: workspaces
/// and titles always, the others when their widget is shown somewhere.
pub fn required_sources(config: &Config) -> (sources: Vec<Source>)
    ensures
        sources@ == seq![Source::Hyprland] + needed(config@, widget_sources()),
{
    let table: [(WidgetKind, Source); 11] = [
        (WidgetKind::Battery, Source::Battery),
        (WidgetKind::Backlight, Source::Backlight),
        (WidgetKind::System, Source::System),
        (WidgetKind::Network, Source::Network),
        (WidgetKind::Bluetooth, Source::Bluetooth),
        (WidgetKind::Volume, Source::Volume),
        (WidgetKind::Tray, Source::Tray),
        (WidgetKind::Notifications, Source::Notifications),
        (WidgetKind::PowerProfilesDaemon, Source::PowerProfiles),
        (WidgetKind::Updates, Source::Updates),
        (WidgetKind::Hypridle, Source::Hypridle),
    ];
    let ghost all = widget_sources();
    let mut sources: Vec<Source> = Vec::new();
    sources.push(Source::Hyprland);
    assert(sources@ =~= seq![Source::Hyprland] + needed(config@, all.take(0)));
    let mut i: usize = 0;
    while i < 11
        invariant
            i <= 11,
            all == widget_sources(),
            all.len() == 11,
            table@.len() == 11,
            forall|k: int| 0 <= k < 11 ==> #[trigger] table@[k] == all[k],
            sources@ == seq![Source::Hyprland] + needed(config@, all.take(i as int)),
        decreases 11 - i,
    {
        let ghost part = all.take(i + 1);
        let ghost before = sources@;
        assert(part.last() == all[i as int]);
        assert(part.drop_last() =~= all.take(i as int));
        let (kind, source) = table[i];
        if config.uses_widget(kind) {
            sources.push(source);
        }
        assert(sources@ =~= seq![Source::Hyprland] + needed(config@, part));
        i += 1;
    }
    assert(all.take(11) =~= all);
    sources
}

/// Whether a source starts.
proof fn lemma_needed(config: ConfigView, sources: Seq<(WidgetKind, Source)>, i: int)
    requires
        0 <= i < sources.len(),
        layout::uses(config, sources[i].0),
    ensures
        needed(config, sources).contains(sources[i].1),
    decreases sources.len(),
{
    let rest = needed(config, sources.drop_last());
    if i == sources.len() - 1 {
        assert(needed(config, sources)[rest.len() as int] == sources[i].1);
    } else {
        lemma_needed(config, sources.drop_last(), i);
        assert(sources.drop_last()[i] == sources[i]);
        let k = choose|k: int| 0 <= k < rest.len() && rest[k] == sources[i].1;
        assert(needed(config, sources)[k] == sources[i].1);
    }
}

proof fn lemma_unneeded(config: ConfigView, sources: Seq<(WidgetKind, Source)>, source: Source)
    requires
        forall|i: int|
            0 <= i < sources.len() && (#[trigger] sources[i]).1 == source ==> !layout::uses(
                config,
                sources[i].0,
            ),
    ensures
        !needed(config, sources).contains(source),
    decreases sources.len(),
{
    if sources.len() > 0 {
        assert forall|i: int|
            0 <= i < sources.drop_last().len() && (#[trigger] sources.drop_last()[i]).1
                == source implies !layout::uses(config, sources.drop_last()[i].0) by {
            assert(sources.drop_last()[i] == sources[i]);
        }
        lemma_unneeded(config, sources.drop_last(), source);
        assert(sources.last() == sources[sources.len() - 1]);
        let rest = needed(config, sources.drop_last());
        if needed(config, sources).contains(source) {
            let k = choose|k: int|
                0 <= k < needed(config, sources).len() && needed(config, sources)[k] == source;
            if k < rest.len() {
                assert(rest[k] == source);
            }
        }
    }
}

/// A source starts exactly when its widget is shown on some output.
pub proof fn lemma_sources_follow_widgets(config: ConfigView, i: int)
    requires
        0 <= i < widget_sources().len(),
    ensures
        needed(config, widget_sources()).contains(widget_sources()[i].1) <==> layout::uses(
            config,
            widget_sources()[i].0,
        ),
{
    if layout::uses(config, widget_sources()[i].0) {
        lemma_needed(config, widget_sources(), i);
    } else {
        lemma_unneeded(config, widget_sources(), widget_sources()[i].1);
    }
}

/// The settings of the power profiles, from what their style table says: the
/// platform backends are used unless it says otherwise.
pub fn power_profiles_settings(hardware_control: Option<bool>, hardware_helper: Option<String>) -> (
settings: PowerProfilesSettings)
    ensures
        settings@ == (SettingsView {
            hardware_control: hardware_control != Some(false),
            hardware_helper: text::optional(hardware_helper),
            sys_root: "/sys"@,
        }),
{
    let allowed: bool = match hardware_control {
        Some(allowed) => allowed,
        None => true,
    };
    PowerProfilesSettings::new(allowed, hardware_helper)
}

/// Each source starts exactly when its own widget is shown on some output; the one of the
/// workspaces and titles starts always, and first.
pub proof fn lemma_each_widget_starts_its_source(config: Config, sources: Vec<Source>)
    requires
        call_ensures(required_sources, (&config,), sources),
    ensures
        sources@.len() >= 1,
        sources@[0] == Source::Hyprland,
        sources@.contains(Source::Battery) <==> layout::uses(config@, WidgetKind::Battery),
        sources@.contains(Source::Backlight) <==> layout::uses(config@, WidgetKind::Backlight),
        sources@.contains(Source::System) <==> layout::uses(config@, WidgetKind::System),
        sources@.contains(Source::Network) <==> layout::uses(config@, WidgetKind::Network),
        sources@.contains(Source::Bluetooth) <==> layout::uses(config@, WidgetKind::Bluetooth),
        sources@.contains(Source::Volume) <==> layout::uses(config@, WidgetKind::Volume),
        sources@.contains(Source::Tray) <==> layout::uses(config@, WidgetKind::Tray),
        sources@.contains(Source::Notifications) <==> layout::uses(
            config@,
            WidgetKind::Notifications,
        ),
        sources@.contains(Source::PowerProfiles) <==> layout::uses(
            config@,
            WidgetKind::PowerProfilesDaemon,
        ),
        sources@.contains(Source::Updates) <==> layout::uses(config@, WidgetKind::Updates),
        sources@.contains(Source::Hypridle) <==> layout::uses(config@, WidgetKind::Hypridle),
{
    let table = widget_sources();
    let rest = needed(config@, table);
    assert(table.len() == 11);
    lemma_contained(config@, 0, sources@);
    lemma_contained(config@, 1, sources@);
    lemma_contained(config@, 2, sources@);
    lemma_contained(config@, 3, sources@);
    lemma_contained(config@, 4, sources@);
    lemma_contained(config@, 5, sources@);
    lemma_contained(config@, 6, sources@);
    lemma_contained(config@, 7, sources@);
    lemma_contained(config@, 8, sources@);
    lemma_contained(config@, 9, sources@);
    lemma_contained(config@, 10, sources@);
}

proof fn lemma_contained(config: ConfigView, i: int, sources: Seq<Source>)
    requires
        0 <= i < widget_sources().len(),
        sources == seq![Source::Hyprland] + needed(config, widget_sources()),
    ensures
        sources.contains(widget_sources()[i].1) <==> layout::uses(config, widget_sources()[i].0),
{
    let rest = needed(config, widget_sources());
    let source = widget_sources()[i].1;
    lemma_sources_follow_widgets(config, i);
    assert(source != Source::Hyprland);
    if rest.contains(source) {
        let k = choose|k: int| 0 <= k < rest.len() && rest[k] == source;
        assert(sources[k + 1] == source);
    }
    if sources.contains(source) {
        let k = choose|k: int| 0 <= k < sources.len() && sources[k] == source;
        assert(k > 0);
        assert(rest[k - 1] == source);
    }
}

/// The platform backends are used unless the style table turns them off.
pub proof fn lemma_backends_are_used_unless_turned_off(
    control: Option<bool>,
    helper: Option<String>,
    settings: PowerProfilesSettings,
)
    requires
        call_ensures(power_profiles_settings, (control, helper), settings),
    ensures
        settings@.hardware_control <==> control is None || control->0,
        settings@.hardware_helper is Some <==> helper is Some,
        helper is Some ==> settings@.hardware_helper->0 == helper->0@,
        settings@.sys_root == "/sys"@,
{
}

} // verus!
