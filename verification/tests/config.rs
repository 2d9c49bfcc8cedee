use tablero::config::color::Color;
use tablero::config::style::{FormatIconsConfig, WidgetStyleConfig};
use tablero::config::validate::{
    find_bad_placeholder, validate_font_size, Fault, InvalidConfig, NumberField, StyleTable,
};
use tablero::config::{
    Bar, BarOverride, Config, FontOverride, MonitorConfig, ThemeOverride, WidgetKind,
};
use tablero::number::{Double, Single};
use tablero::render::Bounds;
use tablero::scale::Scale;
use tablero::widget::{ClickButton, Command, IconSetting, WidgetStyle};

fn single(x: f32) -> Single {
    Single { bits: x.to_bits() }
}

fn double(x: f64) -> Double {
    Double { bits: x.to_bits() }
}

fn some(s: &str) -> Option<String> {
    Some(s.to_string())
}

fn monitor(name: &str, set: impl FnOnce(&mut MonitorConfig)) -> MonitorConfig {
    let mut monitor = MonitorConfig {
        name: name.to_string(),
        ..MonitorConfig::default()
    };
    set(&mut monitor);
    monitor
}

fn zones(config: &Config) -> Vec<WidgetKind> {
    config
        .bar
        .modules_left
        .iter()
        .chain(&config.bar.modules_center)
        .chain(&config.bar.modules_right)
        .copied()
        .collect()
}

fn problem(config: &Config) -> InvalidConfig {
    config.validate().expect_err("an invalid configuration")
}

#[test]
fn default_is_the_documented_baseline() {
    let config = Config::default();
    assert_eq!(config.height, 32);
    assert_eq!(config.bar.margin, 0);
    assert_eq!(config.bar.gap, 0);
    assert_eq!(config.bar.background, None);
    assert_eq!(config.theme.background, Color::rgb(0x18, 0x18, 0x18));
    assert_eq!(config.theme.foreground, Color::rgb(0xEA, 0xEA, 0xEA));
    assert_eq!(config.theme.accent, Color::rgb(0xEA, 0xEA, 0xEA));
    assert_eq!(config.font.family, None);
    assert_eq!(config.font.size, single(16.0));
    // The default zones: workspaces left, title centered, the time-and-status
    // cluster right (clock first, then battery/system/network and power
    // profiles); the tray stays opt-in.
    assert_eq!(config.bar.modules_left, vec![WidgetKind::Workspaces]);
    assert_eq!(config.bar.modules_center, vec![WidgetKind::Title]);
    assert_eq!(
        config.bar.modules_right,
        vec![
            WidgetKind::Clock,
            WidgetKind::Battery,
            WidgetKind::System,
            WidgetKind::Network,
            WidgetKind::PowerProfilesDaemon,
        ],
    );
    assert_eq!(config.validate(), Ok(()));
}

#[test]
fn color_accepts_hash_and_bare_hex() {
    assert_eq!(
        Color::parse_hex("#1a2b3c").unwrap(),
        Color::rgb(0x1A, 0x2B, 0x3C)
    );
    assert_eq!(
        Color::parse_hex("1a2b3c").unwrap(),
        Color::rgb(0x1A, 0x2B, 0x3C)
    );
    // Six digits are opaque: alpha defaults to 0xFF.
    assert_eq!(Color::parse_hex("#1a2b3c").unwrap().a, 0xFF);
    // Eight digits carry an explicit alpha channel.
    assert_eq!(
        Color::parse_hex("#1a2b3c80").unwrap(),
        Color::rgba(0x1A, 0x2B, 0x3C, 0x80)
    );
    assert_eq!(
        Color::parse_hex("00ff0040").unwrap(),
        Color::rgba(0x00, 0xFF, 0x00, 0x40)
    );
}

#[test]
fn color_rejects_malformed_hex_with_a_clear_message() {
    // Wrong length, non-hex digits, and empty all fail loudly.
    for bad in ["#fff", "#12345g", "not-a-color", ""] {
        let err = Color::parse_hex(bad).unwrap_err();
        assert!(err.contains("expected"), "unhelpful message: {err}");
    }
}

#[test]
fn a_refused_color_is_quoted_in_the_message() {
    let err = Color::parse_hex("a\"b\n").unwrap_err();
    assert!(err.contains(&format!("{:?}", "a\"b\n")), "{err}");
    assert_eq!(Color::from_hex("a\"b\n"), None);
    assert_eq!(
        Color::from_hex("#010203"),
        Some(Color::rgba(1, 2, 3, 0xFF))
    );
}

#[test]
fn tray_is_an_opt_in_widget_name() {
    assert!(!zones(&Config::default()).contains(&WidgetKind::Tray));
    let widget = WidgetKind::Tray.build(
        Bounds::new(0, 0, 64, 32),
        WidgetStyle::default(),
        None,
        None,
    );
    assert_eq!(widget.kind, WidgetKind::Tray);
}

#[test]
fn updates_is_an_opt_in_widget_name() {
    let mut config = Config::default();
    assert!(!zones(&config).contains(&WidgetKind::Updates));
    config.bar.modules_right = vec![WidgetKind::Updates, WidgetKind::Clock];
    config.widget.updates.format = some("{count} {icon}");
    config.widget.updates.on_click = some("/usr/local/bin/update-system");
    assert_eq!(config.validate(), Ok(()));
    let dashboard = config.build_dashboard(Bounds::new(0, 0, 100, 32), None);
    assert_eq!(dashboard.right[0].kind, WidgetKind::Updates);
    assert_eq!(
        dashboard.right[0].format.as_deref(),
        Some("{count} {icon}")
    );
    assert_eq!(
        dashboard.right[0].on_click.as_deref(),
        Some("/usr/local/bin/update-system")
    );
}

#[test]
fn uses_widget_checks_global_and_monitor_zones() {
    let mut global = Config::default();
    global.bar.modules_right = vec![WidgetKind::Updates];
    assert!(global.uses_widget(WidgetKind::Updates));

    let mut per_monitor = Config::default();
    per_monitor.monitors = vec![monitor("eDP-1", |m| {
        m.bar.modules_right = Some(vec![WidgetKind::Updates]);
    })];
    assert!(per_monitor.uses_widget(WidgetKind::Updates));
    assert!(!Config::default().uses_widget(WidgetKind::Updates));
}

#[test]
fn hypridle_and_power_are_opt_in_widget_names() {
    let mut config = Config::default();
    assert!(!config.uses_widget(WidgetKind::Hypridle));
    assert!(!config.uses_widget(WidgetKind::Power));
    config.bar.modules_right = vec![WidgetKind::Hypridle, WidgetKind::Power, WidgetKind::Clock];
    assert!(config.uses_widget(WidgetKind::Hypridle));
    assert!(config.uses_widget(WidgetKind::Power));
}

#[test]
fn power_actions_reach_the_built_dashboard() {
    let mut config = Config::default();
    config.bar.modules_left = vec![];
    config.bar.modules_center = vec![];
    config.bar.modules_right = vec![WidgetKind::Power];
    config.widget.power.on_click = some("wlogout");
    config.widget.power.on_click_right = some("hyprlock");
    let dashboard = config.build_dashboard(Bounds::new(0, 0, 100, 32), None);

    assert_eq!(
        dashboard.on_click(99, 16, ClickButton::Left),
        Some(Command::RunProgram("wlogout".to_string()))
    );
    assert_eq!(
        dashboard.on_click(99, 16, ClickButton::Right),
        Some(Command::RunProgram("hyprlock".to_string()))
    );
    assert_eq!(dashboard.on_click(100, 16, ClickButton::Left), None);
}

#[test]
fn the_first_widget_with_a_program_answers_a_click() {
    let mut config = Config::default();
    config.bar.modules_left = vec![WidgetKind::Network];
    config.bar.modules_center = vec![WidgetKind::Clock];
    config.bar.modules_right = vec![WidgetKind::Power];
    config.widget.clock.on_click = some("calendar");
    config.widget.power.on_click = some("wlogout");
    let dashboard = config.build_dashboard(Bounds::new(0, 0, 100, 32), None);
    assert_eq!(
        dashboard.on_click(1, 1, ClickButton::Left),
        Some(Command::RunProgram("calendar".to_string()))
    );
    assert_eq!(dashboard.on_click(1, 1, ClickButton::Right), None);
}

#[test]
fn on_click_right_folds_onto_a_monitor_override() {
    let mut config = Config::default();
    config.widget.power.on_click_right = some("global-lock");
    config.monitors = vec![monitor("DP-1", |m| {
        m.widget.power.on_click_right = some("monitor-lock");
    })];

    assert_eq!(
        config
            .resolve_for_output(Some("DP-1"))
            .widget
            .power
            .on_click_right
            .as_deref(),
        Some("monitor-lock")
    );
    assert_eq!(
        config
            .resolve_for_output(Some("HDMI-A-1"))
            .widget
            .power
            .on_click_right
            .as_deref(),
        Some("global-lock")
    );
}

#[test]
fn bluetooth_is_an_opt_in_widget_name_and_builds() {
    assert!(!zones(&Config::default()).contains(&WidgetKind::Bluetooth));
    let mut config = Config::default();
    config.bar.modules_right = vec![WidgetKind::Bluetooth, WidgetKind::Clock];
    config.widget.bluetooth.on_click = some("/usr/bin/blueman-manager");

    // It constructs a widget without panicking, and the configured
    // on-click path reaches the widget unchanged.
    let widget = WidgetKind::Bluetooth.build(
        Bounds::new(0, 0, 64, 32),
        WidgetStyle::default(),
        None,
        config.widget.bluetooth.on_click.clone(),
    );
    let click = widget.on_click(10, 10, ClickButton::Left);
    assert_eq!(
        click,
        Some(Command::RunProgram("/usr/bin/blueman-manager".to_string()))
    );
}

#[test]
fn bluetooth_with_no_on_click_is_display_only() {
    let widget = WidgetKind::Bluetooth.build(
        Bounds::new(0, 0, 64, 32),
        WidgetStyle::default(),
        None,
        None,
    );
    assert_eq!(widget.on_click(10, 10, ClickButton::Left), None);
}

#[test]
fn bluetooth_on_click_folds_onto_a_monitor_override() {
    let mut config = Config::default();
    config.widget.bluetooth.on_click = some("/global/launcher.sh");
    config.monitors = vec![monitor("DP-1", |m| {
        m.widget.bluetooth.on_click = some("/per-monitor/launcher.sh");
    })];
    // The resolved config for DP-1 sees the per-monitor override.
    let resolved = config.resolve_for_output(Some("DP-1"));
    assert_eq!(
        resolved.widget.bluetooth.on_click.as_deref(),
        Some("/per-monitor/launcher.sh")
    );
    // The global path stays where it was.
    assert_eq!(
        config.widget.bluetooth.on_click.as_deref(),
        Some("/global/launcher.sh")
    );
    // An output with no matching monitor keeps the global on-click.
    let other = config.resolve_for_output(Some("HDMI-A-1"));
    assert_eq!(
        other.widget.bluetooth.on_click.as_deref(),
        Some("/global/launcher.sh")
    );
}

#[test]
fn volume_is_an_opt_in_widget_name_and_builds() {
    assert!(!zones(&Config::default()).contains(&WidgetKind::Volume));
    let mut config = Config::default();
    config.bar.modules_right = vec![WidgetKind::Volume, WidgetKind::Clock];
    config.widget.volume.on_click = some("/usr/bin/pavucontrol");

    let widget = WidgetKind::Volume.build(
        Bounds::new(0, 0, 64, 32),
        WidgetStyle::default(),
        None,
        config.widget.volume.on_click.clone(),
    );
    let click = widget.on_click(10, 10, ClickButton::Left);
    assert_eq!(
        click,
        Some(Command::RunProgram("/usr/bin/pavucontrol".to_string()))
    );
}

#[test]
fn volume_with_no_on_click_is_display_only() {
    let widget = WidgetKind::Volume.build(
        Bounds::new(0, 0, 64, 32),
        WidgetStyle::default(),
        None,
        None,
    );
    assert_eq!(widget.on_click(10, 10, ClickButton::Left), None);
}

#[test]
fn volume_on_click_folds_onto_a_monitor_override() {
    let mut config = Config::default();
    config.widget.volume.on_click = some("/global/launcher.sh");
    config.monitors = vec![monitor("DP-1", |m| {
        m.widget.volume.on_click = some("/per-monitor/launcher.sh");
    })];
    let resolved = config.resolve_for_output(Some("DP-1"));
    assert_eq!(
        resolved.widget.volume.on_click.as_deref(),
        Some("/per-monitor/launcher.sh")
    );
    assert_eq!(
        config.widget.volume.on_click.as_deref(),
        Some("/global/launcher.sh")
    );
    let other = config.resolve_for_output(Some("HDMI-A-1"));
    assert_eq!(
        other.widget.volume.on_click.as_deref(),
        Some("/global/launcher.sh")
    );
}

#[test]
fn notifications_is_an_opt_in_widget_name_and_builds() {
    assert!(!zones(&Config::default()).contains(&WidgetKind::Notifications));
    let widget = WidgetKind::Notifications.build(
        Bounds::new(0, 0, 64, 32),
        WidgetStyle::default(),
        None,
        None,
    );
    assert_eq!(widget.on_click(10, 10, ClickButton::Left), None);
}

#[test]
fn notifications_style_table_resolves_and_folds_per_monitor() {
    // Per-monitor overrides fold onto the table field-by-field - including the
    // attention colors that drive the pending-notification dot.
    let mut config = Config::default();
    config.widget.notifications.foreground = Some(Color::rgb(0x11, 0x11, 0x11));
    config.widget.notifications.attention.background = Some(Color::rgb(0xFF, 0x00, 0x00));
    config.monitors = vec![monitor("DP-1", |m| {
        m.widget.notifications.foreground = Some(Color::rgb(0x22, 0x22, 0x22));
    })];

    let resolved = config.resolve_for_output(Some("DP-1"));
    let notifications = &resolved.widget.notifications;
    // The per-monitor foreground wins...
    assert_eq!(notifications.foreground, Some(Color::rgb(0x22, 0x22, 0x22)));
    // ...while the untouched attention background is inherited from the
    // global table, not reset.
    assert_eq!(
        notifications.attention.background,
        Some(Color::rgb(0xFF, 0x00, 0x00))
    );
}

#[test]
fn title_is_a_known_widget_name_and_builds() {
    let unbound = WidgetKind::Title.build(
        Bounds::new(0, 0, 64, 32),
        WidgetStyle::default(),
        None,
        None,
    );
    assert_eq!(unbound.monitor.as_deref(), Some(""));
    let bound = WidgetKind::Title.build(
        Bounds::new(0, 0, 64, 32),
        WidgetStyle::default(),
        Some("DP-1"),
        None,
    );
    assert_eq!(bound.monitor.as_deref(), Some("DP-1"));
}

#[test]
fn resolved_zones_dedupe_across_zones_first_position_wins() {
    // A widget named in two zones is built once, at its first mention; the
    // duplicate in a later zone is dropped.
    let mut config = Config::default();
    config.bar.modules_left = vec![WidgetKind::Clock, WidgetKind::Battery, WidgetKind::Clock];
    config.bar.modules_center = vec![WidgetKind::Battery, WidgetKind::Workspaces];
    config.bar.modules_right = vec![WidgetKind::Clock, WidgetKind::Network];
    let zones = config.resolved_zones();
    assert_eq!(zones.left, vec![WidgetKind::Clock, WidgetKind::Battery]);
    // `battery` already appeared on the left, so center keeps only workspaces.
    assert_eq!(zones.center, vec![WidgetKind::Workspaces]);
    // `clock` already appeared, so the right keeps only network.
    assert_eq!(zones.right, vec![WidgetKind::Network]);
}

#[test]
fn resolved_zones_on_empty_zones_are_empty() {
    let mut config = Config::default();
    config.bar.modules_left = vec![];
    config.bar.modules_center = vec![];
    config.bar.modules_right = vec![];
    let zones = config.resolved_zones();
    assert!(zones.left.is_empty());
    assert!(zones.center.is_empty());
    assert!(zones.right.is_empty());
}

#[test]
fn physical_height_scales_the_logical_height() {
    let config = Config {
        height: 30,
        ..Config::default()
    };
    // At scale 1 the physical height equals the configured logical height...
    assert_eq!(config.physical_height(Scale::one()), 30);
    // ...and at higher scales it grows by the integer factor.
    assert_eq!(config.physical_height(Scale::new(2)), 60);
    assert_eq!(config.physical_height(Scale::new(3)), 90);
}

#[test]
fn scaled_render_settings_scale_only_the_font() {
    let mut config = Config::default();
    config.theme.foreground = Color::rgb(0x10, 0x20, 0x30);
    config.font.family = some("JetBrains Mono");
    config.font.size = single(16.0);

    let scaled = config.scaled_render_settings(Scale::new(2), single(2.0 * 16.0));
    // The font size doubles to physical pixels, and the scale factor is
    // recorded so widget geometry (radius/padding/gap) can follow it...
    assert_eq!(scaled.font_size, single(32.0));
    assert_eq!(scaled.scale, 2);
    // ...while everything scale-independent is carried verbatim.
    assert_eq!(scaled.foreground, (0x10, 0x20, 0x30, 0xFF));
    assert_eq!(scaled.font_family.as_deref(), Some("JetBrains Mono"));
}

#[test]
fn scaled_render_settings_at_scale_one_equal_the_logical_settings() {
    // The unscaled path must be untouched: scale 1 resolves identically to
    // the plain logical settings.
    let mut config = Config::default();
    config.font.size = single(18.0);
    assert_eq!(
        config.scaled_render_settings(Scale::one(), config.font.size),
        config.render_settings()
    );
}

#[test]
fn no_monitor_overrides_resolves_to_the_base_config() {
    let mut config = Config {
        height: 30,
        ..Config::default()
    };
    config.bar.modules_left = vec![WidgetKind::Clock];
    let resolved = config.resolve_for_output(Some("DP-1"));
    assert_eq!(resolved.height, 30);
    assert_eq!(resolved.bar.modules_left, vec![WidgetKind::Clock]);
    assert!(resolved.monitors.is_empty());
}

#[test]
fn an_output_with_no_name_resolves_to_the_base_config() {
    let config = Config {
        height: 30,
        monitors: vec![monitor("DP-1", |m| m.height = Some(40))],
        ..Config::default()
    };
    // An output the compositor gave no connector name falls back to global.
    assert_eq!(config.resolve_for_output(None).height, 30);
}

#[test]
fn a_matching_monitor_overrides_only_its_named_fields() {
    let mut config = Config::default();
    config.theme.background = Color::rgb(0x11, 0x11, 0x11);
    config.theme.foreground = Color::rgb(0xEE, 0xEE, 0xEE);
    config.monitors = vec![monitor("HDMI-A-1", |m| {
        m.height = Some(28);
        m.theme = ThemeOverride {
            background: Some(Color::rgb(0, 0, 0)),
            ..ThemeOverride::default()
        };
    })];

    let resolved = config.resolve_for_output(Some("HDMI-A-1"));
    // Overridden fields take the monitor's value...
    assert_eq!(resolved.height, 28);
    assert_eq!(resolved.theme.background, Color::rgb(0, 0, 0));
    // ...and fields the monitor left unset inherit from the base config,
    // including theme channels the override did not mention.
    assert_eq!(resolved.theme.foreground, Color::rgb(0xEE, 0xEE, 0xEE));
    assert_eq!(resolved.bar.modules_left, vec![WidgetKind::Workspaces]);
}

#[test]
fn a_non_matching_output_name_resolves_to_the_base_config() {
    let config = Config {
        monitors: vec![monitor("DP-1", |m| m.height = Some(50))],
        ..Config::default()
    };
    // An output whose name matches no [[monitor]] entry uses global defaults.
    assert_eq!(config.resolve_for_output(Some("eDP-1")).height, 32);
}

#[test]
fn monitor_font_overrides_apply() {
    let config = Config {
        monitors: vec![monitor("DP-2", |m| {
            m.font = FontOverride {
                family: None,
                size: Some(single(20.0)),
            };
        })],
        ..Config::default()
    };
    let resolved = config.resolve_for_output(Some("DP-2"));
    assert_eq!(resolved.font.size, single(20.0));
    // The font family the override did not set still inherits the base.
    assert_eq!(resolved.font.family, None);
}

#[test]
fn monitor_zone_override_replaces_only_the_named_zone() {
    let config = Config {
        bar: Bar {
            modules_left: vec![WidgetKind::Workspaces],
            modules_center: vec![WidgetKind::Clock],
            modules_right: vec![WidgetKind::Battery],
            ..Bar::default()
        },
        monitors: vec![monitor("DP-1", |m| {
            m.bar = BarOverride {
                modules_center: Some(vec![WidgetKind::System, WidgetKind::Network]),
                ..BarOverride::default()
            };
        })],
        ..Config::default()
    };

    let resolved = config.resolve_for_output(Some("DP-1"));
    // The named zone is replaced wholesale by the monitor's list...
    assert_eq!(
        resolved.bar.modules_center,
        vec![WidgetKind::System, WidgetKind::Network]
    );
    // ...and the zones the monitor left unset inherit the global layout.
    assert_eq!(resolved.bar.modules_left, vec![WidgetKind::Workspaces]);
    assert_eq!(resolved.bar.modules_right, vec![WidgetKind::Battery]);
    // And the replacement reaches the de-duplicated zones the dashboard builds.
    assert_eq!(
        resolved.resolved_zones().center,
        vec![WidgetKind::System, WidgetKind::Network]
    );
}

#[test]
fn monitor_widget_override_merges_per_field_onto_the_global_style() {
    let mut config = Config::default();
    config.widget.battery.foreground = Some(Color::rgb(0xEE, 0xEE, 0xEE));
    config.widget.battery.border = Some(Color::rgb(0x44, 0x55, 0x66));
    config.widget.battery.radius = Some(6);
    config.monitors = vec![monitor("DP-1", |m| {
        m.widget.battery.background = Some(Color::rgba(0xBF, 0x61, 0x6A, 0xFF));
        m.widget.battery.border_width = Some(2);
    })];

    let resolved = config.resolve_for_output(Some("DP-1"));
    let battery = &resolved.widget.battery;
    // The monitor's set field lands on the resolved widget style...
    assert_eq!(
        battery.background,
        Some(Color::rgba(0xBF, 0x61, 0x6A, 0xFF))
    );
    // ...while the global fields the monitor left unset are preserved, not
    // reset to the bare default.
    assert_eq!(battery.foreground, Some(Color::rgb(0xEE, 0xEE, 0xEE)));
    assert_eq!(battery.border, Some(Color::rgb(0x44, 0x55, 0x66)));
    assert_eq!(battery.border_width, Some(2));
    assert_eq!(battery.radius, Some(6));
    // A widget the monitor never mentioned is untouched by the merge.
    assert_eq!(resolved.widget.clock, WidgetStyleConfig::default());
}

#[test]
fn title_widget_style_folds_onto_per_monitor_override() {
    let mut config = Config::default();
    config.widget.title.foreground = Some(Color::rgb(0xEA, 0xEA, 0xEA));
    config.widget.title.radius = Some(8);
    config.monitors = vec![monitor("DP-1", |m| {
        m.widget.title.background = Some(Color::rgb(0x2E, 0x34, 0x40));
    })];

    let resolved = config.resolve_for_output(Some("DP-1"));
    let title = &resolved.widget.title;
    // Monitor-only field lands...
    assert_eq!(title.background, Some(Color::rgb(0x2E, 0x34, 0x40)));
    // ...global fields the monitor left unset are preserved, not reset.
    assert_eq!(title.foreground, Some(Color::rgb(0xEA, 0xEA, 0xEA)));
    assert_eq!(title.radius, Some(8));
    // A widget the monitor never mentioned is untouched by the merge.
    assert_eq!(resolved.widget.clock, WidgetStyleConfig::default());
}

#[test]
fn monitor_bar_background_and_spacing_override_apply() {
    let mut config = Config::default();
    config.bar.margin = 4;
    config.bar.gap = 4;
    config.bar.background = Some(Color::rgb(0x18, 0x18, 0x18));
    config.monitors = vec![monitor("DP-1", |m| {
        m.bar.background = Some(Color::rgba(0, 0, 0, 0x80));
        m.bar.margin = Some(8);
    })];

    let resolved = config.resolve_for_output(Some("DP-1"));
    // The set bar fields take the monitor's values...
    assert_eq!(resolved.bar.margin, 8);
    assert_eq!(resolved.bar.background, Some(Color::rgba(0, 0, 0, 0x80)));
    // ...and the gap the monitor left unset inherits the global bar.
    assert_eq!(resolved.bar.gap, 4);
    // The translucent background reaches the render settings this output clears to.
    assert_eq!(resolved.render_settings().background, (0, 0, 0, 0x80));
}

#[test]
fn duplicate_monitor_entries_resolve_to_the_first_match() {
    let config = Config {
        monitors: vec![
            monitor("DP-1", |m| m.height = Some(40)),
            monitor("DP-1", |m| m.height = Some(99)),
        ],
        ..Config::default()
    };
    // First-match wins, mirroring widget de-duplication's first-wins rule.
    assert_eq!(config.resolve_for_output(Some("DP-1")).height, 40);
}

#[test]
fn resolving_twice_changes_nothing_more() {
    let config = Config {
        monitors: vec![monitor("DP-1", |m| m.height = Some(40))],
        ..Config::default()
    };
    let once = config.resolve_for_output(Some("DP-1"));
    assert_eq!(once.resolve_for_output(Some("DP-1")), once);
}

#[test]
fn zero_height_is_rejected() {
    let err = problem(&Config {
        height: 0,
        ..Config::default()
    });
    let message = err.message("");
    assert!(message.contains("height"), "message: {message}");
    assert_eq!(message, "height must be between 1 and 4096, got 0");
}

#[test]
fn absurdly_tall_bar_is_rejected() {
    let err = problem(&Config {
        height: 100000,
        ..Config::default()
    });
    assert_eq!(
        err,
        InvalidConfig {
            monitor: None,
            fault: Fault::OutOfRange {
                field: NumberField::Height,
                value: 100000,
                min: 1,
                max: 4096
            }
        }
    );
}

#[test]
fn a_wide_gap_or_margin_is_rejected() {
    let mut config = Config::default();
    config.bar.margin = 4097;
    assert_eq!(
        problem(&config).message(""),
        "bar.margin must be between 0 and 4096, got 4097"
    );
    config.bar.margin = 4096;
    config.bar.gap = 5000;
    assert_eq!(
        problem(&config).message(""),
        "bar.gap must be between 0 and 4096, got 5000"
    );
}

#[test]
fn zero_font_size_is_rejected() {
    let mut config = Config::default();
    config.font.size = single(0.0);
    let message = problem(&config).message("0");
    assert!(message.contains("font.size"), "message: {message}");
}

#[test]
fn non_finite_font_size_is_rejected() {
    // Both must be refused, not rendered.
    for size in [f32::NAN, f32::INFINITY, f32::NEG_INFINITY] {
        let mut config = Config::default();
        config.font.size = single(size);
        assert_eq!(
            problem(&config).fault,
            Fault::FontSize { size: single(size) }
        );
    }
}

#[test]
fn negative_font_size_is_rejected() {
    let mut config = Config::default();
    config.font.size = single(-4.0);
    assert_eq!(
        problem(&config).fault,
        Fault::FontSize { size: single(-4.0) }
    );
    assert!(validate_font_size(single(-0.0)).is_err());
}

#[test]
fn nameless_monitor_override_is_rejected() {
    // A monitor override with no name can never match an output.
    let err = problem(&Config {
        monitors: vec![monitor("", |m| m.height = Some(30))],
        ..Config::default()
    });
    let message = err.message("");
    assert!(message.contains("name"), "message: {message}");
    assert_eq!(err.fault, Fault::EmptyMonitorName);
}

#[test]
fn out_of_range_monitor_override_is_rejected() {
    let err = problem(&Config {
        monitors: vec![monitor("DP-1", |m| m.height = Some(0))],
        ..Config::default()
    });
    // The message points at the specific monitor and field.
    let message = err.message("");
    assert!(
        message.contains("DP-1") && message.contains("height"),
        "message: {message}"
    );
    assert_eq!(
        message,
        "monitor \"DP-1\" height must be between 1 and 4096, got 0"
    );
}

#[test]
fn boundary_values_are_accepted() {
    // The inclusive bounds themselves are valid.
    let mut config = Config {
        height: 4096,
        ..Config::default()
    };
    config.font.size = single(1.0);
    assert_eq!(config.validate(), Ok(()));
    config.font.size = single(512.0);
    assert_eq!(config.validate(), Ok(()));
    config.font.size = single(512.5);
    assert!(config.validate().is_err());
}

#[test]
fn backlight_configuration_parses_and_merges_per_monitor() {
    let mut config = Config::default();
    config.bar.modules_right = vec![WidgetKind::Backlight];
    config.widget.backlight.device = some("intel_backlight");
    config.widget.backlight.format = some("{icon}  {percent}%");
    config.widget.backlight.format_icons = Some(FormatIconsConfig::Ramp(vec![
        "low".to_string(),
        "high".to_string(),
    ]));
    config.widget.backlight.scroll_step = Some(double(1.5));
    config.monitors = vec![monitor("eDP-1", |m| {
        m.widget.backlight.scroll_step = Some(double(2.0));
    })];
    assert_eq!(config.validate(), Ok(()));
    assert_eq!(
        config
            .widget
            .backlight
            .format_icons
            .as_ref()
            .and_then(FormatIconsConfig::ramp)
            .map(Vec::as_slice),
        Some(&["low".to_string(), "high".to_string()][..])
    );
    let resolved = config.resolve_for_output(Some("eDP-1"));
    assert_eq!(resolved.widget.backlight.scroll_step, Some(double(2.0)));
    assert_eq!(
        resolved.widget.backlight.device.as_deref(),
        Some("intel_backlight")
    );
}

fn backlight(set: impl FnOnce(&mut WidgetStyleConfig)) -> InvalidConfig {
    let mut config = Config::default();
    set(&mut config.widget.backlight);
    problem(&config)
}

#[test]
fn invalid_backlight_configuration_is_rejected() {
    for (error, number) in [
        (backlight(|b| b.format = some("{unknown}")), ""),
        (
            backlight(|b| b.format_icons = Some(FormatIconsConfig::Ramp(vec![]))),
            "",
        ),
        (backlight(|b| b.scroll_step = Some(double(0.0))), "0"),
        (backlight(|b| b.device = some("../panel")), ""),
        (
            backlight(|b| b.format_icons = Some(FormatIconsConfig::Named(vec![]))),
            "",
        ),
        (backlight(|b| b.scroll_step = Some(double(f64::NAN))), "NaN"),
        (backlight(|b| b.scroll_step = Some(double(100.5))), "100.5"),
    ] {
        let message = error.message(number);
        assert!(message.contains("widget.backlight"), "{message}");
    }
    assert_eq!(
        backlight(|b| b.device = some("../panel")).message(""),
        "widget.backlight.device must be a non-empty sysfs device name, got \"../panel\""
    );
}

#[test]
fn invalid_battery_format_is_rejected() {
    let mut config = Config::default();
    config.widget.battery.format = some("{watts}");
    let error = problem(&config).message("");
    assert!(error.contains("widget.battery.format"), "message: {error}");
    assert!(error.contains("{watts}"), "message: {error}");
}

#[test]
fn invalid_updates_format_is_rejected() {
    let mut config = Config::default();
    config.widget.updates.format = some("{percent}");
    let error = problem(&config).message("");
    assert!(error.contains("widget.updates.format"), "message: {error}");
    assert!(error.contains("{percent}"), "message: {error}");
}

#[test]
fn placeholders_are_checked_by_their_table() {
    assert_eq!(
        find_bad_placeholder(StyleTable::Battery, "{icon} {percent}%"),
        None
    );
    assert_eq!(
        find_bad_placeholder(StyleTable::Updates, "{icon} {percent}%"),
        Some("{percent}".to_string())
    );
    assert_eq!(
        find_bad_placeholder(StyleTable::Backlight, "no braces"),
        None
    );
}

#[test]
fn power_profiles_configuration_parses_and_merges_per_monitor() {
    let mut config = Config::default();
    config.widget.power_profiles_daemon.format = some("{icon} {profile}");
    config.widget.power_profiles_daemon.tooltip = Some(true);
    config.widget.power_profiles_daemon.tooltip_format =
        some("Power profile: {profile}\nDriver: {driver}");
    config.widget.power_profiles_daemon.format_icons = Some(FormatIconsConfig::Named(vec![
        ("default".to_string(), "sun".to_string()),
        ("balanced".to_string(), "balance".to_string()),
        ("performance".to_string(), "bolt".to_string()),
        ("power-saver".to_string(), "leaf".to_string()),
    ]));
    config.monitors = vec![monitor("eDP-1", |m| {
        m.widget.power_profiles_daemon.tooltip = Some(false);
    })];
    assert_eq!(config.validate(), Ok(()));
    let icons = config
        .widget
        .power_profiles_daemon
        .format_icons
        .as_ref()
        .and_then(FormatIconsConfig::named)
        .expect("named icons");
    assert_eq!(icons[2], ("performance".to_string(), "bolt".to_string()));

    let resolved = config.resolve_for_output(Some("eDP-1"));
    assert_eq!(resolved.widget.power_profiles_daemon.tooltip, Some(false));
    assert_eq!(
        resolved.widget.power_profiles_daemon.format.as_deref(),
        Some("{icon} {profile}")
    );
}

fn profiles(set: impl FnOnce(&mut WidgetStyleConfig)) -> InvalidConfig {
    let mut config = Config::default();
    set(&mut config.widget.power_profiles_daemon);
    problem(&config)
}

#[test]
fn invalid_power_profiles_configuration_is_rejected() {
    for error in [
        profiles(|p| p.format = some("{percent}")),
        profiles(|p| p.tooltip_format = some("{unknown}")),
        profiles(|p| p.format_icons = Some(FormatIconsConfig::Ramp(vec![]))),
        profiles(|p| p.format_icons = Some(FormatIconsConfig::Named(vec![]))),
        profiles(|p| {
            p.format_icons = Some(FormatIconsConfig::Named(vec![(
                "default".to_string(),
                "".to_string(),
            )]))
        }),
    ] {
        let message = error.message("");
        assert!(
            message.contains("power-profiles-daemon"),
            "message: {message}"
        );
    }
}

#[test]
fn a_style_table_resolves_against_the_theme() {
    let mut config = Config::default();
    config.theme.foreground = Color::rgb(1, 2, 3);
    config.widget.clock.icon = some("none");
    config.widget.clock.border = Some(Color::rgb(4, 5, 6));
    config.widget.battery.icon = some("B");
    let clock = config.widget.clock.resolve(&config.theme);
    assert_eq!(clock.foreground, (1, 2, 3, 0xFF));
    assert_eq!(clock.icon, IconSetting::Hidden);
    assert_eq!(clock.border, Some((4, 5, 6, 0xFF)));
    assert_eq!(clock.background, None);
    assert_eq!(
        config.widget.battery.resolve(&config.theme).icon,
        IconSetting::Custom("B".to_string())
    );
    assert_eq!(
        config.widget.get(WidgetKind::Battery).icon.as_deref(),
        Some("B")
    );
}
