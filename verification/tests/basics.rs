use tablero::blit::{rgba_to_argb8888, write_argb8888};
use tablero::config::path::config_file_path_from;
use tablero::hypridle::{
    desired_state, discover_hypridle_processes, required_action, state_after_command,
    wait_until_stopped, HypridleAction, HypridleProducer, ProcessEntry, StopWait,
};
use tablero::icon::BuiltinIcon;
use tablero::networkmanager::{connection_state, has_ssid, names_object, network_from_nm};
use tablero::notifications::{
    notifications_from_swaync, on_bus_event, seed_snapshot, signal_snapshot, toggle_for, BusAction,
    BusEvent, Toggle,
};
use tablero::performance::{elapsed_micros, enabled_from, PerformanceLogger};
use tablero::redraw::{RedrawScheduler, FRAME_CALLBACK_TIMEOUT};
use tablero::scale::Scale;
use tablero::time::{Moment, MILLISECOND, SECOND};
use tablero::upower::{battery_from_upower, upower_state};
use tablero::widget::{BatteryState, Command, NetworkState};

#[test]
fn swaps_red_and_blue_preserving_alpha() {
    let rgba = [0x10, 0x20, 0x30, 0x40, 0xAA, 0xBB, 0xCC, 0xDD];
    let out = rgba_to_argb8888(&rgba);
    assert_eq!(out, vec![0x30, 0x20, 0x10, 0x40, 0xCC, 0xBB, 0xAA, 0xDD]);
}

#[test]
fn write_into_canvas_only_touches_pixel_bytes() {
    let rgba = [1, 2, 3, 4];
    let mut dst = [0xFFu8; 8];
    write_argb8888(&rgba, &mut dst);
    assert_eq!(&dst[..4], &[3, 2, 1, 4]);
    // Trailing pixel in dst is left untouched.
    assert_eq!(&dst[4..], &[0xFF, 0xFF, 0xFF, 0xFF]);
}

#[test]
fn output_length_matches_input() {
    let rgba = vec![0u8; 320 * 32 * 4];
    assert_eq!(rgba_to_argb8888(&rgba).len(), rgba.len());
}

#[test]
fn converting_twice_gives_the_pixels_back() {
    let rgba = [9, 8, 7, 6, 5, 4, 3, 2];
    assert_eq!(rgba_to_argb8888(&rgba_to_argb8888(&rgba)), rgba.to_vec());
}

fn process(pid: &str, comm: Option<&str>) -> ProcessEntry {
    ProcessEntry {
        name: pid.to_string(),
        uid: Some(1000),
        comm: comm.map(str::to_owned),
    }
}

#[test]
fn discovery_matches_exact_same_user_process_names() {
    let entries = [
        process("self", None),
        process("42", Some("hypridle\n")),
        process("43", Some("hypridle-helper\n")),
        process("44", Some("Hypridle\n")),
    ];
    assert_eq!(discover_hypridle_processes(&entries, 1000), vec![42]);
}

#[test]
fn discovery_ignores_non_process_entries_and_missing_comm_files() {
    let entries = [
        process("self", None),
        process("51", None),
        process("52", Some("hypridle\n")),
    ];
    assert_eq!(discover_hypridle_processes(&entries, 1000), vec![52]);
}

#[test]
fn discovery_ignores_other_users_and_sorts_by_process() {
    let mut foreign = process("7", Some("hypridle\n"));
    foreign.uid = Some(0);
    let entries = [
        process("90", Some("hypridle\n")),
        foreign,
        process("12", Some("hypridle\n")),
    ];
    assert_eq!(discover_hypridle_processes(&entries, 1000), vec![12, 90]);
}

#[test]
fn desired_state_is_idempotent() {
    assert_eq!(required_action(false, false), HypridleAction::Keep);
    assert_eq!(required_action(true, true), HypridleAction::Keep);
    assert_eq!(required_action(false, true), HypridleAction::Start);
    assert_eq!(required_action(true, false), HypridleAction::Stop);
}

#[test]
fn the_idle_daemon_reports_changes_only() {
    let mut producer = HypridleProducer::new();
    assert_eq!(producer.name(), "hypridle");
    assert_eq!(producer.root(), "/proc");
    assert_eq!(producer.on_reading(Some(true)), Some(true));
    assert_eq!(producer.on_reading(Some(true)), None);
    assert_eq!(producer.on_reading(None), None);
    assert_eq!(producer.on_reading(Some(false)), Some(false));
    assert_eq!(HypridleProducer::with_interval(7).interval(), 7);
}

#[test]
fn a_stopped_daemon_is_waited_for_until_the_deadline() {
    let deadline = Moment { nanos: 100 };
    assert_eq!(
        wait_until_stopped(true, Moment { nanos: 99 }, deadline),
        StopWait::Again
    );
    assert_eq!(
        wait_until_stopped(true, deadline, deadline),
        StopWait::Settled(true)
    );
    assert_eq!(
        wait_until_stopped(false, Moment { nanos: 1 }, deadline),
        StopWait::Settled(false)
    );
    assert_eq!(desired_state(&Command::SetHypridle(true)), Some(true));
    assert_eq!(desired_state(&Command::SwitchWorkspace(1)), None);
    assert_eq!(state_after_command(Some(true), Some(false)), Some(true));
    assert_eq!(state_after_command(None, Some(false)), Some(false));
}

#[test]
fn every_semantic_icon_resolves_to_artwork() {
    let mut icons = vec![
        BuiltinIcon::Clock,
        BuiltinIcon::BatteryLow,
        BuiltinIcon::BatteryHalf,
        BuiltinIcon::BatteryFull,
        BuiltinIcon::BatteryCharging,
        BuiltinIcon::NetworkWireless,
        BuiltinIcon::NetworkWired,
        BuiltinIcon::System,
        BuiltinIcon::Memory,
        BuiltinIcon::Bluetooth,
        BuiltinIcon::Updates,
        BuiltinIcon::Notifications,
        BuiltinIcon::NotificationsOff,
        BuiltinIcon::HypridleActive,
        BuiltinIcon::HypridleInactive,
        BuiltinIcon::Power,
        BuiltinIcon::PowerProfilePerformance,
        BuiltinIcon::PowerProfileBalanced,
        BuiltinIcon::PowerProfileSaver,
        BuiltinIcon::VolumeLow,
        BuiltinIcon::VolumeMedium,
        BuiltinIcon::VolumeHigh,
        BuiltinIcon::VolumeMuted,
    ];
    icons.extend((0..=7).map(BuiltinIcon::Backlight));
    for icon in icons {
        assert!(
            icon.raw().is_some(),
            "no artwork for {icon:?} (stem {:?})",
            icon.stem()
        );
    }
}

#[test]
fn backlight_ramp_saturates_at_full() {
    // Levels past the ramp reuse the full-brightness art rather than falling
    // off the end of the table.
    assert_eq!(BuiltinIcon::Backlight(6).stem(), "bright-full");
    assert_eq!(BuiltinIcon::Backlight(99).stem(), "bright-full");
    assert_eq!(BuiltinIcon::Backlight(0).stem(), "bright-empty");
}

#[test]
fn xdg_config_home_is_used_when_set() {
    assert_eq!(
        config_file_path_from(Some("/cfg"), Some("/home/u")),
        Some("/cfg/tablero/config.toml".to_string())
    );
}

#[test]
fn falls_back_to_home_config_when_xdg_unset() {
    assert_eq!(
        config_file_path_from(None, Some("/home/u")),
        Some("/home/u/.config/tablero/config.toml".to_string())
    );
}

#[test]
fn empty_xdg_is_ignored_in_favor_of_home() {
    // An exported-but-empty XDG_CONFIG_HOME is treated as unset.
    assert_eq!(
        config_file_path_from(Some(""), Some("/home/u")),
        Some("/home/u/.config/tablero/config.toml".to_string())
    );
}

#[test]
fn no_home_and_no_xdg_resolves_to_no_path() {
    // Nothing to resolve against: the caller uses built-in defaults.
    assert_eq!(config_file_path_from(None, None), None);
}

#[test]
fn offline_states_normalize_to_disconnected() {
    // 10 asleep, 20 disconnected, 30 disconnecting — all offline regardless
    // of any stale connection type.
    for state in [10, 20, 30] {
        let network = network_from_nm(state, Some("802-3-ethernet"), None);
        assert_eq!(network.state(), NetworkState::Disconnected);
    }
}

#[test]
fn connected_ethernet_normalizes_to_wired() {
    // 50/60/70 are connected (local/site/global); 40 is connecting.
    for state in [40, 50, 60, 70] {
        let network = network_from_nm(state, Some("802-3-ethernet"), None);
        assert_eq!(network.state(), NetworkState::Wired);
        assert_eq!(network.label(), "wired");
    }
}

#[test]
fn connected_wireless_keeps_its_ssid() {
    let network = network_from_nm(70, Some("802-11-wireless"), Some("home-net"));
    assert_eq!(network.state(), NetworkState::Wireless);
    assert_eq!(network.ssid(), Some("home-net"));
    assert_eq!(network.label(), "wifi home-net");
}

#[test]
fn connected_wireless_without_ssid_shows_bare_wifi() {
    let network = network_from_nm(70, Some("802-11-wireless"), None);
    assert_eq!(network.state(), NetworkState::Wireless);
    assert_eq!(network.ssid(), None);
    assert_eq!(network.label(), "wifi");
}

#[test]
fn connected_with_unknown_type_normalizes_to_unknown() {
    // Connected, but the link is neither plain ethernet nor wifi (a VPN,
    // a bridge, a missing type): shown as unknown rather than mislabeled.
    assert_eq!(
        network_from_nm(70, Some("vpn"), None).state(),
        NetworkState::Unknown
    );
    assert_eq!(
        network_from_nm(70, None, None).state(),
        NetworkState::Unknown
    );
}

#[test]
fn unknown_nm_state_normalizes_to_unknown() {
    assert_eq!(
        network_from_nm(0, Some("802-3-ethernet"), None).state(),
        NetworkState::Unknown
    );
    assert_eq!(
        network_from_nm(99, Some("802-11-wireless"), Some("home-net")).state(),
        NetworkState::Unknown
    );
}

#[test]
fn ssid_is_dropped_when_the_link_is_not_wireless() {
    // Even if NetworkManager hands an SSID alongside a wired link, the
    // normalized snapshot never carries it.
    let network = network_from_nm(70, Some("802-3-ethernet"), Some("home-net"));
    assert_eq!(network.ssid(), None);
    assert_eq!(network.label(), "wired");
}

#[test]
fn the_network_name_is_read_on_wifi_only() {
    assert_eq!(connection_state(Some("802-11-wireless")), NetworkState::Wireless);
    assert!(has_ssid("802-11-wireless"));
    assert!(!has_ssid("802-3-ethernet"));
    assert!(!names_object("/"));
    assert!(names_object("/org/freedesktop/NetworkManager/ActiveConnection/1"));
}

#[test]
fn readings_normalize_into_snapshots() {
    let quiet = notifications_from_swaync(0, false);
    assert_eq!(quiet.count(), 0);
    assert!(!quiet.dnd());

    let busy = notifications_from_swaync(7, true);
    assert_eq!(busy.count(), 7);
    assert!(busy.dnd());
}

#[test]
fn snapshots_differing_only_in_dropped_fields_are_equal() {
    // cc_open / inhibited never reach the snapshot, so two daemon states
    // differing only there produce equal snapshots — and equal snapshots
    // are exactly what the widget's update() ignores without a repaint.
    assert_eq!(
        notifications_from_swaync(3, false),
        notifications_from_swaync(3, false)
    );
    assert_eq!(
        signal_snapshot((3, false, true, false)),
        signal_snapshot((3, false, false, true))
    );
}

#[test]
fn the_notification_daemon_is_read_anew_when_its_owner_changes() {
    assert_eq!(
        on_bus_event(BusEvent::State(4, true, false, false)),
        BusAction::Emit(notifications_from_swaync(4, true))
    );
    assert_eq!(on_bus_event(BusEvent::Malformed), BusAction::Skip);
    assert_eq!(on_bus_event(BusEvent::OwnerChanged), BusAction::Reseed);
    assert_eq!(
        seed_snapshot(Some((true, false, 2, false))),
        Some(notifications_from_swaync(2, true))
    );
    assert_eq!(seed_snapshot(None), None);
    assert_eq!(
        toggle_for(&Command::ToggleNotificationPanel),
        Some(Toggle::Panel)
    );
    assert_eq!(
        toggle_for(&Command::ToggleNotificationsDnd),
        Some(Toggle::Dnd)
    );
    assert_eq!(toggle_for(&Command::SwitchWorkspace(2)), None);
}

#[test]
fn diagnostics_require_an_explicit_truthy_value() {
    for value in ["1", "true", "yes", "on"] {
        assert!(enabled_from(Some(value)), "{value}");
    }
    for value in ["", "0", "false", "no", "off", "unexpected"] {
        assert!(!enabled_from(Some(value)), "{value}");
    }
    assert!(!enabled_from(None));
}

#[test]
fn elapsed_microseconds_never_rounds_a_nonzero_sample_to_zero() {
    assert_eq!(elapsed_micros(0), 0);
    assert_eq!(elapsed_micros(1), 1);
    assert_eq!(elapsed_micros(42_000), 42);
}

#[test]
fn diagnostics_that_are_off_never_ask_the_clock() {
    let off = PerformanceLogger::from_value(None, || panic!("the clock was asked"));
    assert_eq!(off.start(|| panic!("the clock was asked")), None);
    let on = PerformanceLogger::from_value(Some("1"), || Moment { nanos: 5 });
    assert_eq!(
        on.start(|| Moment { nanos: 1_005 }),
        Some(Moment { nanos: 1_005 })
    );
}

#[test]
fn a_clean_scheduler_has_nothing_to_paint() {
    let mut scheduler = RedrawScheduler::new();
    assert!(!scheduler.is_dirty());
    assert_eq!(scheduler.take_due(Moment { nanos: 77 }), None);
}

#[test]
fn requests_before_a_flush_collapse_into_one_frame_with_the_first_cause() {
    let mut scheduler = RedrawScheduler::new();
    scheduler.request("workspaces");
    scheduler.request("active-window");
    scheduler.request("tick");

    let now = Moment { nanos: 3 * SECOND };
    assert_eq!(scheduler.take_due(now), Some("workspaces"));
    assert_eq!(scheduler.take_due(now), None);
    assert!(!scheduler.is_dirty());
}

#[test]
fn a_request_waits_for_the_frame_callback_of_the_previous_commit() {
    let mut scheduler = RedrawScheduler::new();
    let committed = Moment { nanos: 3 * SECOND };
    scheduler.committed(committed);
    scheduler.request("tick");

    assert_eq!(scheduler.take_due(committed), None);
    assert!(scheduler.is_dirty(), "the request is kept, not dropped");

    scheduler.frame_done();
    assert_eq!(scheduler.take_due(committed), Some("tick"));
}

#[test]
fn a_frame_callback_that_never_arrives_stops_blocking_after_the_timeout() {
    let mut scheduler = RedrawScheduler::new();
    let committed = Moment { nanos: 3 * SECOND };
    scheduler.committed(committed);
    scheduler.request("tick");

    let just_before = Moment {
        nanos: committed.nanos + FRAME_CALLBACK_TIMEOUT - MILLISECOND,
    };
    assert_eq!(scheduler.take_due(just_before), None);
    let deadline = Moment {
        nanos: committed.nanos + FRAME_CALLBACK_TIMEOUT,
    };
    assert_eq!(scheduler.wake_deadline(), Some(deadline));
    assert_eq!(scheduler.take_due(deadline), Some("tick"));
    assert_eq!(scheduler.wake_deadline(), None);
}

#[test]
fn a_frame_callback_with_nothing_requested_paints_nothing() {
    let mut scheduler = RedrawScheduler::new();
    scheduler.committed(Moment { nanos: 3 * SECOND });
    scheduler.frame_done();
    assert_eq!(scheduler.take_due(Moment { nanos: 3 * SECOND }), None);
}

#[test]
fn one_is_the_identity_scale() {
    assert_eq!(Scale::one().get(), 1);
    assert_eq!(Scale::one().to_physical(32), 32);
    assert_eq!(Scale::one().to_physical_size(1920, 32), (1920, 32));
    assert_eq!(Scale::default(), Scale::one());
}

#[test]
fn new_clamps_non_positive_factors_to_one() {
    // A stray 0 or negative factor (e.g. reported before the surface enters
    // an output) must never collapse the surface to zero pixels.
    assert_eq!(Scale::new(0), Scale::one());
    assert_eq!(Scale::new(-3), Scale::one());
    assert_eq!(Scale::new(1), Scale::one());
}

#[test]
fn to_physical_multiplies_logical_by_the_factor() {
    let scale = Scale::new(2);
    assert_eq!(scale.get(), 2);
    assert_eq!(scale.to_physical(32), 64);
    assert_eq!(scale.to_physical(0), 0);
}

#[test]
fn to_physical_size_scales_both_axes() {
    assert_eq!(Scale::new(2).to_physical_size(1920, 32), (3840, 64));
    assert_eq!(Scale::new(3).to_physical_size(100, 10), (300, 30));
}

#[test]
fn to_physical_saturates_instead_of_overflowing() {
    // Pathological widths must not wrap around; saturation keeps the value
    // pinned at the maximum rather than producing a tiny buffer.
    assert_eq!(Scale::new(4).to_physical(u32::MAX), u32::MAX);
}

#[test]
fn charging_states_normalize_to_charging() {
    // 1 Charging, 5 Pending charge.
    assert_eq!(upower_state(1), BatteryState::Charging);
    assert_eq!(upower_state(5), BatteryState::Charging);
}

#[test]
fn on_battery_states_normalize_to_discharging() {
    // 2 Discharging, 3 Empty, 6 Pending discharge.
    assert_eq!(upower_state(2), BatteryState::Discharging);
    assert_eq!(upower_state(3), BatteryState::Discharging);
    assert_eq!(upower_state(6), BatteryState::Discharging);
}

#[test]
fn fully_charged_normalizes_to_full() {
    assert_eq!(upower_state(4), BatteryState::Full);
}

#[test]
fn unknown_and_unexpected_states_normalize_to_unknown() {
    assert_eq!(upower_state(0), BatteryState::Unknown);
    assert_eq!(upower_state(99), BatteryState::Unknown);
}

#[test]
fn present_battery_normalizes_into_a_snapshot() {
    let battery = battery_from_upower(2, 84.6_f64.round() as u8, true).expect("present");
    assert_eq!(battery.state(), BatteryState::Discharging);
    assert_eq!(battery.percent(), 85);
    assert_eq!(battery.label(), "85% discharging");
}

#[test]
fn absent_battery_normalizes_to_none() {
    // No battery present: percentage/state are irrelevant, the snapshot is
    // absent so the widget shows nothing.
    assert_eq!(battery_from_upower(2, 0, false), None);
}
