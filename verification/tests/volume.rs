use tablero::volume::{
    device_kind_from_form_factor, device_kind_from_icon_name, device_kind_from_props,
    is_audio_sink, parse_metadata_default_name, pick_active_sink_id, sink_to_watch, Liveness,
    Properties, PropsUpdate, SinkEntry, State, Supervisor, Verdict, VolumeProducer, WatchdogAction,
    DEFAULT_INTERVAL, MAX_RETRY_DELAY, PW_ID_CORE, RESYNC_TICKS, RETRY_DELAY,
};
use tablero::widget::{DeviceKind, Volume};

#[test]
fn the_digital_outputs_of_a_sound_card_are_monitors() {
    for icon in [
        "audio-card-hdmi",
        "audio-card-spdif",
        "audio-card-dp",
        "audio-card-displayport-1",
    ] {
        assert_eq!(device_kind_from_icon_name(Some(icon)), DeviceKind::Monitor);
    }
    assert_eq!(
        device_kind_from_icon_name(Some("audio-card-usb")),
        DeviceKind::Speakers
    );
}

#[test]
fn icon_name_headphones_prefix_maps_to_headphones() {
    assert_eq!(
        device_kind_from_icon_name(Some("audio-headphones")),
        DeviceKind::Headphones
    );
    assert_eq!(
        device_kind_from_icon_name(Some("audio-headphones-analog")),
        DeviceKind::Headphones
    );
}

#[test]
fn icon_name_headset_prefix_maps_to_headset() {
    assert_eq!(
        device_kind_from_icon_name(Some("audio-headset")),
        DeviceKind::Headset
    );
}

#[test]
fn icon_name_speakers_prefix_maps_to_speakers() {
    assert_eq!(
        device_kind_from_icon_name(Some("audio-speakers")),
        DeviceKind::Speakers
    );
}

#[test]
fn icon_name_video_display_maps_to_monitor() {
    assert_eq!(
        device_kind_from_icon_name(Some("video-display")),
        DeviceKind::Monitor
    );
    assert_eq!(
        device_kind_from_icon_name(Some("video-monitor")),
        DeviceKind::Monitor
    );
}

#[test]
fn icon_name_phone_maps_to_phone() {
    assert_eq!(
        device_kind_from_icon_name(Some("audio-handsfree")),
        DeviceKind::Phone
    );
    assert_eq!(device_kind_from_icon_name(Some("phone")), DeviceKind::Phone);
    assert_eq!(
        device_kind_from_icon_name(Some("phone-book")),
        DeviceKind::Other
    );
}

#[test]
fn icon_name_tv_maps_to_tv() {
    assert_eq!(device_kind_from_icon_name(Some("tv")), DeviceKind::Tv);
    assert_eq!(
        device_kind_from_icon_name(Some("television")),
        DeviceKind::Tv
    );
}

#[test]
fn icon_name_missing_or_unknown_falls_back_to_other() {
    assert_eq!(device_kind_from_icon_name(None), DeviceKind::Other);
    // A truly unknown icon (not even an `audio-card-*` prefix) keeps
    // the generic `Other` so the bar never shows a wrong glyph.
    assert_eq!(
        device_kind_from_icon_name(Some("totally-unknown-icon")),
        DeviceKind::Other
    );
}

#[test]
fn icon_name_audio_card_analog_maps_to_speakers() {
    assert_eq!(
        device_kind_from_icon_name(Some("audio-card-analog")),
        DeviceKind::Speakers
    );
    assert_eq!(
        device_kind_from_icon_name(Some("audio-card")),
        DeviceKind::Speakers
    );
}

#[test]
fn icon_name_audio_card_hdmi_maps_to_monitor() {
    assert_eq!(
        device_kind_from_icon_name(Some("audio-card-hdmi")),
        DeviceKind::Monitor
    );
    assert_eq!(
        device_kind_from_icon_name(Some("audio-card-dp")),
        DeviceKind::Monitor
    );
}

#[test]
fn form_factor_known_values_map_to_their_kinds() {
    assert_eq!(
        device_kind_from_form_factor(Some("headphone")),
        DeviceKind::Headphones
    );
    assert_eq!(
        device_kind_from_form_factor(Some("headset")),
        DeviceKind::Headset
    );
    assert_eq!(
        device_kind_from_form_factor(Some("speaker")),
        DeviceKind::Speakers
    );
    assert_eq!(
        device_kind_from_form_factor(Some("monitor")),
        DeviceKind::Monitor
    );
    assert_eq!(device_kind_from_form_factor(Some("tv")), DeviceKind::Tv);
    assert_eq!(
        device_kind_from_form_factor(Some("handset")),
        DeviceKind::Phone
    );
}

#[test]
fn form_factor_missing_or_unknown_falls_back_to_other() {
    assert_eq!(device_kind_from_form_factor(None), DeviceKind::Other);
    assert_eq!(
        device_kind_from_form_factor(Some("wonderful")),
        DeviceKind::Other
    );
}

fn properties(entries: &[(&str, &str)]) -> Properties {
    Properties::new(
        entries
            .iter()
            .map(|(key, value)| (key.to_string(), value.to_string()))
            .collect(),
    )
}

#[test]
fn the_icon_name_counts_before_the_form_factor() {
    let both = properties(&[
        ("device.form-factor", "tv"),
        ("device.icon-name", "audio-headset-usb"),
    ]);
    assert_eq!(device_kind_from_props(&both), DeviceKind::Headset);
    let unclear = properties(&[
        ("device.icon-name", "mystery"),
        ("device.form-factor", "car"),
    ]);
    assert_eq!(device_kind_from_props(&unclear), DeviceKind::Phone);
    assert_eq!(device_kind_from_props(&properties(&[])), DeviceKind::Other);
}

#[test]
fn only_audio_output_nodes_are_watched() {
    let sink = properties(&[("media.class", "Audio/Sink"), ("node.name", "hdmi")]);
    assert!(is_audio_sink(&sink));
    assert_eq!(sink_to_watch(true, Some(&sink)), Some("hdmi".to_string()));
    assert_eq!(sink_to_watch(false, Some(&sink)), None);
    assert_eq!(sink_to_watch(true, None), None);
    let source = properties(&[("media.class", "Audio/Source")]);
    assert!(!is_audio_sink(&source));
    assert_eq!(sink_to_watch(true, Some(&source)), None);
    let nameless = properties(&[("media.class", "Audio/Sink")]);
    assert_eq!(sink_to_watch(true, Some(&nameless)), Some("?".to_string()));
}

#[test]
fn pick_active_sink_returns_none_for_no_candidates() {
    assert_eq!(pick_active_sink_id(&[]), None);
}

#[test]
fn pick_active_sink_returns_none_when_nothing_is_running() {
    let candidates = &[(1u32, "alpha", false), (2, "beta", false)];
    assert_eq!(pick_active_sink_id(candidates), None);
}

#[test]
fn pick_active_sink_picks_the_running_sink() {
    let candidates = &[
        (1u32, "alpha", false),
        (2, "beta", true),
        (3, "gamma", false),
    ];
    assert_eq!(pick_active_sink_id(candidates), Some(2));
}

#[test]
fn pick_active_sink_tiebreaks_by_alphabetical_name() {
    // The deterministic tiebreak: among running sinks, the
    // alphabetically first name wins. The candidate ordering is
    // irrelevant.
    let a = &[
        (1u32, "charlie", true),
        (2, "alpha", true),
        (3, "bravo", true),
    ];
    assert_eq!(pick_active_sink_id(a), Some(2));
    let b = &[
        (2u32, "alpha", true),
        (3, "bravo", true),
        (1, "charlie", true),
    ];
    assert_eq!(pick_active_sink_id(b), Some(2));
}

#[test]
fn pick_active_sink_ignores_non_running_even_with_earlier_name() {
    // A non-running "alpha" loses to a running "beta".
    let candidates = &[(1u32, "alpha", false), (2, "beta", true)];
    assert_eq!(pick_active_sink_id(candidates), Some(2));
}

#[test]
fn of_equal_names_the_first_listed_is_picked_and_a_prefix_comes_first() {
    assert_eq!(
        pick_active_sink_id(&[(4, "same", true), (9, "same", true)]),
        Some(4)
    );
    assert_eq!(
        pick_active_sink_id(&[(4, "usb-2", true), (9, "usb", true)]),
        Some(9)
    );
}

#[test]
fn parse_metadata_default_name_extracts_name_from_json() {
    let value = r#"{"name":"alsa_output.pci-0000_00_1f.3.analog-stereo"}"#;
    assert_eq!(
        parse_metadata_default_name(value).as_deref(),
        Some("alsa_output.pci-0000_00_1f.3.analog-stereo")
    );
}

#[test]
fn parse_metadata_default_name_handles_extra_whitespace() {
    let value = r#"{ "name" :   "my-sink"  }"#;
    assert_eq!(
        parse_metadata_default_name(value).as_deref(),
        Some("my-sink")
    );
}

#[test]
fn parse_metadata_default_name_returns_none_for_missing_name() {
    assert_eq!(parse_metadata_default_name(r#"{"foo":"bar"}"#), None);
    assert_eq!(parse_metadata_default_name(""), None);
    assert_eq!(parse_metadata_default_name(r#"{"name""#), None);
    assert_eq!(parse_metadata_default_name(r#"{"name":"open"#), None);
}

fn sink(
    name: &str,
    device: DeviceKind,
    running: bool,
    volume: Option<u8>,
    muted: Option<bool>,
) -> SinkEntry {
    SinkEntry {
        name: name.to_string(),
        device,
        running,
        volume,
        muted,
    }
}

#[test]
fn compute_snapshot_returns_none_for_no_sinks() {
    assert!(State::default().compute_snapshot().is_none());
}

#[test]
fn compute_snapshot_uses_the_running_sink_when_available() {
    let mut state = State::default();
    state.sinks.insert(
        1,
        sink(
            "headphones",
            DeviceKind::Headphones,
            true,
            Some(50),
            Some(false),
        ),
    );
    state.sinks.insert(
        2,
        sink(
            "speakers",
            DeviceKind::Speakers,
            false,
            Some(30),
            Some(true),
        ),
    );
    let snap = state.compute_snapshot().expect("snapshot");
    assert_eq!(snap.level(), 50);
    assert!(!snap.muted());
    assert_eq!(snap.device(), DeviceKind::Headphones);
}

#[test]
fn compute_snapshot_falls_back_to_default_sink_when_none_running() {
    let mut state = State::default();
    state.sinks.insert(
        1,
        sink(
            "headphones",
            DeviceKind::Headphones,
            false,
            Some(50),
            Some(false),
        ),
    );
    state.sinks.insert(
        2,
        sink(
            "speakers",
            DeviceKind::Speakers,
            false,
            Some(30),
            Some(true),
        ),
    );
    state.default_sink_name = Some("speakers".to_string());
    let snap = state.compute_snapshot().expect("snapshot");
    // The default-sink path is what wins when no sink is running.
    assert_eq!(snap.device(), DeviceKind::Speakers);
    assert!(snap.muted());
}

#[test]
fn without_a_default_the_first_sink_by_name_is_shown() {
    let mut state = State::default();
    state
        .sinks
        .insert(1, sink("zeta", DeviceKind::Tv, false, Some(10), None));
    state
        .sinks
        .insert(2, sink("beta", DeviceKind::Monitor, false, Some(20), None));
    assert_eq!(
        state.compute_snapshot(),
        Some(Volume::new(20, false, DeviceKind::Monitor))
    );
    state.default_sink_name = Some("gone".to_string());
    assert_eq!(
        state.compute_snapshot(),
        Some(Volume::new(20, false, DeviceKind::Monitor))
    );
}

#[test]
fn compute_snapshot_returns_none_when_sink_has_no_volume_yet() {
    let mut state = State::default();
    state
        .sinks
        .insert(1, sink("speakers", DeviceKind::Speakers, true, None, None));
    assert!(state.compute_snapshot().is_none());
}

#[test]
fn compute_snapshot_shows_a_sink_that_has_not_reported_mute_yet() {
    let mut state = State::default();
    state.sinks.insert(
        1,
        sink("speakers", DeviceKind::Speakers, true, Some(42), None),
    );
    let snap = state.compute_snapshot().expect("snapshot");
    assert_eq!(snap.level(), 42);
    assert!(!snap.muted());
}

#[test]
fn reports_of_a_sink_send_each_change_once() {
    let mut state = State::default();
    // The first evaluation tells that there is nothing to show yet.
    assert_eq!(state.sink_found(7, "usb"), Some(None));
    assert_eq!(state.on_tick(), None);
    let level = PropsUpdate::of(Some(40), None);
    assert_eq!(
        state.sink_params(7, level),
        Some(Some(Volume::new(40, false, DeviceKind::Other)))
    );
    assert_eq!(state.sink_params(7, level), None);
    assert_eq!(state.sink_params(7, None), None);
    let headset = properties(&[("device.icon-name", "audio-headset")]);
    assert_eq!(
        state.sink_info(7, true, Some(&headset)),
        Some(Some(Volume::new(40, false, DeviceKind::Headset)))
    );
    // A state change without properties keeps what the output is.
    assert_eq!(state.sink_info(7, false, None), None);
    assert_eq!(
        state.sink_params(7, PropsUpdate::of(None, Some(true))),
        Some(Some(Volume::new(40, true, DeviceKind::Headset)))
    );
    // Objects that are no outputs come and go unnoticed.
    assert_eq!(state.sink_removed(99), None);
    assert_eq!(state.sink_removed(7), Some(None));
}

#[test]
fn the_configured_default_is_followed() {
    let mut state = State::default();
    state.sink_found(1, "a");
    state.sink_params(1, PropsUpdate::of(Some(10), None));
    state.sink_found(2, "b");
    state.sink_params(2, PropsUpdate::of(Some(20), None));
    assert_eq!(
        state.metadata_property(Some("default.audio.sink"), Some(r#"{"name":"b"}"#)),
        Some(Some(Volume::new(20, false, DeviceKind::Other)))
    );
    assert_eq!(
        state.metadata_property(Some("default.audio.source"), Some(r#"{"name":"a"}"#)),
        None
    );
    assert_eq!(
        state.metadata_property(Some("default.audio.sink"), None),
        None
    );
    assert_eq!(
        state.metadata_property(Some("default.audio.sink"), Some("{}")),
        Some(Some(Volume::new(10, false, DeviceKind::Other)))
    );
}

#[test]
fn an_unchanged_reading_is_sent_again_now_and_then() {
    let mut state = State::default();
    state.sink_found(1, "a");
    state.sink_params(1, PropsUpdate::of(Some(10), None));
    let mut sent = 0;
    for _ in 0..2 * RESYNC_TICKS {
        if state.on_poll_tick().is_some() {
            sent += 1;
        }
    }
    assert_eq!(sent, 2);
}

#[test]
fn an_update_carries_something() {
    assert_eq!(PropsUpdate::of(None, None), None);
    assert_eq!(
        PropsUpdate::of(None, Some(true)),
        Some(PropsUpdate {
            volume: None,
            muted: Some(true)
        })
    );
}

#[test]
fn an_unanswered_sync_gives_the_connection_up() {
    let mut liveness = Liveness::new();
    assert!(!liveness.sync_issued(true));
    assert_eq!(liveness.on_watchdog(), WatchdogAction::Quit);
    assert!(!liveness.on_done(5), "another object answered");
    assert_eq!(liveness.on_watchdog(), WatchdogAction::Quit);
    assert!(liveness.on_done(PW_ID_CORE), "the handshake completes");
    assert_eq!(liveness.on_watchdog(), WatchdogAction::Sync);
    assert!(liveness.sync_issued(false), "a sync that fails");
    assert!(!liveness.on_done(PW_ID_CORE), "it completes once");
    assert!(liveness.on_error(PW_ID_CORE));
    assert!(!liveness.on_error(31));
}

#[test]
fn reconnecting_backs_off_and_blanks_from_the_second_failure_on() {
    let mut supervisor = Supervisor::new();
    let mut delays = Vec::new();
    for attempt in 1..=7u32 {
        match supervisor.session_ended(false, false) {
            Verdict::Retry {
                delay,
                blank,
                failures,
            } => {
                assert_eq!(blank, attempt > 1);
                assert_eq!(failures, attempt);
                delays.push(delay / RETRY_DELAY);
            }
            Verdict::Stop => panic!("readings are still taken"),
        }
    }
    assert_eq!(delays, vec![1, 2, 4, 8, 16, 30, 30]);
    assert_eq!(MAX_RETRY_DELAY, 30 * RETRY_DELAY);
    // A session that reached the server starts over.
    assert_eq!(
        supervisor.session_ended(true, false),
        Verdict::Retry {
            delay: RETRY_DELAY,
            blank: false,
            failures: 1
        }
    );
    assert_eq!(supervisor.session_ended(true, true), Verdict::Stop);
}

#[test]
fn the_producer_polls_every_two_seconds() {
    assert_eq!(VolumeProducer::new().interval(), DEFAULT_INTERVAL);
    assert_eq!(VolumeProducer::with_interval(5).interval(), 5);
    assert_eq!(VolumeProducer::default().name(), "volume");
}

#[test]
fn a_volume_level_is_clamped_to_a_hundred() {
    assert_eq!(Volume::new(180, true, DeviceKind::Tv).level(), 100);
}
