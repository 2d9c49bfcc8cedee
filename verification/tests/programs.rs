use std::cell::RefCell;
use tablero::command::{
    expand_tilde, find_in_path, format_exit_status, is_bare_name, launch_of, line_of, line_of_text,
    located, preflight_on_click, program_of, resolve_program, Closed, FileFacts,
};
use tablero::power_profiles::platform::{
    detect_platform, helper_outcome, maps_profile, mode_file, overlay_snapshot,
    profile_from_performance_mode, qc71_mode_for, read_platform_profile, resolve_hardware_helper,
    synthetic_profiles, PlatformKind, PowerProfilesSettings, Qc71Mode,
};
use tablero::power_profiles::{
    absent_delay, after_wake, compose, plan_profile, profile_from_properties, requested_profile,
    Endpoint, FollowStep, PowerProfilesProducer, ProfileProperties, Reported, SetPlan, Wake,
    PLATFORM_POLL, RETRY_DELAY,
};
use tablero::sources::power_profiles_settings;
use tablero::widget::{Command, PowerProfile, PowerProfilesState};

const MODE: &str = "/r/devices/platform/qc71_laptop/performance_mode";

#[test]
fn expand_tilde_replaces_a_leading_tilde_with_home() {
    assert_eq!(
        expand_tilde("~/scripts/bluetooth.sh", Some("/home/u")),
        "/home/u/scripts/bluetooth.sh"
    );
}

#[test]
fn expand_tilde_with_a_bare_tilde_replaces_with_home() {
    assert_eq!(expand_tilde("~", Some("/home/u")), "/home/u");
    assert_eq!(expand_tilde("~", None), "~");
}

#[test]
fn expand_tilde_leaves_an_absolute_path_unchanged() {
    assert_eq!(
        expand_tilde("/usr/bin/blueman-manager", Some("/home/u")),
        "/usr/bin/blueman-manager"
    );
}

#[test]
fn expand_tilde_leaves_a_mid_path_tilde_unchanged() {
    // Only a leading `~` expands. A `~user` form (tilde followed by
    // something other than `/`) is taken verbatim, and a tilde inside the
    // path is left alone.
    assert_eq!(
        expand_tilde("/tmp/~snapshot", Some("/home/u")),
        "/tmp/~snapshot"
    );
    assert_eq!(expand_tilde("~user/path", Some("/home/u")), "~user/path");
}

#[test]
fn expanding_twice_changes_nothing_more() {
    let once = expand_tilde("~/bin/x", Some("/home/u"));
    assert_eq!(expand_tilde(&once, Some("/home/u")), once);
}

#[test]
fn preflight_allows_bare_path_names() {
    // PATH lookup is deferred to spawn; bare names are not preflighted.
    let missing = || Err("No such file or directory".to_string());
    assert!(preflight_on_click("pavucontrol", missing()).is_ok());
    assert!(preflight_on_click("gnome-calendar", missing()).is_ok());
}

#[test]
fn preflight_rejects_missing_absolute_paths() {
    let err = preflight_on_click(
        "/this/path/definitely/does/not/exist",
        Err("No such file or directory".to_string()),
    )
    .expect_err("missing file");
    assert!(err.contains("does/not/exist"), "{err}");
}

#[test]
fn preflight_rejects_non_executable_scripts() {
    let facts = FileFacts {
        is_dir: false,
        mode: 0o644,
    };
    let err = preflight_on_click("/d/no-exec.sh", Ok(facts)).expect_err("not executable");
    assert!(err.contains("not executable"), "{err}");
}

#[test]
fn preflight_rejects_directories_and_accepts_programs() {
    let dir = FileFacts {
        is_dir: true,
        mode: 0o755,
    };
    assert_eq!(
        preflight_on_click("/d", Ok(dir)),
        Err("/d is a directory".to_string())
    );
    let program = FileFacts {
        is_dir: false,
        mode: 0o755,
    };
    assert_eq!(preflight_on_click("/d/x", Ok(program)), Ok(()));
}

#[test]
fn format_exit_status_reports_codes() {
    assert_eq!(
        format_exit_status(Some(0), "exit status: 0"),
        "exit status 0"
    );
    assert_eq!(
        format_exit_status(Some(1), "exit status: 1"),
        "exit status 1"
    );
    assert_eq!(
        format_exit_status(None, "signal: 9 (SIGKILL)"),
        "terminated by signal (signal: 9 (SIGKILL))"
    );
}

#[test]
fn a_closed_channel_says_so() {
    assert_eq!(
        Closed.message(),
        "command executor closed; channel receiver was dropped"
    );
}

#[test]
fn a_command_line_splits_into_a_program_and_its_arguments() {
    let launch = launch_of("  ~/bin/menu  --at  top ", Some("/home/u")).expect("a program");
    assert_eq!(launch.program, "/home/u/bin/menu");
    assert_eq!(launch.arguments, vec!["--at", "top"]);
    assert!(launch_of(" \t ", Some("/home/u")).is_none());
}

#[test]
fn bare_names_are_found_in_the_first_directory_that_has_them() {
    let dirs = vec!["/a".to_string(), "/b/".to_string(), "/c".to_string()];
    let asked = RefCell::new(Vec::new());
    let found = find_in_path("tool", &dirs, |path: &str| {
        asked.borrow_mut().push(path.to_string());
        path == "/b/tool" || path == "/c/tool"
    });
    assert_eq!(found, Some("/b/tool".to_string()));
    assert_eq!(asked.into_inner(), vec!["/a/tool", "/b/tool"]);
    assert_eq!(find_in_path("tool", &dirs, |_: &str| false), None);
    assert!(is_bare_name("tool"));
    assert!(!is_bare_name("./tool"));
    assert!(!is_bare_name(""));
    assert_eq!(
        resolve_program("tool", Some("/home/u"), &dirs, |p: &str| p == "/c/tool"),
        "/c/tool"
    );
    assert_eq!(
        resolve_program("~/x", Some("/home/u"), &dirs, |_: &str| false),
        "/home/u/x"
    );
}

#[test]
fn a_list_of_words_keeps_its_blanks() {
    let list = |words: &[&str]| words.iter().map(|w| w.to_string()).collect::<Vec<_>>();
    let line = line_of(&list(&["~/my menu", "--title", "two words", ""])).expect("a line");
    let launch = launch_of(&line, Some("/home/u")).expect("a program");
    assert_eq!(launch.program, "/home/u/my menu");
    assert_eq!(launch.arguments, ["--title", "two words", ""]);
    let alone = line_of(&list(&["a b"])).expect("a line");
    assert_eq!(launch_of(&alone, None).expect("a program").program, "a b");
    assert_eq!(line_of(&list(&["a\0b"])), None);
    let nothing = line_of(&list(&[])).expect("a line");
    assert_eq!(launch_of(&nothing, None), None);
}

#[test]
fn a_text_is_never_taken_for_a_list() {
    assert_eq!(line_of_text("menu --top"), "menu --top");
    for text in ["a\0b", "a\0", "\0a\0", "\0", "~/a\0b"] {
        let launch = launch_of(&line_of_text(text), Some("/home/u")).expect("a program");
        // No program has such a name, so that the start fails.
        assert_eq!(launch.program, text.replace('~', "/home/u"));
        assert!(launch.arguments.is_empty());
    }
    let launch = launch_of(&line_of_text("\0a b\0c"), None).expect("a program");
    assert_eq!(launch.program, "\0a");
    assert_eq!(launch.arguments, ["b\0c"]);
}

#[test]
fn the_first_directory_of_path_gives_the_helper() {
    let dirs = vec!["/a".to_string(), "/b".to_string(), "/c".to_string()];
    let find = |has: &dyn Fn(&str) -> bool| {
        resolve_hardware_helper(
            None,
            PlatformKind::Qc71,
            None,
            &dirs,
            |path: &str| has(path),
            |_: &str| true,
        )
    };
    assert_eq!(
        find(&|path| path == "/b/qc71-set-mode" || path == "/c/qc71-set-mode"),
        Some("/b/qc71-set-mode".to_string())
    );
    assert_eq!(
        find(&|path| path == "/a/qc71-set-mode" || path == "/c/tablero-qc71-set-mode"),
        Some("/c/tablero-qc71-set-mode".to_string())
    );
}

#[test]
fn a_bare_name_that_is_nowhere_in_path_is_an_error() {
    let dirs = vec!["/a".to_string(), "/b".to_string()];
    let launch = |line: &str| launch_of(line, Some("/home/u")).expect("a program");
    let found = located(launch("menu --top"), &dirs, |p: &str| p == "/b/menu").expect("found");
    assert_eq!(found.program, "/b/menu");
    assert_eq!(found.arguments, ["--top"]);
    assert_eq!(
        located(launch("menu"), &dirs, |_: &str| false),
        Err("menu not found in PATH".to_string())
    );
    let path = located(launch("~/bin/menu"), &dirs, |_: &str| false).expect("a path");
    assert_eq!(path.program, "/home/u/bin/menu");
}

#[test]
fn only_program_commands_run_a_program() {
    assert_eq!(
        program_of(&Command::RunProgram("foot".to_string())),
        Some(&"foot".to_string())
    );
    assert_eq!(program_of(&Command::SwitchWorkspace(1)), None);
}

fn properties(
    profile: Option<&str>,
    driver: Option<&str>,
    cpu: Option<&str>,
    platform: Option<&str>,
) -> ProfileProperties {
    ProfileProperties {
        profile: profile.map(str::to_owned),
        driver: driver.map(str::to_owned),
        cpu_driver: cpu.map(str::to_owned),
        platform_driver: platform.map(str::to_owned),
    }
}

#[test]
fn power_profiles_profile_normalization_preserves_and_falls_back_drivers() {
    let current = profile_from_properties(properties(
        Some("balanced"),
        Some("multiple"),
        Some("amd_pstate"),
        Some("placeholder"),
    ))
    .expect("profile");
    assert_eq!(current.name(), "balanced");
    assert_eq!(current.driver(), "multiple");
    assert_eq!(current.cpu_driver(), "amd_pstate");
    assert_eq!(current.platform_driver(), "placeholder");

    let split = profile_from_properties(properties(
        Some("performance"),
        None,
        Some("amd_pstate"),
        None,
    ))
    .expect("profile");
    assert_eq!(split.driver(), "amd_pstate");
    assert_eq!(split.cpu_driver(), "amd_pstate");
}

#[test]
fn mod_profile_normalization_preserves_and_falls_back_drivers() {
    let current = profile_from_properties(properties(
        Some("balanced"),
        Some("multiple"),
        Some("amd_pstate"),
        Some("placeholder"),
    ))
    .expect("profile");
    assert_eq!(current.name(), "balanced");
    assert_eq!(current.driver(), "multiple");
    assert_eq!(current.cpu_driver(), "amd_pstate");
    assert_eq!(current.platform_driver(), "placeholder");

    let split = profile_from_properties(properties(
        Some("performance"),
        None,
        Some("amd_pstate"),
        None,
    ))
    .expect("profile");
    assert_eq!(split.driver(), "amd_pstate");
    assert_eq!(split.cpu_driver(), "amd_pstate");
}

#[test]
fn power_profiles_empty_profile_name_is_dropped() {
    assert!(profile_from_properties(properties(Some(""), None, None, None)).is_none());
}

#[test]
fn mod_empty_profile_name_is_dropped() {
    assert!(profile_from_properties(properties(Some(""), None, None, None)).is_none());
    assert!(profile_from_properties(properties(None, None, None, None)).is_none());
}

/// The platform poll works from the daemon state already in hand.
#[test]
fn a_platform_poll_reports_only_a_changed_hardware_mode() {
    let platform = detect_platform("/r", |path: &str| path == MODE);
    assert!(platform.is_some());
    let daemon = PowerProfilesState::new(
        "balanced",
        vec![
            PowerProfile::new("balanced", "multiple", "amd_pstate", "placeholder"),
            PowerProfile::new("performance", "amd_pstate", "amd_pstate", "amd_pstate"),
        ],
    );
    let mut previous = Reported::new();
    let mut poll = |raw: &str| {
        let composed = compose(Some(daemon.clone()), platform, Some(raw));
        if previous.send_if_changed(&composed) {
            composed
        } else {
            None
        }
    };

    let seeded = poll("2\n").expect("seeded");
    assert_eq!(seeded.active_name(), "balanced");
    assert!(poll("2\n").is_none(), "steady hardware sends nothing");

    // Another tool switches the hardware mode behind the daemon's back.
    let changed = poll("3\n").expect("changed");
    assert_eq!(changed.active_name(), "performance");
    assert_eq!(changed.profiles(), daemon.profiles());
    assert!(poll("3\n").is_none());
}

#[test]
fn qc71_mapping_matches_slimbook_definitions() {
    assert_eq!(
        qc71_mode_for("power-saver"),
        Some(Qc71Mode {
            performance_mode: 1,
            silent_mode: 1,
            turbo_mode: 0,
        })
    );
    assert_eq!(
        qc71_mode_for("balanced"),
        Some(Qc71Mode {
            performance_mode: 2,
            silent_mode: 0,
            turbo_mode: 0,
        })
    );
    assert_eq!(
        qc71_mode_for("performance"),
        Some(Qc71Mode {
            performance_mode: 3,
            silent_mode: 0,
            turbo_mode: 1,
        })
    );
    assert_eq!(qc71_mode_for("quiet"), None);
}

#[test]
fn performance_mode_parses_and_ignores_unknown_values() {
    assert_eq!(profile_from_performance_mode("1\n"), Some("power-saver"));
    assert_eq!(profile_from_performance_mode(" 2 "), Some("balanced"));
    assert_eq!(profile_from_performance_mode("3"), Some("performance"));
    assert_eq!(profile_from_performance_mode("0"), None);
    assert_eq!(profile_from_performance_mode("balanced"), None);
}

#[test]
fn detection_is_silent_when_qc71_is_absent() {
    assert_eq!(detect_platform("/r", |_: &str| false), None);
    assert_eq!(
        PowerProfilesSettings::default()
            .with_sys_root("/r".to_string())
            .detect_platform(|_: &str| false),
        None
    );
}

#[test]
fn detection_requires_the_performance_mode_file() {
    let dir = "/r/devices/platform/qc71_laptop";
    assert_eq!(detect_platform("/r", |path: &str| path == dir), None);
    assert_eq!(
        detect_platform("/r", |path: &str| path == MODE),
        Some(PlatformKind::Qc71)
    );
    assert_eq!(mode_file("/r", PlatformKind::Qc71), MODE);
}

#[test]
fn hardware_control_false_skips_detection_even_when_sysfs_exists() {
    let settings = PowerProfilesSettings::new(false, None).with_sys_root("/r".to_string());
    assert_eq!(settings.detect_platform(|_: &str| true), None);
}

#[test]
fn read_prefers_performance_mode_and_falls_back_on_garbage() {
    assert_eq!(
        read_platform_profile(PlatformKind::Qc71, Some("3\n")),
        Some("performance")
    );
    assert_eq!(
        read_platform_profile(PlatformKind::Qc71, Some("not-a-mode")),
        None
    );
    assert_eq!(read_platform_profile(PlatformKind::Qc71, None), None);
}

fn profiles() -> Vec<PowerProfile> {
    synthetic_profiles("amd_pstate")
}

#[test]
fn overlay_without_hardware_keeps_ppd_state() {
    let ppd = PowerProfilesState::new("balanced", profiles());
    let out = overlay_snapshot(Some(ppd.clone()), None, None).unwrap();
    assert_eq!(out, ppd);
    assert_eq!(out.hardware(), None);
}

#[test]
fn overlay_prefers_readable_hardware_profile() {
    let ppd = PowerProfilesState::new("balanced", profiles());
    let out = overlay_snapshot(Some(ppd), Some("qc71"), Some("performance")).unwrap();
    assert_eq!(out.active_name(), "performance");
    assert_eq!(out.hardware(), Some("qc71"));
    assert_eq!(out.profiles().len(), 3);
}

#[test]
fn overlay_unreadable_hardware_falls_back_to_ppd_and_still_labels() {
    let ppd = PowerProfilesState::new("balanced", profiles());
    let out = overlay_snapshot(Some(ppd), Some("qc71"), None).unwrap();
    assert_eq!(out.active_name(), "balanced");
    assert_eq!(out.hardware(), Some("qc71"));
}

#[test]
fn overlay_without_ppd_synthesizes_standard_profiles() {
    let out = overlay_snapshot(None, Some("qc71"), Some("balanced")).unwrap();
    assert_eq!(out.active_name(), "balanced");
    assert_eq!(out.hardware(), Some("qc71"));
    assert_eq!(
        out.profiles()
            .iter()
            .map(PowerProfile::name)
            .collect::<Vec<_>>(),
        ["power-saver", "balanced", "performance"]
    );
}

#[test]
fn overlay_without_either_source_is_absent() {
    assert!(overlay_snapshot(None, None, None).is_none());
    assert!(overlay_snapshot(None, Some("qc71"), None).is_none());
}

#[test]
fn overlay_injects_a_missing_hardware_profile_into_the_ppd_list() {
    let ppd = PowerProfilesState::new(
        "balanced",
        vec![PowerProfile::new("balanced", "ppd", "ppd", "ppd")],
    );
    let out = overlay_snapshot(Some(ppd), Some("qc71"), Some("power-saver")).unwrap();
    assert_eq!(out.active_name(), "power-saver");
    assert!(out.profiles().iter().any(|p| p.name() == "power-saver"));
}

#[test]
fn configured_helper_must_exist_and_be_executable() {
    let dirs = Vec::new();
    let helper = "/d/tablero-qc71-set-mode";
    assert_eq!(
        resolve_hardware_helper(
            Some(helper),
            PlatformKind::Qc71,
            None,
            &dirs,
            |_: &str| true,
            |_: &str| false,
        ),
        None
    );
    assert_eq!(
        resolve_hardware_helper(
            Some(helper),
            PlatformKind::Qc71,
            None,
            &dirs,
            |_: &str| true,
            |path: &str| path == helper,
        )
        .as_deref(),
        Some(helper)
    );
    assert_eq!(
        resolve_hardware_helper(
            Some("/no/such/qc71-helper"),
            PlatformKind::Qc71,
            None,
            &dirs,
            |_: &str| true,
            |path: &str| path == helper,
        ),
        None
    );
}

#[test]
fn without_a_configured_helper_the_default_names_are_looked_up() {
    let dirs = vec!["/usr/bin".to_string()];
    assert_eq!(
        resolve_hardware_helper(
            None,
            PlatformKind::Qc71,
            None,
            &dirs,
            |path: &str| path == "/usr/bin/qc71-set-mode",
            |_: &str| true,
        )
        .as_deref(),
        Some("/usr/bin/qc71-set-mode")
    );
}

#[test]
fn a_failed_helper_reports_why() {
    assert_eq!(helper_outcome("/h", true, Some(0), "", ""), Ok(()));
    let error = helper_outcome("/h", false, Some(2), "exit status: 2", " denied \n").unwrap_err();
    assert!(error.contains("denied"), "{error}");
    assert!(maps_profile(PlatformKind::Qc71, "balanced"));
    assert!(!maps_profile(PlatformKind::Qc71, "quiet"));
}

#[test]
fn a_profile_change_goes_to_the_daemon_and_the_helper() {
    assert_eq!(
        plan_profile("performance", None, None, false),
        None,
        "neither daemon nor platform"
    );
    assert_eq!(
        plan_profile("performance", Some(Endpoint::Current), None, false),
        Some(SetPlan {
            daemon: Some(Endpoint::Current),
            helper: false,
            notify: false,
        })
    );
    let both = plan_profile(
        "performance",
        Some(Endpoint::Legacy),
        Some(PlatformKind::Qc71),
        true,
    )
    .expect("a plan");
    assert_eq!(both.daemon, Some(Endpoint::Legacy));
    assert!(both.helper);
    assert_eq!(
        requested_profile(&Command::SetPowerProfile("balanced".to_string())),
        Some(&"balanced".to_string())
    );
    assert_eq!(requested_profile(&Command::SwitchWorkspace(1)), None);
}

#[test]
fn a_follower_reads_anew_on_changes_and_waits_where_there_is_no_daemon() {
    assert_eq!(after_wake(Wake::Changed), FollowStep::Reseed);
    assert_eq!(after_wake(Wake::Closed), FollowStep::Stop);
    assert_eq!(after_wake(Wake::Platform), FollowStep::Recompose);
    assert_eq!(absent_delay(None), RETRY_DELAY);
    assert_eq!(absent_delay(Some(PlatformKind::Qc71)), PLATFORM_POLL);
    assert_eq!(Endpoint::Legacy.service(), "net.hadess.PowerProfiles");
}

#[test]
fn hardware_control_is_on_unless_switched_off() {
    let producer =
        PowerProfilesProducer::new().with_settings(power_profiles_settings(None, None));
    assert!(producer.settings().hardware_control());
    assert_eq!(producer.settings().sys_root(), "/sys");
    let off = power_profiles_settings(Some(false), Some("~/helper".to_string()));
    assert!(!off.hardware_control());
    assert_eq!(off.hardware_helper(), Some("~/helper"));
}
