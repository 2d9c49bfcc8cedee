use tablero::config::{Config, MonitorConfig, WidgetKind};
use tablero::fixed::Fixed;
use tablero::input::{Hover, PointerAction, PointerInput};
use tablero::message::{
    command_kind, message_kind, snapshot_key, ActiveWindow, Msg, ProducerSnapshot, Workspaces,
};
use tablero::outputs::Outputs;
use tablero::pointer::{scroll_directions, set_tray_command_position, AxisScroll, STEP};
use tablero::popup::{
    dim_color, divide_up, flatten_menu, menu_height, menu_width, popup_background, row_at,
    tooltip_place, tooltip_plan, tooltip_size, MenuRow, PaintOp, PopupPlace, MENU_MAX_WIDTH,
    MENU_MIN_WIDTH, MENU_ROW_HEIGHT, MENU_SEPARATOR_HEIGHT,
};
use tablero::redraw::FRAME_CALLBACK_TIMEOUT;
use tablero::render::Bounds;
use tablero::scale::Scale;
use tablero::shell::{
    click_button, menu_rows, open_menu, BarClick, Cursor, Owner, Shell, TooltipStep, TrayMenuStep,
    WakeStep, BTN_LEFT, BTN_RIGHT,
};
use tablero::sources::{required_sources, Source};
use tablero::surface::{damage_label, damage_rect, Damage, Slot, Surface};
use tablero::time::Moment;
use tablero::tray::{TrayMenu, TrayMenuItem};
use tablero::widget::{ClickButton, Command, DeviceKind, ScrollDirection, Volume};

fn at(nanos: u64) -> Moment {
    Moment { nanos }
}

fn px(pixels: f64) -> Fixed {
    Fixed {
        raw: (pixels * 256.0) as i32,
    }
}

/// A bar that remembers only its height.
#[derive(Debug, PartialEq)]
struct FakeSurface {
    height: u32,
}

fn build_from(config: Config) -> FakeSurface {
    FakeSurface {
        height: config.height,
    }
}

/// A base config with one monitor override, to exercise resolution.
fn base() -> Config {
    Config {
        height: 30,
        monitors: vec![MonitorConfig {
            name: "DP-1".to_string(),
            height: Some(48),
            ..MonitorConfig::default()
        }],
        ..Config::default()
    }
}

#[test]
fn ensure_builds_a_surface_for_a_new_output() {
    let mut outputs: Outputs<FakeSurface> = Outputs::new(base());
    assert!(outputs.ensure(1, Some("DP-1"), build_from));
    assert_eq!(outputs.len(), 1);
    assert!(outputs.contains(1));
}

#[test]
fn set_base_updates_resolution_for_new_outputs() {
    let mut outputs: Outputs<FakeSurface> = Outputs::new(base());
    assert_eq!(outputs.config_for(Some("HDMI-A-1")).height, 30);
    let mut taller = base();
    taller.height = 40;
    outputs.set_base(taller);
    assert_eq!(outputs.base().height, 40);
    assert_eq!(outputs.config_for(Some("HDMI-A-1")).height, 40);
    // Monitor override still wins for DP-1.
    assert_eq!(outputs.config_for(Some("DP-1")).height, 48);
}

#[test]
fn ensure_resolves_the_named_monitors_config() {
    let mut outputs = Outputs::new(base());
    outputs.ensure(1, Some("DP-1"), build_from);
    // DP-1 overrides height to 48.
    assert_eq!(outputs.get(1), Some(&FakeSurface { height: 48 }));
}

#[test]
fn an_unmatched_output_falls_back_to_global_defaults() {
    let mut outputs = Outputs::new(base());
    outputs.ensure(2, Some("HDMI-A-1"), build_from);
    // No [[monitor]] for HDMI-A-1: the base height stands.
    assert_eq!(outputs.get(2), Some(&FakeSurface { height: 30 }));
}

#[test]
fn an_unnamed_output_falls_back_to_global_defaults() {
    let mut outputs = Outputs::new(base());
    outputs.ensure(3, None, build_from);
    assert_eq!(outputs.get(3), Some(&FakeSurface { height: 30 }));
}

#[test]
fn ensure_is_idempotent_for_an_existing_output() {
    let mut outputs = Outputs::new(base());
    assert!(outputs.ensure(1, Some("DP-1"), build_from));
    // A second sighting must not rebuild or replace the live surface.
    let rebuilt = outputs.ensure(1, Some("DP-1"), |_: Config| {
        panic!("build must not be called for an output already tracked")
    });
    assert!(!rebuilt);
    assert_eq!(outputs.len(), 1);
}

#[test]
fn remove_returns_the_surface_and_clears_the_entry() {
    let mut outputs = Outputs::new(base());
    outputs.ensure(1, Some("DP-1"), build_from);
    let removed = outputs.remove(1);
    assert_eq!(removed, Some(FakeSurface { height: 48 }));
    assert!(!outputs.contains(1));
    assert!(outputs.is_empty());
}

#[test]
fn removing_an_unknown_output_is_a_harmless_no_op() {
    let mut outputs: Outputs<FakeSurface> = Outputs::new(base());
    assert_eq!(outputs.remove(99), None);
    // A duplicate destroy after a real one is equally harmless.
    outputs.ensure(1, Some("DP-1"), build_from);
    assert!(outputs.remove(1).is_some());
    assert_eq!(outputs.remove(1), None);
    assert!(outputs.is_empty());
}

#[test]
fn outputs_are_tracked_independently() {
    let mut outputs = Outputs::new(base());
    outputs.ensure(1, Some("DP-1"), build_from);
    outputs.ensure(2, Some("HDMI-A-1"), build_from);
    assert_eq!(outputs.len(), 2);
    // Removing one leaves the other untouched: no stale or cross-cleared state.
    outputs.remove(1);
    assert!(!outputs.contains(1));
    assert_eq!(outputs.get(2), Some(&FakeSurface { height: 30 }));
    assert_eq!(outputs.len(), 1);
}

#[test]
fn values_mut_visits_every_tracked_surface() {
    let mut outputs = Outputs::new(base());
    outputs.ensure(1, Some("DP-1"), build_from);
    outputs.ensure(2, Some("HDMI-A-1"), build_from);
    for id in outputs.ids() {
        outputs.get_mut(id).expect("tracked").height += 1;
    }
    assert_eq!(outputs.get(1).map(|s| s.height), Some(49));
    assert_eq!(outputs.get(2).map(|s| s.height), Some(31));
}

#[test]
fn wheel_steps_map_up_to_increase_and_down_to_decrease() {
    let mut remainder = 0;
    let wheel = |value120: i32| AxisScroll {
        value120,
        discrete: 0,
        absolute: 0,
    };
    assert_eq!(
        scroll_directions(wheel(-120), &mut remainder),
        vec![ScrollDirection::Increase]
    );
    assert_eq!(
        scroll_directions(wheel(120), &mut remainder),
        vec![ScrollDirection::Decrease]
    );
}

#[test]
fn smooth_motion_accumulates_before_emitting_a_step() {
    let mut remainder = 0;
    let half = AxisScroll {
        value120: 0,
        discrete: 0,
        absolute: px(-5.0).raw,
    };
    assert!(scroll_directions(half, &mut remainder).is_empty());
    assert_eq!(
        scroll_directions(half, &mut remainder),
        vec![ScrollDirection::Increase]
    );
    assert_eq!(remainder, 0);
}

#[test]
fn discrete_steps_count_whole_and_fractions_stay() {
    let mut remainder = 0;
    let steps = AxisScroll {
        value120: 0,
        discrete: 2,
        absolute: 999,
    };
    assert_eq!(
        scroll_directions(steps, &mut remainder),
        vec![ScrollDirection::Decrease, ScrollDirection::Decrease]
    );
    let fine = AxisScroll {
        value120: 130,
        discrete: 1,
        absolute: 0,
    };
    assert_eq!(
        scroll_directions(fine, &mut remainder),
        vec![ScrollDirection::Decrease]
    );
    assert_eq!(remainder, STEP / 12);
}

#[test]
fn tray_coordinates_include_the_output_logical_origin() {
    let mut command = Command::OpenTrayMenu {
        key: ":1.7/Menu".to_string(),
        x: 0,
        y: 0,
    };
    set_tray_command_position(&mut command, (1920, -40), (px(24.8), px(18.9)));
    assert_eq!(
        command,
        Command::OpenTrayMenu {
            key: ":1.7/Menu".to_string(),
            x: 1944,
            y: -22,
        }
    );
    let mut other = Command::SwitchWorkspace(3);
    set_tray_command_position(&mut other, (1920, -40), (px(24.8), px(18.9)));
    assert_eq!(other, Command::SwitchWorkspace(3));
}

fn entry(id: i32, label: &str, children: Vec<TrayMenuItem>) -> TrayMenuItem {
    TrayMenuItem {
        id,
        label: label.to_string(),
        enabled: true,
        visible: true,
        separator: false,
        toggle: None,
        children,
    }
}

fn separator(id: i32) -> TrayMenuItem {
    TrayMenuItem {
        separator: true,
        ..entry(id, "", vec![])
    }
}

fn rows_of(items: &Vec<TrayMenuItem>) -> Vec<MenuRow> {
    let mut rows = Vec::new();
    flatten_menu(items, 0, &mut rows);
    rows
}

#[test]
fn tray_menu_flattens_visible_nested_entries_and_preserves_depth() {
    let leaf = entry(2, "Child", vec![]);
    let parent = entry(1, "Parent", vec![leaf]);
    let hidden = TrayMenuItem {
        visible: false,
        ..entry(3, "Hidden", vec![])
    };
    let rows = rows_of(&vec![parent, hidden]);

    assert_eq!(rows.len(), 2);
    assert_eq!((rows[0].id, rows[0].depth), (1, 0));
    assert!(rows[0].has_children);
    assert!(!rows[0].activatable());
    assert_eq!((rows[1].id, rows[1].depth), (2, 1));
    assert!(rows[1].activatable());
}

#[test]
fn rows_stand_below_each_other() {
    let rows = rows_of(&vec![
        entry(1, "A", vec![]),
        separator(2),
        entry(3, "B", vec![]),
    ]);
    assert_eq!(
        menu_height(&rows),
        2 * MENU_ROW_HEIGHT + MENU_SEPARATOR_HEIGHT
    );
    assert_eq!(row_at(&rows, px(0.0)), Some(0));
    assert_eq!(row_at(&rows, px(27.9)), Some(0));
    assert_eq!(row_at(&rows, px(28.0)), Some(1));
    assert_eq!(row_at(&rows, px(36.0)), Some(2));
    assert_eq!(row_at(&rows, px(64.0)), None);
    assert_eq!(row_at(&rows, px(-0.5)), None);
    assert!(!rows[1].activatable());
}

#[test]
fn a_menu_is_as_wide_as_its_widest_row_allows() {
    let rows = rows_of(&vec![entry(1, "A", vec![])]);
    assert_eq!(
        menu_width(&rows, &vec![1], Scale::one()),
        MENU_MIN_WIDTH
    );
    assert_eq!(
        menu_width(&rows, &vec![9000], Scale::one()),
        MENU_MAX_WIDTH
    );
    let wide = menu_width(&rows, &vec![400], Scale::new(2));
    assert!(wide > MENU_MIN_WIDTH && wide < MENU_MAX_WIDTH);
}

#[test]
fn transparent_bar_background_uses_an_opaque_popup_surface() {
    assert_eq!(
        popup_background((0x18, 0x18, 0x18, 0x00)),
        (0x20, 0x22, 0x27, 0xF8)
    );
    assert_eq!(
        popup_background((0x30, 0x32, 0x38, 0xD0)),
        (0x30, 0x32, 0x38, 0xF0)
    );
}

#[test]
fn disabled_entries_are_dimmed() {
    assert_eq!(dim_color((0xFF, 0x80, 0, 0xF0)), (0x7F, 0x40, 0, 0xF0));
}

#[test]
fn full_damage_covers_the_whole_buffer() {
    assert_eq!(damage_rect(Damage::Full, 3840, 76), (0, 0, 3840, 76));
}

#[test]
fn region_damage_is_passed_through_in_buffer_pixels() {
    let region = Damage::Region(Bounds::new(3600, 8, 200, 60));
    assert_eq!(damage_rect(region, 3840, 76), (3600, 8, 200, 60));
}

#[test]
fn region_damage_is_clipped_to_the_buffer() {
    let region = Damage::Region(Bounds::new(3800, 70, 200, 60));
    assert_eq!(damage_rect(region, 3840, 76), (3800, 70, 40, 6));
}

#[test]
fn an_empty_or_offscreen_region_falls_back_to_full_damage() {
    for region in [Bounds::new(10, 10, 0, 20), Bounds::new(5000, 0, 10, 10)] {
        assert_eq!(
            damage_rect(Damage::Region(region), 3840, 76),
            (0, 0, 3840, 76)
        );
    }
}

#[test]
fn damage_is_labelled_by_its_size() {
    assert_eq!(damage_label(Damage::Full), "full");
    assert_eq!(
        damage_label(Damage::Region(Bounds::new(1, 2, 30, 40))),
        "30x40"
    );
}

#[test]
fn a_tooltip_covers_its_lines_and_hangs_from_its_slot() {
    assert_eq!(tooltip_size(&vec![100, 140], 20, 2), (140 + 40, 40 + 20));
    assert_eq!(tooltip_size(&vec![], 20, 1), (20, 30));
    assert_eq!(
        tooltip_place((181, 60), Bounds::new(9, 0, 31, 0), Scale::new(2)),
        PopupPlace {
            width: 91,
            height: 30,
            anchor: Bounds::new(4, 0, 16, 1),
        }
    );
    assert_eq!(divide_up(5, Scale::new(2)), 3);
    let plan = tooltip_plan(
        "one\ntwo",
        (180, 60),
        20,
        2,
        (1, 2, 3, 255),
        (9, 9, 9, 255),
    );
    assert_eq!(plan.len(), 3);
    assert_eq!(
        plan[0],
        PaintOp::Panel {
            bounds: Bounds::new(0, 0, 180, 60),
            color: (1, 2, 3, 255)
        }
    );
    assert_eq!(
        plan[2],
        PaintOp::Text {
            text: "two".to_string(),
            bounds: Bounds::new(20, 30, 140, 20),
            color: (9, 9, 9, 255)
        }
    );
}

fn window(monitor: &str, title: &str) -> Msg {
    Msg::ActiveWindow {
        monitor: monitor.to_string(),
        window: Some(ActiveWindow {
            app: "app".to_string(),
            title: title.to_string(),
        }),
    }
}

#[test]
fn the_snapshot_keeps_the_latest_of_each_subject() {
    let mut snapshot = ProducerSnapshot::default();
    snapshot.note(Msg::Workspaces(Workspaces::new(&[1], 1)));
    snapshot.note(Msg::Workspaces(Workspaces::with_monitors(
        vec![
            (3, Some("DP-1".to_string())),
            (7, Some("HDMI-A-1".to_string())),
        ],
        vec![("DP-1".to_string(), 3), ("HDMI-A-1".to_string(), 7)],
        3,
    )));
    for monitor in ["DP-1", "HDMI-A-1"] {
        snapshot.note(window(monitor, "superseded title"));
        snapshot.note(window(monitor, monitor));
    }
    snapshot.note(Msg::Volume(Some(Volume::new(
        12,
        true,
        DeviceKind::Speakers,
    ))));
    snapshot.note(Msg::Volume(Some(Volume::new(
        73,
        false,
        DeviceKind::Headphones,
    ))));
    snapshot.note(Msg::Tick(1));
    snapshot.note(Msg::TrayMenuUnavailable("stale".to_string()));
    let kept = snapshot.as_slice();
    assert_eq!(kept.len(), 4);
    assert!(kept.contains(&window("DP-1", "DP-1")));
    assert!(kept.contains(&window("HDMI-A-1", "HDMI-A-1")));
    assert!(kept.contains(&Msg::Volume(Some(Volume::new(
        73,
        false,
        DeviceKind::Headphones
    )))));
    match kept {
        [Msg::Workspaces(workspaces), ..] => {
            assert_eq!(workspaces.active(), 3);
            assert_eq!(workspaces.active_for("HDMI-A-1"), Some(7));
            assert_eq!(workspaces.active_for("DP-9"), None);
        }
        _ => panic!("the workspaces come first"),
    }
}

#[test]
fn messages_and_commands_are_named_in_logs() {
    assert_eq!(message_kind(&Msg::Hypridle(true)), "hypridle");
    assert_eq!(snapshot_key(&window("DP-1", "x")), "aw:DP-1");
    assert_eq!(snapshot_key(&Msg::Updates(None)), "updates");
    assert_eq!(
        command_kind(&Command::SwitchWorkspace(1)),
        "switch-workspace"
    );
}

#[test]
fn coordinates_fall_into_pixels() {
    assert_eq!(px(1.5).physical(Scale::new(2)), Some(3));
    assert_eq!(px(1.5).logical(), Some(1));
    assert_eq!(px(-0.5).logical(), None);
    assert_eq!(px(-1.5).whole(), -1);
}

#[test]
fn a_bar_paints_once_it_is_configured_and_its_buffers_take_turns() {
    let mut bar = Surface::new(1, Some("DP-1"), base());
    assert_eq!(bar.take_frame(at(0)), None);
    assert!(bar.configure(100, 0));
    assert!(!bar.configure(100, 0));
    assert_eq!(bar.size(), (100, 30));
    assert_eq!(bar.take_frame(at(0)), Some("configure"));
    let first = bar.begin_frame();
    assert_eq!((first.width, first.height, first.stride), (100, 30, 400));
    assert_eq!(first.slot, Slot::First);
    assert!(first.invalidated && !first.allocated);
    bar.buffer_made(first.slot);
    assert!(bar.committed(at(0)));
    bar.noted(true, "tick");
    assert_eq!(bar.take_frame(at(1)), None, "the frame is not shown yet");
    assert_eq!(bar.wake_deadline(), Some(at(FRAME_CALLBACK_TIMEOUT)));
    bar.frame_done();
    assert_eq!(bar.take_frame(at(2)), Some("tick"));
    let second = bar.begin_frame();
    assert_eq!(second.slot, Slot::Second);
    assert!(!second.invalidated && !second.allocated);
    bar.buffer_made(second.slot);
    assert!(!bar.committed(at(2)));
    let third = bar.begin_frame();
    assert_eq!(third.slot, Slot::First);
    assert!(third.allocated);
    // Another scale makes new buffers.
    assert!(bar.set_scale(Scale::new(2)));
    assert!(!bar.set_scale(Scale::new(2)));
    let fourth = bar.begin_frame();
    assert_eq!((fourth.width, fourth.height), (200, 60));
    assert!(fourth.invalidated && !fourth.allocated);
    assert_eq!(bar.pixel_at(px(1.5), px(2.0)), Some((3, 4)));
    assert_eq!(bar.pixel_at(px(-1.5), px(2.0)), None);
}

fn shell() -> Shell {
    let mut shell = Shell::new(base());
    assert!(shell.add_output(1, Some("DP-1")));
    assert!(shell.add_output(2, None));
    assert!(!shell.add_output(2, None));
    shell
}

fn click(command: Command) -> BarClick {
    BarClick {
        command: Some(command),
        origin: (1920, 0),
        local: (px(24.8), px(10.0)),
        serial: 7,
        background: (1, 2, 3, 0),
        foreground: (4, 5, 6, 255),
        accent: (7, 8, 9, 255),
        started: Some(at(5)),
    }
}

fn menu(revision: u32, items: Vec<TrayMenuItem>) -> TrayMenu {
    TrayMenu {
        key: ":1.7".to_string(),
        revision,
        items,
    }
}

fn ask() -> Command {
    Command::OpenTrayMenu {
        key: ":1.7".to_string(),
        x: 0,
        y: 0,
    }
}

/// A shell that shows a menu of one entry.
fn with_menu() -> Shell {
    let mut shell = shell();
    shell.on_bar_click(1, click(ask()));
    match shell.on_tray_menu(&menu(3, vec![entry(1, "A", vec![])])) {
        TrayMenuStep::Open { pending, rows } => {
            let widths = vec![50; rows.len()];
            shell.menu_shown(open_menu(&pending, 3, rows, &widths));
        }
        _ => panic!("the menu was asked for"),
    }
    shell
}

#[test]
fn a_menu_that_was_asked_for_is_shown_and_answers_clicks() {
    let mut shell = with_menu();
    let shown = shell.menu().expect("shown");
    assert_eq!(shown.output, 1);
    assert_eq!((shown.width, shown.height), (MENU_MIN_WIDTH, MENU_ROW_HEIGHT));
    assert_eq!(shown.background, (0x20, 0x22, 0x27, 0xF8));
    assert_eq!(shown.plan().len(), 2);
    assert_eq!(shell.menu_cursor(px(3.0)), Cursor::Hand);
    assert_eq!(shell.menu_cursor(px(300.0)), Cursor::Arrow);
    assert_eq!(shell.on_menu_click(ClickButton::Right, px(3.0)), None);
    assert_eq!(
        shell.on_menu_click(ClickButton::Left, px(3.0)),
        Some(Command::ActivateTrayMenuItem {
            key: ":1.7".to_string(),
            id: 1
        })
    );
    assert!(shell.menu().is_none());
}

#[test]
fn news_of_the_shown_menu_repaints_or_closes_it() {
    let mut shell = with_menu();
    assert_eq!(
        shell.on_tray_menu(&menu(2, vec![])),
        TrayMenuStep::Ignore,
        "an older revision"
    );
    assert_eq!(
        shell.on_tray_menu(&menu(4, vec![entry(9, "B", vec![])])),
        TrayMenuStep::Repaint
    );
    assert_eq!(shell.menu().expect("shown").rows[0].id, 9);
    assert_eq!(
        shell.on_tray_menu(&menu(5, vec![entry(9, "B", vec![]), separator(1)])),
        TrayMenuStep::Close
    );
    assert!(shell.menu().is_none());
    assert_eq!(
        shell.on_tray_menu(&menu(6, vec![entry(9, "B", vec![])])),
        TrayMenuStep::Ignore,
        "nothing was asked for"
    );
}

#[test]
fn a_menu_that_cannot_be_had_is_no_longer_awaited() {
    let mut shell = shell();
    shell.on_bar_click(1, click(ask()));
    shell.on_menu_unavailable(":1.9");
    shell.on_menu_unavailable(":1.7");
    assert_eq!(
        shell.on_tray_menu(&menu(1, vec![entry(1, "A", vec![])])),
        TrayMenuStep::Ignore
    );
}

#[test]
fn a_click_on_a_tray_item_says_where_on_the_screen() {
    let mut shell = shell();
    assert_eq!(
        shell.on_bar_click(1, click(ask())),
        Some(Command::OpenTrayMenu {
            key: ":1.7".to_string(),
            x: 1944,
            y: 10
        })
    );
    assert_eq!(shell.on_bar_click(9, click(ask())), None, "no such bar");
    assert_eq!(click_button(BTN_LEFT), Some(ClickButton::Left));
    assert_eq!(click_button(BTN_RIGHT), Some(ClickButton::Right));
    assert_eq!(click_button(0x112), None);
    assert_eq!(menu_rows(&menu(1, vec![separator(1)])).len(), 1);
}

#[test]
fn the_frame_that_shows_a_workspace_answers_its_click() {
    let mut shell = shell();
    shell.on_bar_click(1, click(Command::SwitchWorkspace(4)));
    let elsewhere = Workspaces::with_monitors(
        vec![(4, None)],
        vec![("HDMI-A-1".to_string(), 4), ("DP-1".to_string(), 2)],
        4,
    );
    shell.handle_all(Msg::Workspaces(elsewhere), &vec![1]);
    assert!(shell.frames_committed().is_none());
    let arrived = || Workspaces::with_monitors(vec![], vec![("DP-1".to_string(), 4)], 4);
    shell.handle_all(Msg::Workspaces(arrived()), &vec![]);
    assert!(shell.frames_committed().is_none(), "nothing is painted");
    shell.handle_all(Msg::Workspaces(arrived()), &vec![1]);
    let answered = shell.frames_committed().expect("the click is answered");
    assert_eq!((answered.target, answered.started), (4, at(5)));
    assert!(shell.frames_committed().is_none());
    assert_eq!(shell.seed().len(), 1);
}

#[test]
fn a_tooltip_is_shown_once_and_hidden_off_its_widget() {
    let mut shell = shell();
    assert_eq!(
        shell.update_tooltip(1, Some("charging")),
        TooltipStep::Show(Scale::one())
    );
    shell.tooltip_shown(1, "charging".to_string(), Scale::one());
    assert_eq!(
        shell.update_tooltip(1, Some("charging")),
        TooltipStep::Keep
    );
    assert_eq!(shell.update_tooltip(7, Some("charging")), TooltipStep::Hide);
    assert!(shell.tooltip().is_none());
    shell.tooltip_shown(1, "charging".to_string(), Scale::one());
    assert_eq!(shell.update_tooltip(1, None), TooltipStep::Hide);
    assert!(shell.tooltip().is_none());
}

#[test]
fn a_menu_goes_with_its_bar() {
    let mut shell = with_menu();
    assert!(shell.remove_output(2));
    assert!(shell.menu().is_some());
    assert!(shell.remove_output(1));
    assert!(!shell.remove_output(1));
    assert!(shell.menu().is_none());
    assert!(shell.output_ids().is_empty());
}

#[test]
fn news_of_the_power_profiles_hides_the_tooltip() {
    let mut shell = shell();
    shell.tooltip_shown(1, "balanced".to_string(), Scale::one());
    shell.handle_all(Msg::Updates(Some(3)), &vec![1]);
    assert!(shell.tooltip().is_some());
    shell.handle_all(Msg::PowerProfiles(None), &vec![1]);
    assert!(shell.tooltip().is_none());
}

#[test]
fn another_scale_closes_the_popups_painted_at_the_old_one() {
    let mut shell = with_menu();
    shell.tooltip_shown(2, "x".to_string(), Scale::one());
    shell.on_scale(Owner::Bar(1), 2);
    assert!(shell.menu().is_none());
    assert!(shell.tooltip().is_some(), "it hangs from another bar");
    assert_eq!(shell.bar(1).expect("a bar").scale(), Scale::new(2));
    shell.on_scale(Owner::Tooltip, 2);
    assert!(shell.tooltip().is_none());
}

#[test]
fn the_pointer_changes_its_shape_when_it_has_to() {
    let mut shell = shell();
    assert!(shell.wants_cursor(Cursor::Hand, false));
    shell.cursor_set(Cursor::Hand);
    assert!(!shell.wants_cursor(Cursor::Hand, false));
    assert!(shell.wants_cursor(Cursor::Hand, true), "it just entered");
    shell.tooltip_shown(1, "x".to_string(), Scale::one());
    shell.on_leave(Owner::Bar(1));
    assert!(shell.tooltip().is_none());
    assert_eq!(
        shell.on_axis(AxisScroll {
            value120: 0,
            discrete: 1,
            absolute: 0
        }),
        vec![ScrollDirection::Decrease]
    );
}

fn over(entered: bool, y: f64, tooltip: Option<&str>, clickable: bool) -> PointerInput {
    PointerInput::Over {
        entered,
        y: px(y),
        hover: Hover {
            tooltip: tooltip.map(str::to_string),
            clickable,
        },
    }
}

fn press(code: u32, command: Option<Command>, y: f64) -> PointerInput {
    PointerInput::Pressed {
        code,
        click: BarClick {
            command,
            local: (px(24.8), px(y)),
            ..click(ask())
        },
    }
}

#[test]
fn the_pointer_over_a_bar_sees_to_the_tooltip_and_the_shape() {
    let mut shell = shell();
    assert_eq!(
        shell.on_pointer(Owner::Bar(1), over(true, 3.0, Some("charging"), true)),
        PointerAction::Point {
            tooltip: TooltipStep::Show(Scale::one()),
            cursor: Some(Cursor::Hand)
        }
    );
    shell.tooltip_shown(1, "charging".to_string(), Scale::one());
    shell.cursor_set(Cursor::Hand);
    assert_eq!(
        shell.on_pointer(Owner::Bar(1), over(false, 3.0, Some("charging"), true)),
        PointerAction::Point {
            tooltip: TooltipStep::Keep,
            cursor: None
        }
    );
    assert_eq!(
        shell.on_pointer(Owner::Bar(1), over(false, 3.0, None, false)),
        PointerAction::Point {
            tooltip: TooltipStep::Hide,
            cursor: Some(Cursor::Arrow)
        }
    );
    assert_eq!(
        shell.on_pointer(Owner::Unknown, over(true, 3.0, None, false)),
        PointerAction::Stray
    );
    assert_eq!(
        shell.on_pointer(Owner::Unknown, over(false, 3.0, None, false)),
        PointerAction::Ignore
    );
}

#[test]
fn the_pointer_over_a_menu_points_at_rows_that_answer() {
    let mut shell = with_menu();
    assert_eq!(
        shell.on_pointer(Owner::Menu, over(false, 3.0, None, false)),
        PointerAction::Point {
            tooltip: TooltipStep::Keep,
            cursor: Some(Cursor::Hand)
        }
    );
    assert_eq!(
        shell.on_pointer(Owner::Menu, over(false, 300.0, None, true)),
        PointerAction::Point {
            tooltip: TooltipStep::Keep,
            cursor: None
        }
    );
    assert_eq!(
        shell.on_pointer(Owner::Menu, press(BTN_RIGHT, None, 3.0)),
        PointerAction::Ignore
    );
    assert!(shell.menu().is_some());
    assert_eq!(
        shell.on_pointer(Owner::Menu, press(BTN_LEFT, Some(ask()), 3.0)),
        PointerAction::Activate(Command::ActivateTrayMenuItem {
            key: ":1.7".to_string(),
            id: 1
        })
    );
    assert!(shell.menu().is_none());
}

#[test]
fn presses_and_scrolling_go_to_the_bar_under_the_pointer() {
    let mut shell = shell();
    assert_eq!(
        shell.on_pointer(Owner::Bar(1), press(BTN_LEFT, Some(ask()), 10.0)),
        PointerAction::Run {
            output: 1,
            command: Command::OpenTrayMenu {
                key: ":1.7".to_string(),
                x: 1944,
                y: 10
            }
        }
    );
    for (owner, input) in [
        (Owner::Bar(1), press(0x112, Some(ask()), 10.0)),
        (Owner::Bar(1), press(BTN_LEFT, None, 10.0)),
        (Owner::Bar(9), press(BTN_LEFT, Some(ask()), 10.0)),
        (Owner::Tooltip, press(BTN_LEFT, Some(ask()), 10.0)),
    ] {
        assert_eq!(shell.on_pointer(owner, input), PointerAction::Ignore);
    }
    let half = || {
        PointerInput::Scrolled(AxisScroll {
            value120: 60,
            discrete: 0,
            absolute: 0,
        })
    };
    // Half a step off the bars counts towards the next step.
    assert_eq!(
        shell.on_pointer(Owner::Unknown, half()),
        PointerAction::Ignore
    );
    assert_eq!(
        shell.on_pointer(Owner::Bar(2), half()),
        PointerAction::Scroll {
            output: 2,
            directions: vec![ScrollDirection::Decrease]
        }
    );
    shell.tooltip_shown(1, "x".to_string(), Scale::one());
    assert_eq!(
        shell.on_pointer(Owner::Bar(1), PointerInput::Left),
        PointerAction::Ignore
    );
    assert!(shell.tooltip().is_none());
}

#[test]
fn a_new_configuration_reaches_every_bar() {
    let mut shell = with_menu();
    let config = Config {
        height: 40,
        ..base()
    };
    let names = vec![(1, Some("DP-1".to_string())), (2, None)];
    assert_eq!(shell.reload_config(config, &names), vec![2]);
    assert_eq!(shell.base().height, 40);
    assert_eq!(shell.bar(1).expect("a bar").size().1, 48);
    assert_eq!(shell.bar(2).expect("a bar").size().1, 40);
    assert!(shell.menu().is_none());
}

/// The kinds of the widgets in the left zone of a bar.
fn left_kinds(shell: &Shell, id: u32) -> Vec<WidgetKind> {
    let board = shell.bar(id).expect("a bar").dashboard();
    board.left.iter().map(|widget| widget.kind).collect()
}

#[test]
fn bars_have_the_widgets_of_their_configuration() {
    let mut shell = shell();
    assert_eq!(left_kinds(&shell, 1), [WidgetKind::Workspaces]);
    shell.on_scale(Owner::Bar(1), 2);
    assert_eq!(left_kinds(&shell, 1), [WidgetKind::Workspaces]);
    let mut config = base();
    config.bar.modules_left = vec![WidgetKind::Clock, WidgetKind::Battery];
    config.bar.gap = 5;
    let names = vec![(1, Some("DP-1".to_string())), (2, None)];
    shell.reload_config(config, &names);
    for id in [1, 2] {
        assert_eq!(
            left_kinds(&shell, id),
            [WidgetKind::Clock, WidgetKind::Battery]
        );
        assert_eq!(shell.bar(id).expect("a bar").dashboard().gap, 5);
    }
    assert!(shell.add_output(3, None));
    assert_eq!(left_kinds(&shell, 3).len(), 2);
}

#[test]
fn everything_ends_with_the_last_bar() {
    let mut shell = shell();
    shell.on_closed(Owner::Bar(1));
    assert!(!shell.exits());
    shell.on_closed(Owner::Bar(2));
    assert!(shell.exits());
}

#[test]
fn the_timer_is_set_to_the_first_bar_that_waits() {
    let mut shell = shell();
    assert_eq!(shell.arm_redraw_wake(), WakeStep::Keep);
    for (id, now) in [(1, 100), (2, 50)] {
        let bar = shell.bar_mut(id).expect("a bar");
        bar.configure(100, 30);
        bar.take_frame(at(0));
        bar.committed(at(now));
        bar.noted(true, "tick");
    }
    let first = Some(at(50 + FRAME_CALLBACK_TIMEOUT));
    assert_eq!(shell.arm_redraw_wake(), WakeStep::Replace(first));
    assert_eq!(shell.arm_redraw_wake(), WakeStep::Keep);
    shell.wake_cleared();
    assert_eq!(shell.arm_redraw_wake(), WakeStep::Replace(first));
}

#[test]
fn sources_follow_the_widgets_that_are_shown() {
    assert_eq!(
        required_sources(&Config::default()),
        vec![
            Source::Hyprland,
            Source::Battery,
            Source::System,
            Source::Network,
            Source::PowerProfiles
        ]
    );
    let mut config = Config::default();
    config.bar.modules_right = vec![WidgetKind::Tray];
    assert_eq!(
        required_sources(&config),
        vec![Source::Hyprland, Source::Tray]
    );
}
