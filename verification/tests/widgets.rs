use tablero::config::style::FormatIconsConfig;
use tablero::config::WidgetKind;
use tablero::face::{face, Glyph, Piece, DEFAULT_SCROLL_STEP};
use tablero::icon::BuiltinIcon;
use tablero::message::{ActiveWindow, Bluetooth, Msg, SystemStats, Workspaces};
use tablero::number::Double;
use tablero::render::Bounds;
use tablero::row::{
    changed_region, is_affected, piece_width, place_zone, same_look, scaled, slot_at, zone_pieces,
    Slot, Zone,
};
use tablero::surface::Damage;
use tablero::time::{local_seconds, parse_offset};
use tablero::template::{fill, split_at_text};
use tablero::tray::{TrayIcon, TrayItem, TrayMenuMode, TrayState, TrayStatus};
use tablero::widget::{
    Battery, BatteryState, ClickButton, Command, Dashboard, DeviceKind, IconSetting, Network,
    NetworkState, Notifications, PowerProfile, PowerProfilesState, ScrollDirection, Volume, Widget,
    WidgetStyle,
};

const ACCENT: (u8, u8, u8, u8) = (9, 8, 7, 255);

fn widget(kind: WidgetKind) -> Widget {
    let style = WidgetStyle {
        accent: ACCENT,
        ..WidgetStyle::default()
    };
    kind.build(Bounds::new(0, 0, 10, 10), style, Some("DP-1"), None)
}

fn pieces(widget: &Widget, msg: &Msg) -> Vec<Piece> {
    face(widget, &[msg])
}

fn piece(widget: &Widget, msg: &Msg) -> Piece {
    let mut all = pieces(widget, msg);
    assert_eq!(all.len(), 1);
    all.remove(0)
}

/// The text of a piece, with the glyph as it is written.
fn written(piece: &Piece) -> String {
    let glyph = match &piece.glyph {
        Glyph::Hidden => String::new(),
        Glyph::Art(icon) => format!("<{}>", icon.stem()),
        Glyph::Word(word) => word.clone(),
        Glyph::Item(place) => format!("#{place}"),
    };
    format!("{}{}{}", piece.lead, glyph, piece.tail)
}

#[test]
fn placeholders_are_replaced_from_left_to_right() {
    let values = [("{a}", "{b}"), ("{b}", "2")];
    assert_eq!(fill("{a}-{b}-{c}-{", &values), "{b}-2-{c}-{");
    assert_eq!(fill("plain", &values), "plain");
    assert_eq!(fill("", &values), "");
    assert_eq!(
        split_at_text("a{icon}b{icon}", "{icon}"),
        Some(("a", "b{icon}"))
    );
    assert_eq!(split_at_text("ab", "{icon}"), None);
}

#[test]
fn the_clock_shows_hours_and_minutes() {
    let clock = widget(WidgetKind::Clock);
    let told = |seconds: u64| written(&piece(&clock, &Msg::Tick(seconds)));
    assert_eq!(told(0), "<clock-filled> 00:00");
    assert_eq!(told(86_399), "<clock-filled> 23:59");
    assert_eq!(told(86_400 + 9 * 3600 + 5 * 60 + 30), "<clock-filled> 09:05");
}

#[test]
fn the_local_clock_is_ahead_by_its_offset() {
    assert_eq!(parse_offset("+0530"), Some(19_800));
    assert_eq!(parse_offset("-0800"), Some(-28_800));
    for wrong in ["", "0530", "+530", "+05:30", "+0560", "+0a00", "+05300"] {
        assert_eq!(parse_offset(wrong), None);
    }
    let clock = widget(WidgetKind::Clock);
    let local = Msg::Tick(local_seconds(86_400, -28_800));
    assert_eq!(written(&piece(&clock, &local)), "<clock-filled> 16:00");
    assert_eq!(local_seconds(10, -60), 0);
    assert_eq!(local_seconds(u64::MAX, 60), u64::MAX);
}

#[test]
fn the_battery_follows_its_format_and_state() {
    let mut battery = widget(WidgetKind::Battery);
    let at = |state, percent| Msg::Battery(Some(Battery::new(state, percent)));
    let full = piece(&battery, &at(BatteryState::Full, 100));
    assert_eq!(written(&full), "<battery-full2-filled> 100% full");
    assert_eq!(full.colors.foreground, battery.style.foreground);
    let low = piece(&battery, &at(BatteryState::Discharging, 19));
    assert_eq!(low.glyph, Glyph::Art(BuiltinIcon::BatteryLow));
    assert_eq!(low.colors, battery.style.warn);
    let at_threshold = piece(&battery, &at(BatteryState::Discharging, 20));
    assert_eq!(at_threshold.colors.background, None);
    let charging = piece(&battery, &at(BatteryState::Charging, 5));
    assert_eq!(charging.glyph, Glyph::Art(BuiltinIcon::BatteryCharging));
    assert_eq!(charging.colors, battery.style.charging);
    battery.format = Some("{percent}% {icon}".to_string());
    assert_eq!(
        written(&piece(&battery, &at(BatteryState::Full, 50))),
        "50% <battery-half2-filled>"
    );
    assert!(pieces(&battery, &Msg::Battery(None)).is_empty());
}

#[test]
fn a_glyph_may_be_hidden_or_replaced() {
    let mut network = widget(WidgetKind::Network);
    let msg = Msg::Network(Some(Network::new(NetworkState::Wireless, Some("home"))));
    assert_eq!(written(&piece(&network, &msg)), "<wifi-filled> wifi home");
    network.style.icon = IconSetting::Hidden;
    assert_eq!(written(&piece(&network, &msg)), "wifi home");
    network.style.icon = IconSetting::Custom("N".to_string());
    assert_eq!(written(&piece(&network, &msg)), "N wifi home");
    assert!(pieces(&network, &Msg::Network(None)).is_empty());
    // A widget that is a glyph alone shows nothing without it.
    let mut power = widget(WidgetKind::Power);
    assert_eq!(face(&power, &[]).len(), 1);
    power.style.icon = IconSetting::Hidden;
    assert!(face(&power, &[]).is_empty());
}

#[test]
fn scrolling_adjusts_the_backlight() {
    let mut backlight = widget(WidgetKind::Backlight);
    backlight.device = Some("intel".to_string());
    let shown = piece(&backlight, &Msg::Backlight(Some(50)));
    assert_eq!(written(&shown), "<bright-3> 50%");
    assert_eq!(
        shown.increase,
        Some(Command::AdjustBacklight {
            device: Some("intel".to_string()),
            step: Double {
                bits: DEFAULT_SCROLL_STEP
            },
            direction: ScrollDirection::Increase
        })
    );
    assert_eq!(f64::from_bits(DEFAULT_SCROLL_STEP), 1.0);
    backlight.format_icons = Some(FormatIconsConfig::Ramp(vec![
        "lo".to_string(),
        "hi".to_string(),
    ]));
    for (level, icon) in [(0, "lo"), (49, "lo"), (50, "hi"), (100, "hi")] {
        assert_eq!(
            written(&piece(&backlight, &Msg::Backlight(Some(level)))),
            format!("{icon} {level}%")
        );
    }
    assert!(pieces(&backlight, &Msg::Backlight(None)).is_empty());
}

#[test]
fn the_volume_shows_its_level_or_that_it_is_muted() {
    let volume = widget(WidgetKind::Volume);
    let told = |level, muted| {
        let msg = Msg::Volume(Some(Volume::new(level, muted, DeviceKind::Speakers)));
        written(&piece(&volume, &msg))
    };
    assert_eq!(told(0, false), "<volume-x-filled> Vol 0%");
    assert_eq!(told(33, false), "<volume-down-filled> Vol 33%");
    assert_eq!(told(34, false), "<volume-filled> Vol 34%");
    assert_eq!(told(66, false), "<volume-filled> Vol 66%");
    assert_eq!(told(67, false), "<volume-up-filled> Vol 67%");
    assert_eq!(told(80, true), "<volume-x-filled> Mute");
    assert!(pieces(&volume, &Msg::Volume(None)).is_empty());
}

#[test]
fn bluetooth_tells_its_state() {
    let bluetooth = widget(WidgetKind::Bluetooth);
    let told = |adapter| written(&piece(&bluetooth, &Msg::Bluetooth(adapter)));
    let adapter = |powered, connected| Some(Bluetooth { powered, connected });
    assert_eq!(told(None), "<bluetooth-outline> unavailable");
    assert_eq!(told(adapter(false, 0)), "<bluetooth-outline> off");
    assert_eq!(told(adapter(true, 0)), "<bluetooth-outline> on");
    assert_eq!(told(adapter(true, 2)), "<bluetooth-outline> 2 connected");
}

#[test]
fn updates_hide_when_there_are_none() {
    let updates = widget(WidgetKind::Updates);
    assert_eq!(
        written(&piece(&updates, &Msg::Updates(Some(7)))),
        "<box5-filled> 7"
    );
    assert!(pieces(&updates, &Msg::Updates(Some(0))).is_empty());
    assert!(pieces(&updates, &Msg::Updates(None)).is_empty());
    let system = widget(WidgetKind::System);
    let load = Msg::System(SystemStats { cpu: 3, memory: 40 });
    assert_eq!(written(&piece(&system, &load)), "<cpu-filled> 3% 40%");
}

#[test]
fn notifications_have_a_dot_and_two_clicks() {
    let bell = widget(WidgetKind::Notifications);
    let told = |count, dnd| {
        piece(
            &bell,
            &Msg::Notifications(Some(Notifications::new(count, dnd))),
        )
    };
    let quiet = told(0, false);
    assert_eq!(written(&quiet), "<bell-filled>");
    assert!(!quiet.dot);
    assert!(told(3, false).dot);
    assert_eq!(quiet.left, Some(Command::ToggleNotificationPanel));
    assert_eq!(quiet.right, Some(Command::ToggleNotificationsDnd));
    let off = told(0, true);
    assert_eq!(written(&off), "<bell-off2-filled>");
    assert_eq!(off.colors.foreground, (0x75, 0x75, 0x75, 0xFF));
    assert!(pieces(&bell, &Msg::Notifications(None)).is_empty());
}

#[test]
fn a_click_rotates_through_the_power_profiles() {
    let mut profiles = widget(WidgetKind::PowerProfilesDaemon);
    let offered = || {
        vec![
            PowerProfile::new("power-saver", "d", "c", "p"),
            PowerProfile::new("balanced", "drv", "cpu", "acpi"),
            PowerProfile::new("performance", "d", "c", "p"),
        ]
    };
    let told = |active: &str| Msg::PowerProfiles(Some(PowerProfilesState::new(active, offered())));
    let shown = piece(&profiles, &told("balanced"));
    assert_eq!(written(&shown), "<balance-filled>");
    assert_eq!(
        shown.tooltip.as_deref(),
        Some("Power profile: balanced\nDriver: drv")
    );
    let select = |name: &str| Some(Command::SetPowerProfile(name.to_string()));
    assert_eq!(shown.left, select("performance"));
    assert_eq!(shown.right, select("power-saver"));
    let last = piece(&profiles, &told("performance"));
    assert_eq!(last.left, select("power-saver"));
    assert_eq!(last.right, select("balanced"));
    assert_eq!(piece(&profiles, &told("unheard-of")).left, None);

    profiles.format = Some("{icon} {profile} {cpu_driver}".to_string());
    profiles.tooltip_format = Some("{icon}{platform_driver}".to_string());
    profiles.format_icons = Some(FormatIconsConfig::Named(vec![
        ("default".to_string(), "D".to_string()),
        ("balanced".to_string(), "B".to_string()),
    ]));
    let shown = piece(&profiles, &told("balanced"));
    assert_eq!(written(&shown), "B balanced cpu");
    assert_eq!(shown.tooltip.as_deref(), Some("Bacpi"));
    assert_eq!(written(&piece(&profiles, &told("performance"))), "D performance c");
    profiles.tooltip = Some(false);
    assert_eq!(piece(&profiles, &told("balanced")).tooltip, None);
    assert!(pieces(&profiles, &Msg::PowerProfiles(None)).is_empty());
}

#[test]
fn hypridle_and_power_tell_what_they_are() {
    let idle = widget(WidgetKind::Hypridle);
    let active = piece(&idle, &Msg::Hypridle(true));
    assert_eq!(active.tooltip.as_deref(), Some("Hypridle active"));
    assert_eq!(active.colors.foreground, ACCENT);
    assert_eq!(active.left, Some(Command::SetHypridle(false)));
    let inactive = piece(&idle, &Msg::Hypridle(false));
    assert_eq!(inactive.tooltip.as_deref(), Some("Hypridle inactive"));
    assert_eq!(inactive.colors.foreground, idle.style.foreground);
    assert_eq!(inactive.left, Some(Command::SetHypridle(true)));

    let mut power = widget(WidgetKind::Power);
    power.on_click = Some("wlogout".to_string());
    power.on_click_right = Some("hyprlock".to_string());
    let shown = face(&power, &[]).remove(0);
    assert_eq!(shown.tooltip.as_deref(), Some("Power menu"));
    assert_eq!(shown.left, Some(Command::RunProgram("wlogout".to_string())));
    assert_eq!(
        shown.right,
        Some(Command::RunProgram("hyprlock".to_string()))
    );
    power.tooltip_format = Some("Leave".to_string());
    assert_eq!(face(&power, &[])[0].tooltip.as_deref(), Some("Leave"));
    power.tooltip = Some(false);
    assert_eq!(face(&power, &[])[0].tooltip, None);
}

#[test]
fn each_monitor_shows_its_own_workspaces_and_title() {
    let workspaces = widget(WidgetKind::Workspaces);
    let msg = Msg::Workspaces(Workspaces::with_monitors(
        vec![
            (1, Some("DP-1".to_string())),
            (2, Some("HDMI-A-1".to_string())),
            (-3, None),
        ],
        vec![("DP-1".to_string(), 1), ("HDMI-A-1".to_string(), 2)],
        2,
    ));
    let shown = pieces(&workspaces, &msg);
    let texts: Vec<String> = shown.iter().map(written).collect();
    assert_eq!(texts, ["[1]", "-3"]);
    assert_eq!(shown[0].colors.foreground, ACCENT);
    assert_eq!(shown[0].left, Some(Command::SwitchWorkspace(1)));
    let title = widget(WidgetKind::Title);
    let window = |monitor: &str, title: &str| Msg::ActiveWindow {
        monitor: monitor.to_string(),
        window: Some(ActiveWindow {
            app: "a".to_string(),
            title: title.to_string(),
        }),
    };
    assert_eq!(written(&piece(&title, &window("DP-1", "mail"))), "mail");
    assert!(pieces(&title, &window("HDMI-A-1", "mail")).is_empty());
    let long = "x".repeat(101);
    let cut = written(&piece(&title, &window("DP-1", &long)));
    assert_eq!(cut, format!("{}…", "x".repeat(99)));
    let whole = "x".repeat(100);
    assert_eq!(written(&piece(&title, &window("DP-1", &whole))), whole);
}

#[test]
fn tray_items_show_an_icon_or_their_initial() {
    let tray = widget(WidgetKind::Tray);
    let icon = TrayIcon::from_argb32(1, 1, &[255, 1, 2, 3]);
    let msg = Msg::Tray(TrayState::new(vec![
        TrayItem::new("a", "alpha", TrayStatus::Active, None).with_menu(TrayMenuMode::Primary),
        TrayItem::new("b", "beta", TrayStatus::NeedsAttention, icon),
    ]));
    let shown = pieces(&tray, &msg);
    assert_eq!(written(&shown[0]), "A");
    assert_eq!(shown[1].glyph, Glyph::Item(1));
    assert_eq!(shown[1].colors, tray.style.attention);
    assert_eq!(shown[1].tooltip.as_deref(), Some("beta"));
    let open = |key: &str| {
        Some(Command::OpenTrayMenu {
            key: key.to_string(),
            x: 0,
            y: 0,
        })
    };
    assert_eq!((&shown[0].left, &shown[0].right), (&open("a"), &open("a")));
    assert_eq!(
        shown[1].left,
        Some(Command::ActivateTrayItem {
            key: "b".to_string(),
            x: 0,
            y: 0
        })
    );
    assert_eq!(shown[1].right, open("b"));
}

#[test]
fn the_latest_news_is_shown() {
    let updates = widget(WidgetKind::Updates);
    let (old, new, other) = (Msg::Updates(Some(1)), Msg::Updates(Some(2)), Msg::Tick(5));
    let shown = face(&updates, &[&old, &new, &other]);
    assert_eq!(written(&shown[0]), "<box5-filled> 2");
    assert!(face(&updates, &[]).is_empty());
}

#[test]
fn the_zones_of_a_row_keep_to_their_side() {
    let widths = vec![10, 20, 5];
    let xs = |zone| -> Vec<u32> {
        place_zone(zone, &widths, 4, 3, 101, 30)
            .iter()
            .map(|place| place.x)
            .collect()
    };
    // Together with the gaps the pieces take up 43 pixels.
    assert_eq!(xs(Zone::Left), [3, 17, 41]);
    assert_eq!(xs(Zone::Center), [29, 43, 67]);
    assert_eq!(xs(Zone::Right), [55, 69, 93]);
    let place = place_zone(Zone::Left, &widths, 4, 3, 101, 30)[1];
    assert_eq!(place, Bounds::new(17, 3, 20, 24));
    // A row that does not fit starts at the edge.
    assert_eq!(place_zone(Zone::Center, &widths, 4, 3, 40, 5)[0].x, 0);
    assert_eq!(place_zone(Zone::Right, &widths, 4, 3, 45, 5)[0].height, 0);
    assert!(place_zone(Zone::Center, &vec![], 4, 3, 40, 5).is_empty());
    assert_eq!(scaled(7, 3), 21);
    assert_eq!(scaled(u32::MAX, 2), u32::MAX);
    assert_eq!(piece_width(10, 8), 26);
}

fn slot(x: u32, width: u32, msg: &Msg) -> Slot {
    Slot {
        bounds: Bounds::new(x, 0, width, 10),
        piece: piece(&widget(WidgetKind::Updates), msg),
    }
}

#[test]
fn the_pointer_finds_the_slot_it_is_over() {
    let msg = Msg::Updates(Some(1));
    let mut slots = vec![slot(0, 10, &msg), slot(10, 10, &msg), slot(30, 5, &msg)];
    assert_eq!(slot_at(&slots, 9, 9), Some(0));
    assert_eq!(slot_at(&slots, 10, 0), Some(1));
    assert_eq!(slot_at(&slots, 20, 0), None);
    assert_eq!(slot_at(&slots, 31, 10), None);
    assert!(!slots[1].clickable());
    slots[1].piece.right = Some(Command::ToggleNotificationsDnd);
    assert!(slots[1].clickable());
    assert_eq!(slots[1].on_click(ClickButton::Left), None);
    assert_eq!(
        slots[1].on_click(ClickButton::Right),
        Some(&Command::ToggleNotificationsDnd)
    );
    slots[1].piece.decrease = Some(Command::SetHypridle(true));
    assert_eq!(slots[1].on_scroll(ScrollDirection::Increase), None);
    assert_eq!(
        slots[1].on_scroll(ScrollDirection::Decrease),
        Some(&Command::SetHypridle(true))
    );
}

#[test]
fn only_what_looks_different_is_painted_anew() {
    let (one, two) = (Msg::Updates(Some(1)), Msg::Updates(Some(2)));
    let before = vec![slot(0, 10, &one), slot(10, 10, &one), slot(20, 10, &one)];
    let moved = vec![slot(0, 10, &one), slot(10, 12, &two), slot(22, 10, &one)];
    assert_eq!(
        changed_region(&before, &moved),
        Damage::Region(Bounds::new(10, 0, 22, 10))
    );
    let repainted = vec![slot(0, 10, &two), slot(10, 10, &one), slot(20, 10, &one)];
    assert_eq!(
        changed_region(&before, &repainted),
        Damage::Region(Bounds::new(0, 0, 10, 10))
    );
    let fewer = vec![slot(0, 10, &one), slot(10, 10, &one)];
    assert_eq!(changed_region(&before, &fewer), Damage::Full);
    let beyond = vec![slot(0, 10, &one), slot(u32::MAX, 10, &one), slot(20, 10, &one)];
    assert_eq!(changed_region(&before, &beyond), Damage::Full);
    assert!(same_look(&before[0].piece, &moved[0].piece));
    assert!(!same_look(&before[1].piece, &moved[1].piece));
}

#[test]
fn a_bar_is_painted_for_news_that_shows_on_it() {
    let board = Dashboard {
        left: vec![widget(WidgetKind::Updates)],
        center: vec![],
        right: vec![widget(WidgetKind::Clock), widget(WidgetKind::Tray)],
        margin: 0,
        gap: 0,
    };
    let tick = Msg::Tick(60);
    let before = [&tick];
    let affected = |msg: &Msg| is_affected(&board, &before, &[&tick, msg], msg);
    assert!(!affected(&Msg::Tick(119)), "the same minute");
    assert!(affected(&Msg::Tick(120)));
    assert!(!affected(&Msg::Updates(Some(0))), "it stays hidden");
    assert!(affected(&Msg::Updates(Some(1))));
    assert!(!affected(&Msg::Hypridle(true)), "no such widget");
    assert!(affected(&Msg::Tray(TrayState::new(vec![]))));
    assert_eq!(zone_pieces(&board.right, &before).len(), 1);
}
