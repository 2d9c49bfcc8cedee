use tablero::sni::{
    collect_submenu_ids, find_icon_file, icon_search_dirs, icon_source, interpret_watcher_name,
    item_from_reading, item_target, menu_mode, menu_of, normalize_addresses, parse_item_address,
    parse_menu_layout, reconcile_items, resolve_icon, select_pixmap, tray_item_from_props, tray_of,
    IconSource,
    ItemReading, LifecycleStep, MenuLayout, MenuValue, NameError, NameReply, SniHostProducer,
    SniWake, TrayHost, TrayStep, Watcher, RECONCILE_INTERVAL, RETRY_DELAY,
};
use tablero::table::Table;
use tablero::tray::{
    TrayIcon, TrayItem, TrayMenuItem, TrayMenuMode, TrayMenuToggle, TrayMenuToggleKind,
    TrayMenuToggleState, TrayState, TrayStatus,
};
use tiny_skia::Pixmap;

#[test]
fn owning_the_watcher_name_is_usable() {
    assert!(interpret_watcher_name(Ok(NameReply::PrimaryOwner)).is_ok());
    assert!(interpret_watcher_name(Ok(NameReply::AlreadyOwner)).is_ok());
}

#[test]
fn an_existing_external_watcher_is_deferred_to_not_fatal() {
    // The "name exists" outcome comes as an error too; either way there is a
    // watcher to defer to.
    assert!(interpret_watcher_name(Err(NameError::NameTaken)).is_ok());
    assert!(interpret_watcher_name(Ok(NameReply::Exists)).is_ok());
}

#[test]
fn a_genuine_bus_error_propagates() {
    assert_eq!(
        interpret_watcher_name(Err(NameError::Bus("unsupported".to_string()))),
        Err("unsupported".to_string())
    );
}

#[test]
fn owner_loss_allows_the_same_item_address_to_register_again() {
    let address = "org.example.Tray/StatusNotifierItem";
    let mut watcher = Watcher::new();
    watcher.insert(address);

    assert!(watcher.remove_registered_item(address));
    assert!(watcher.insert(address));
    assert!(!watcher.insert(address));
}

#[test]
fn a_bare_path_registers_under_the_callers_name() {
    let mut watcher = Watcher::new();
    let path = watcher
        .register("/org/ayatana/item", Some(":1.7"))
        .expect("a caller");
    assert_eq!(path.address, ":1.7/org/ayatana/item");
    assert!(path.inserted);
    let name = watcher
        .register("org.kde.item-1", Some(":1.8"))
        .expect("a caller");
    assert_eq!(name.address, "org.kde.item-1");
    assert!(
        !watcher
            .register("org.kde.item-1", Some(":1.9"))
            .expect("a caller")
            .inserted
    );
    assert!(watcher.register("org.kde.item-2", None).is_none());
    assert!(!watcher.remove_registered_item("org.kde.item-2"));
    let mut registered = watcher.registered();
    registered.sort();
    assert_eq!(registered, vec![":1.7/org/ayatana/item", "org.kde.item-1"]);
}

fn item(key: &str, title: &str) -> TrayItem {
    tray_item_from_props(key, "id", title, "Active", None)
}

fn table(items: Vec<TrayItem>) -> Table<String, TrayItem> {
    let mut table = Table::new();
    for item in items {
        table.insert(item.key().to_string(), item);
    }
    table
}

fn addresses(names: &[&str]) -> Vec<String> {
    names.iter().map(|name| name.to_string()).collect()
}

#[test]
fn transient_item_read_failure_preserves_the_cached_item() {
    let mut items = table(vec![item(":1.1", "First"), item(":1.2", "Second")]);

    let needs_retry = reconcile_items(
        &mut items,
        &addresses(&[":1.1", ":1.2"]),
        vec![
            (":1.1".to_string(), None),
            (":1.2".to_string(), Some(item(":1.2", "Second updated"))),
        ],
    );

    assert!(needs_retry);
    assert_eq!(items.get(&":1.1".to_string()), Some(&item(":1.1", "First")));
    assert_eq!(
        items.get(&":1.2".to_string()),
        Some(&item(":1.2", "Second updated"))
    );
}

#[test]
fn watcher_membership_removes_items_even_when_no_read_succeeds() {
    let mut items = table(vec![item(":1.1", "First"), item(":1.2", "Second")]);

    let needs_retry = reconcile_items(
        &mut items,
        &addresses(&[":1.2"]),
        vec![(":1.2".to_string(), None)],
    );

    assert!(needs_retry);
    assert_eq!(items.len(), 1);
    assert_eq!(
        items.get(&":1.2".to_string()),
        Some(&item(":1.2", "Second"))
    );
}

#[test]
fn unreadable_new_item_is_retried_without_clearing_the_tray() {
    let mut items = table(vec![item(":1.1", "First")]);

    let needs_retry = reconcile_items(
        &mut items,
        &addresses(&[":1.1", ":1.2"]),
        vec![
            (":1.1".to_string(), Some(item(":1.1", "First"))),
            (":1.2".to_string(), None),
        ],
    );

    assert!(needs_retry);
    assert_eq!(items.len(), 1);
    assert_eq!(items.get(&":1.1".to_string()), Some(&item(":1.1", "First")));
}

#[test]
fn closed_lifecycle_stream_is_reported_for_recovery() {
    let mut host = TrayHost::start(addresses(&[":1.1"]));
    assert_eq!(
        host.on_wake(SniWake::Lifecycle { open: true }),
        LifecycleStep::Keep
    );
    assert_eq!(
        host.on_wake(SniWake::Lifecycle { open: false }),
        LifecycleStep::Drop
    );
    // Listening is taken up again when the next wait is over.
    assert_eq!(
        host.on_wake(SniWake::Item { open: true }),
        LifecycleStep::Keep
    );
    assert_eq!(host.on_wake(SniWake::Poll), LifecycleStep::Restore);
    host.lifecycle_restored();
    assert_eq!(host.on_wake(SniWake::Poll), LifecycleStep::Keep);
}

#[test]
fn reconciliation_poll_wakes_without_item_streams() {
    let mut host = TrayHost::start(addresses(&[":1.2", ":1.1", ":1.2"]));
    assert_eq!(host.addresses(), &addresses(&[":1.1", ":1.2"]));
    let readings = |second: Option<TrayItem>| {
        vec![
            (":1.1".to_string(), Some(item(":1.1", "First"))),
            (":1.2".to_string(), second),
        ]
    };
    host.on_readings(readings(Some(item(":1.2", "Second"))));
    assert_eq!(host.delay(), RECONCILE_INTERVAL);
    // Nothing changed: the wait goes on.
    assert_eq!(
        host.on_membership(SniWake::Poll, Some(addresses(&[":1.1", ":1.2"]))),
        TrayStep::Wait
    );
    // An item announced a change.
    assert_eq!(
        host.on_membership(
            SniWake::Item { open: true },
            Some(addresses(&[":1.1", ":1.2"]))
        ),
        TrayStep::Read { rebuild: false }
    );
    assert_eq!(
        host.on_membership(
            SniWake::Item { open: false },
            Some(addresses(&[":1.1", ":1.2"]))
        ),
        TrayStep::Read { rebuild: true }
    );
    // A reading fails: the next wait is short, and reads again.
    let tray = host.on_readings(readings(None));
    assert_eq!(tray.items().len(), 2);
    assert_eq!(host.delay(), RETRY_DELAY);
    assert_eq!(
        host.on_membership(SniWake::Poll, Some(addresses(&[":1.1", ":1.2"]))),
        TrayStep::Read { rebuild: false }
    );
    host.on_readings(readings(Some(item(":1.2", "Second"))));
    // The list cannot be read: everything stays, and another try comes soon.
    assert_eq!(host.on_membership(SniWake::Poll, None), TrayStep::Wait);
    assert_eq!(host.delay(), RETRY_DELAY);
    // An item left.
    assert_eq!(
        host.on_membership(SniWake::Poll, Some(addresses(&[":1.2"]))),
        TrayStep::Read { rebuild: true }
    );
    let left = host.on_readings(vec![(":1.2".to_string(), None)]);
    assert_eq!(left, TrayState::new(vec![item(":1.2", "Second")]));
}

#[test]
fn bare_bus_name_uses_the_default_item_path() {
    assert_eq!(
        parse_item_address(":1.42"),
        Some((":1.42".to_string(), "/StatusNotifierItem".to_string()))
    );
}

#[test]
fn well_known_name_uses_the_default_item_path() {
    assert_eq!(
        parse_item_address("org.kde.StatusNotifierItem-9-1"),
        Some((
            "org.kde.StatusNotifierItem-9-1".to_string(),
            "/StatusNotifierItem".to_string()
        ))
    );
}

#[test]
fn name_and_path_split_at_the_first_slash() {
    assert_eq!(
        parse_item_address(":1.42/org/ayatana/NotificationItem/foo"),
        Some((
            ":1.42".to_string(),
            "/org/ayatana/NotificationItem/foo".to_string()
        ))
    );
}

#[test]
fn empty_or_bare_path_addresses_are_rejected() {
    assert_eq!(parse_item_address(""), None);
    assert_eq!(parse_item_address("   "), None);
    // A leading slash means no bus name precedes the path: unaddressable.
    assert_eq!(parse_item_address("/StatusNotifierItem"), None);
}

#[test]
fn a_key_that_is_no_address_cannot_be_reached() {
    assert_eq!(
        item_target("/StatusNotifierItem"),
        Err("bad address /StatusNotifierItem".to_string())
    );
    assert_eq!(
        item_target(":1.4"),
        Ok((":1.4".to_string(), "/StatusNotifierItem".to_string()))
    );
}

#[test]
fn select_pixmap_picks_the_largest_and_decodes_it() {
    // One opaque-red pixel at 1x1 and a 2x1 - the larger wins.
    let small = (1, 1, vec![255, 255, 0, 0]);
    let large = (2, 1, vec![255, 0, 255, 0, 255, 0, 0, 255]);
    let icon = select_pixmap(&[small, large]).expect("a pixmap is chosen");
    assert_eq!((icon.width(), icon.height()), (2, 1));
    assert_eq!(icon.rgba(), &[0, 255, 0, 255, 0, 0, 255, 255]);
}

#[test]
fn select_pixmap_skips_invalid_entries() {
    // Zero-sized and length-inconsistent entries are not usable icons.
    let zero = (0, 0, vec![]);
    let truncated = (4, 4, vec![0, 0, 0, 0]); // claims 64 bytes, has 4
    assert!(select_pixmap(&[zero, truncated]).is_none());
    assert!(select_pixmap(&[]).is_none());
}

#[test]
fn a_broken_large_icon_does_not_hide_a_good_small_one() {
    let small = (1, 1, vec![255, 1, 2, 3]);
    let truncated = (4, 4, vec![0, 0, 0, 0]);
    let icon = select_pixmap(&[small, truncated]).expect("the small one");
    assert_eq!(icon.rgba(), &[1, 2, 3, 255]);
}

#[test]
fn find_icon_file_returns_the_first_existing_match() {
    let dirs = addresses(&["/nonexistent", "/icons"]);
    let is_file = |path: &str| path == "/icons/discord.png";
    assert_eq!(
        find_icon_file("discord", &dirs, is_file),
        Some("/icons/discord.png".to_string())
    );
    // A name with no backing file resolves to nothing.
    assert_eq!(find_icon_file("missing", &dirs, is_file), None);
    // An empty name never matches.
    assert_eq!(find_icon_file("", &dirs, |_: &str| true), None);
}

#[test]
fn find_icon_file_accepts_an_absolute_file_path() {
    assert_eq!(
        find_icon_file("/d/icon.png", &Vec::new(), |path: &str| path
            == "/d/icon.png"),
        Some("/d/icon.png".to_string())
    );
}

#[test]
fn an_icon_that_came_with_the_item_wins_over_a_file() {
    let pixmap = (1, 1, vec![255, 1, 2, 3]);
    match icon_source("discord", &[pixmap], "", |_: &str| true) {
        IconSource::Embedded(icon) => assert_eq!(icon.rgba(), &[1, 2, 3, 255]),
        _ => panic!("the embedded icon"),
    }
    match icon_source("discord", &[], "/theme", |path: &str| {
        path == "/theme/discord.png"
    }) {
        IconSource::File(file) => assert_eq!(file, "/theme/discord.png"),
        _ => panic!("the file"),
    }
    assert!(matches!(
        icon_source("discord", &[], "/theme", |_: &str| false),
        IconSource::Missing
    ));
}

#[test]
fn item_props_fall_back_to_id_when_the_title_is_blank() {
    let item = tray_item_from_props(":1.1", "discord", "", "Active", None);
    assert_eq!(item.key(), ":1.1");
    // Blank title falls back to the id so the initial is meaningful.
    assert_eq!(item.title(), "discord");
    assert_eq!(item.status(), TrayStatus::Active);
    assert_eq!(item.fallback_label(), "D");
}

#[test]
fn item_props_prefer_the_title_over_the_id() {
    let item = tray_item_from_props(":1.1", "discord", "Discord — 3 unread", "Bogus", None);
    assert_eq!(item.title(), "Discord — 3 unread");
    // An unknown status string normalizes to Passive rather than failing.
    assert_eq!(item.status(), TrayStatus::Passive);
}

#[test]
fn an_item_whose_id_cannot_be_read_is_gone() {
    let mut reading = ItemReading {
        id: Some("discord".to_string()),
        title: None,
        status: Some("NeedsAttention".to_string()),
        menu: Some("/MenuBar".to_string()),
        item_is_menu: Some(false),
    };
    let item = item_from_reading(":1.1", &reading, None).expect("an item");
    assert_eq!(item.title(), "discord");
    assert_eq!(item.status(), TrayStatus::NeedsAttention);
    assert_eq!(item.menu(), TrayMenuMode::Secondary);
    assert!(item.icon().is_none());
    reading.id = None;
    assert!(item_from_reading(":1.1", &reading, None).is_none());
}

#[test]
fn menu_mode_defaults_missing_item_is_menu_to_primary() {
    assert_eq!(menu_mode(Some("/MenuBar"), None), TrayMenuMode::Primary);
    assert_eq!(
        menu_mode(Some("/MenuBar"), Some(false)),
        TrayMenuMode::Secondary
    );
    assert_eq!(
        menu_mode(Some("/MenuBar"), Some(true)),
        TrayMenuMode::Primary
    );
}

#[test]
fn absent_or_sentinel_menu_paths_have_no_exported_menu() {
    assert_eq!(menu_mode(None, Some(true)), TrayMenuMode::Absent);
    assert_eq!(menu_mode(Some("/"), Some(true)), TrayMenuMode::Absent);
    assert_eq!(
        menu_mode(Some("/NO_DBUSMENU"), Some(true)),
        TrayMenuMode::Absent
    );
}

fn text(s: &str) -> MenuValue {
    MenuValue::Text(s.to_string())
}

fn layout(id: i32, properties: Vec<(&str, MenuValue)>, children: Vec<MenuValue>) -> MenuValue {
    MenuValue::Layout(MenuLayout {
        id,
        properties: properties
            .into_iter()
            .map(|(name, value)| (name.to_string(), value))
            .collect(),
        children,
    })
}

#[test]
fn dbusmenu_layout_normalizes_nested_toggles_separators_and_visibility() {
    let child = layout(
        2,
        vec![
            ("label", text("Nested")),
            ("enabled", MenuValue::Flag(false)),
            ("toggle-type", text("checkmark")),
            ("toggle-state", MenuValue::Number(1)),
        ],
        vec![],
    );
    let separator = layout(3, vec![("type", text("separator"))], vec![]);
    let hidden = layout(
        4,
        vec![
            ("label", text("Hidden")),
            ("visible", MenuValue::Flag(false)),
        ],
        vec![],
    );
    let root = layout(
        0,
        vec![("label", text("root"))],
        vec![child, separator, hidden],
    );

    let parsed = parse_menu_layout(root).expect("valid recursive layout");
    assert_eq!(parsed.id, 0);
    assert_eq!(parsed.children.len(), 3);
    assert_eq!(parsed.children[0].label, "Nested");
    assert!(!parsed.children[0].enabled);
    assert_eq!(
        parsed.children[0].toggle,
        Some(TrayMenuToggle {
            kind: TrayMenuToggleKind::Checkmark,
            state: TrayMenuToggleState::On,
        })
    );
    assert!(parsed.children[1].separator);
    assert!(!parsed.children[2].visible);
}

#[test]
fn a_value_that_is_no_layout_is_no_menu() {
    assert!(parse_menu_layout(text("menu")).is_none());
    // Children that are no layouts are passed over.
    let root = layout(0, vec![], vec![MenuValue::Other, layout(1, vec![], vec![])]);
    let parsed = parse_menu_layout(root).expect("a layout");
    assert_eq!(parsed.children.len(), 1);
    assert_eq!(parsed.children[0].id, 1);
}

fn entry(id: i32, children: Vec<TrayMenuItem>) -> TrayMenuItem {
    TrayMenuItem {
        id,
        label: format!("entry {id}"),
        enabled: true,
        visible: true,
        separator: false,
        toggle: None,
        children,
    }
}

#[test]
fn every_entry_with_entries_below_it_is_asked_about() {
    let items = vec![
        entry(1, vec![entry(2, vec![entry(3, vec![])]), entry(4, vec![])]),
        entry(5, vec![]),
    ];
    let mut ids = Vec::new();
    collect_submenu_ids(&items, &mut ids);
    assert_eq!(ids, vec![1, 2]);
    let menu = menu_of(":1.1", 7, entry(0, items));
    assert_eq!(menu.key, ":1.1");
    assert_eq!(menu.revision, 7);
    assert_eq!(menu.items.len(), 2);
}

#[test]
fn icon_search_dirs_leads_with_the_item_theme_path() {
    let dirs = icon_search_dirs("/home/u/.local/share/icons");
    assert_eq!(
        dirs.first(),
        Some(&"/home/u/.local/share/icons".to_string())
    );
    // A blank theme path contributes no leading entry.
    let plain = icon_search_dirs("");
    assert!(!plain.contains(&"".to_string()));
}

#[test]
fn a_tray_does_not_depend_on_the_order_of_its_items() {
    let one = TrayState::new(vec![item(":1.2", "b"), item(":1.1", "a")]);
    let other = TrayState::new(vec![item(":1.1", "a"), item(":1.2", "b")]);
    assert_eq!(one, other);
    assert_eq!(one.items()[0].key(), ":1.1");
    assert_eq!(
        tray_of(&table(vec![item(":1.2", "b"), item(":1.1", "a")])),
        one
    );
}

#[test]
fn addresses_are_sorted_and_listed_once() {
    assert_eq!(
        normalize_addresses(addresses(&["b", "a", "b", "ab"])),
        addresses(&["a", "ab", "b"])
    );
}

#[test]
fn icons_have_four_bytes_a_pixel() {
    assert!(TrayIcon::from_rgba(1, 1, vec![1, 2, 3]).is_none());
    assert!(TrayIcon::from_rgba(1, 1, vec![1, 2, 3, 4]).is_some());
    assert!(TrayIcon::from_argb32(0, 1, &[]).is_none());
    assert_eq!(
        TrayIcon::from_argb32(1, 1, &[255, 1, 2, 3])
            .expect("an icon")
            .rgba(),
        &[1, 2, 3, 255]
    );
}

#[test]
fn decoded_pixels_are_premultiplied() {
    let icon = TrayIcon::from_argb32(2, 1, &[128, 255, 255, 255, 40, 10, 20, 30]);
    assert_eq!(
        icon.expect("an icon").rgba(),
        &[128, 128, 128, 128, 2, 3, 5, 40]
    );
    let clear = TrayIcon::from_argb32(1, 1, &[0, 9, 9, 9]).expect("an icon");
    assert_eq!(clear.rgba(), &[0, 0, 0, 0]);
}

/// A picture of two pixels, half-transparent red and opaque blue, as a PNG.
fn picture() -> Vec<u8> {
    let mut image = Pixmap::new(2, 1).expect("two pixels");
    image
        .data_mut()
        .copy_from_slice(&[128, 0, 0, 128, 0, 0, 255, 255]);
    image.encode_png().expect("a PNG")
}

#[test]
fn a_png_is_decoded_into_an_icon() {
    let icon = TrayIcon::from_png_bytes(&picture()).expect("an icon");
    assert_eq!((icon.width(), icon.height()), (2, 1));
    assert_eq!(icon.rgba(), &[128, 0, 0, 128, 0, 0, 255, 255]);
    assert!(TrayIcon::from_png_bytes(b"not really a png").is_none());
    assert!(TrayIcon::from_png_bytes(&[]).is_none());
}

#[test]
fn an_icon_comes_with_the_item_or_from_its_file() {
    let given = || TrayIcon::from_rgba(1, 1, vec![1, 2, 3, 4]).expect("an icon");
    let png = picture();
    let file = || IconSource::File("/x.png".to_string());
    assert_eq!(
        resolve_icon(IconSource::Embedded(given()), Some(&png)),
        Some(given())
    );
    assert_eq!(
        resolve_icon(file(), Some(&png)),
        TrayIcon::from_png_bytes(&png)
    );
    assert_eq!(resolve_icon(file(), Some(b"x")), None);
    assert_eq!(resolve_icon(file(), None), None);
    assert_eq!(resolve_icon(IconSource::Missing, Some(&png)), None);
}

#[test]
fn statuses_are_read_by_their_words() {
    assert_eq!(TrayStatus::from_sni("Active"), TrayStatus::Active);
    assert_eq!(
        TrayStatus::from_sni("NeedsAttention"),
        TrayStatus::NeedsAttention
    );
    assert_eq!(TrayStatus::from_sni("Passive"), TrayStatus::Passive);
    assert_eq!(item(":1.1", "").fallback_label(), "I");
    assert_eq!(
        tray_item_from_props(":1.1", "", "", "", None).fallback_label(),
        "?"
    );
    assert_eq!(SniHostProducer::new().name(), "sni-host");
}
