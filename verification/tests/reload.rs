use tablero::config_reload::{
    parent, resolve_theme_file, selected_theme, theme_of_document, watchable_dir, ConfigWatcher,
    DirWatches, PollStep, Snapshot, Stamp, FALLBACK_POLL, SETTLE, SETTLE_POLL,
};
use tablero::time::{Moment, MILLISECOND, SECOND};

const CONFIG: &str = "/c/config.toml";

fn version(len: u64) -> Stamp {
    Stamp::Present {
        dev: 1,
        ino: 2,
        len,
        mtime: 3,
        mtime_nsec: 4,
        ctime: 5,
        ctime_nsec: 6,
    }
}

fn at(nanos: u64) -> Moment {
    Moment { nanos }
}

/// The files on a disk, and how they are validated.
struct Disk {
    config: Stamp,
    document: Option<&'static str>,
    theme: Stamp,
}

impl Disk {
    fn snapshot(&self, watcher: &mut ConfigWatcher) -> Snapshot {
        if watcher.needs_scan(self.config) {
            watcher.scanned(self.config, self.document);
        }
        Snapshot {
            config: self.config,
            themes: watcher
                .theme_files()
                .into_iter()
                .map(|file| (file, self.theme))
                .collect(),
        }
    }

    /// Look at the files; whether a validation came out, and counts.
    fn poll(&self, watcher: &mut ConfigWatcher, now: Moment, valid: bool) -> Option<bool> {
        let before = self.snapshot(watcher);
        if watcher.on_snapshot(before, now) == PollStep::Idle {
            return None;
        }
        let after = self.snapshot(watcher);
        let theme = self
            .document
            .and_then(|document| theme_of_document(Some(document), CONFIG));
        let accepted = if valid { Some(theme.as_deref()) } else { None };
        Some(watcher.on_validated(after, accepted))
    }
}

fn settled(disk: &Disk, watcher: &mut ConfigWatcher, now: &mut u64, valid: bool) {
    *now += SECOND;
    assert_eq!(disk.poll(watcher, at(*now), valid), None);
    assert_eq!(watcher.next_poll(), Some(SETTLE_POLL));
    assert_eq!(
        disk.poll(watcher, at(*now + 399 * MILLISECOND), valid),
        None
    );
    assert_eq!(
        disk.poll(watcher, at(*now + 400 * MILLISECOND), valid),
        Some(true)
    );
}

#[test]
fn theme_only_edits_replacements_and_invalid_saves_recover() {
    let mut disk = Disk {
        config: version(1),
        document: Some("[appearance]\ntheme_file = 'theme.toml'"),
        theme: version(10),
    };
    let mut watcher = ConfigWatcher::new(CONFIG, Some("theme.toml"));
    let mut now = 0;
    settled(&disk, &mut watcher, &mut now, true);
    // A theme-only edit.
    disk.theme = version(11);
    settled(&disk, &mut watcher, &mut now, true);
    for bad in 12..15 {
        disk.theme = version(bad);
        settled(&disk, &mut watcher, &mut now, false);
        now += SECOND;
        assert_eq!(
            disk.poll(&mut watcher, at(now), false),
            None,
            "no repeated error until an edit"
        );
    }
    disk.theme = Stamp::Missing;
    settled(&disk, &mut watcher, &mut now, false);
    disk.theme = version(15);
    settled(&disk, &mut watcher, &mut now, true);
    // The configuration is emptied, then removed: each is refused once.
    disk.config = version(0);
    disk.document = Some("");
    settled(&disk, &mut watcher, &mut now, false);
    disk.config = Stamp::Missing;
    disk.document = None;
    settled(&disk, &mut watcher, &mut now, false);
    // The configuration no longer selects a theme.
    disk.config = version(2);
    disk.document = Some("height = 30");
    settled(&disk, &mut watcher, &mut now, true);
    assert!(watcher.theme_files().is_empty());
    disk.theme = version(16);
    now += SECOND;
    assert_eq!(disk.poll(&mut watcher, at(now), true), None);
    assert_eq!(watcher.path(), CONFIG);
}

#[test]
fn failed_switch_recovers_when_only_new_theme_is_created() {
    let mut disk = Disk {
        config: version(1),
        document: Some("height = 30"),
        theme: Stamp::Missing,
    };
    let mut watcher = ConfigWatcher::new(CONFIG, None);
    let mut now = 0;
    settled(&disk, &mut watcher, &mut now, true);
    disk.config = version(2);
    disk.document = Some("[appearance]\ntheme_file = 'new/theme.toml'");
    settled(&disk, &mut watcher, &mut now, false);
    assert_eq!(watcher.theme_files(), vec!["/c/new/theme.toml"]);
    // Only the theme is created: the configuration is not touched again.
    disk.theme = version(10);
    settled(&disk, &mut watcher, &mut now, true);
}

#[test]
fn a_failed_switch_keeps_the_former_theme() {
    let mut disk = Disk {
        config: version(1),
        document: Some("[appearance]\ntheme_file = 'old.toml'"),
        theme: version(10),
    };
    let mut watcher = ConfigWatcher::new(CONFIG, Some("old.toml"));
    let mut now = 0;
    settled(&disk, &mut watcher, &mut now, true);
    disk.config = version(2);
    disk.document = Some("[appearance]\ntheme_file = 'new.toml'");
    settled(&disk, &mut watcher, &mut now, false);
    assert_eq!(watcher.theme_files(), vec!["/c/new.toml", "/c/old.toml"]);
    assert_eq!(
        watcher.watched_files(),
        vec![CONFIG, "/c/old.toml", "/c/new.toml"]
    );
    disk.theme = version(11);
    settled(&disk, &mut watcher, &mut now, true);
    assert_eq!(watcher.theme_files(), vec!["/c/new.toml"]);
}

#[test]
fn an_edit_while_another_settles_starts_over() {
    let mut disk = Disk {
        config: version(1),
        document: Some("height = 30"),
        theme: Stamp::Missing,
    };
    let mut watcher = ConfigWatcher::new(CONFIG, None);
    assert_eq!(disk.poll(&mut watcher, at(0), true), None);
    disk.config = version(2);
    assert_eq!(disk.poll(&mut watcher, at(SETTLE), true), None);
    assert_eq!(
        disk.poll(&mut watcher, at(2 * SETTLE - 1), true),
        None,
        "the second edit has not settled"
    );
    assert_eq!(disk.poll(&mut watcher, at(2 * SETTLE), true), Some(true));
}

#[test]
fn an_outcome_does_not_count_when_a_file_changed_meanwhile() {
    let mut watcher = ConfigWatcher::new(CONFIG, None);
    let snapshot = |len: u64| Snapshot {
        config: version(len),
        themes: vec![],
    };
    assert_eq!(watcher.on_snapshot(snapshot(1), at(0)), PollStep::Idle);
    assert_eq!(
        watcher.on_snapshot(snapshot(1), at(SETTLE)),
        PollStep::Validate
    );
    assert!(!watcher.on_validated(snapshot(2), Some(None)));
    // What changed meanwhile settles by itself.
    assert_eq!(watcher.on_snapshot(snapshot(2), at(SETTLE)), PollStep::Idle);
    assert_eq!(
        watcher.on_snapshot(snapshot(2), at(2 * SETTLE)),
        PollStep::Validate
    );
    assert!(watcher.on_validated(snapshot(2), Some(None)));
}

#[test]
fn a_settled_watcher_needs_no_timer_and_an_idle_directory_no_wakeup() {
    let disk = Disk {
        config: version(1),
        document: Some("height = 30"),
        theme: Stamp::Missing,
    };
    let mut watcher = ConfigWatcher::new(CONFIG, None);
    watcher.set_watched(true);
    // Startup validates the on-disk state, asking for timer polls meanwhile.
    assert_eq!(disk.poll(&mut watcher, at(0), true), None);
    assert_eq!(watcher.next_poll(), Some(SETTLE_POLL));
    assert_eq!(disk.poll(&mut watcher, at(SETTLE), true), Some(true));
    assert_eq!(watcher.next_poll(), None);
}

#[test]
fn an_unwatchable_file_falls_back_to_timer_polling() {
    let disk = Disk {
        config: version(1),
        document: Some("height = 30"),
        theme: Stamp::Missing,
    };
    let mut watcher = ConfigWatcher::new(CONFIG, None);
    let mut now = 0;
    settled(&disk, &mut watcher, &mut now, true);
    assert_eq!(watcher.next_poll(), Some(FALLBACK_POLL));
}

#[test]
fn watchable_dir_climbs_to_the_nearest_existing_ancestor() {
    let exists = |dir: &str| dir == "/tmp/d" || dir == "/tmp" || dir == "/";
    assert_eq!(watchable_dir("/tmp/d/a/b/c.toml", exists), "/tmp/d");
    assert_eq!(watchable_dir("config.toml", |_: &str| false), ".");
}

#[test]
fn parents_are_one_name_shorter() {
    assert_eq!(parent("/a/b"), Some("/a"));
    assert_eq!(parent("/a"), Some("/"));
    assert_eq!(parent("/"), None);
    assert_eq!(parent("a"), Some(""));
    assert_eq!(parent(""), None);
}

#[test]
fn theme_files_stand_beside_the_configuration() {
    assert_eq!(
        resolve_theme_file("themes/dark.toml", CONFIG).as_deref(),
        Some("/c/themes/dark.toml")
    );
    assert_eq!(
        resolve_theme_file("/t/dark.toml", CONFIG).as_deref(),
        Some("/t/dark.toml")
    );
    assert_eq!(selected_theme(None, CONFIG), None);
    assert_eq!(
        selected_theme(Some("dark.toml"), CONFIG).as_deref(),
        Some("/c/dark.toml")
    );
}

#[test]
fn the_theme_is_found_in_a_document_that_is_otherwise_invalid() {
    assert_eq!(
        theme_of_document(
            Some("nonsense = 1\n[appearance]\ntheme_file = \"dark.toml\""),
            CONFIG
        )
        .as_deref(),
        Some("/c/dark.toml")
    );
    assert_eq!(
        theme_of_document(Some("[appearance]\ntheme_file = 3"), CONFIG),
        None
    );
    assert_eq!(theme_of_document(Some("not toml ="), CONFIG), None);
    assert_eq!(theme_of_document(None, CONFIG), None);
}

#[test]
fn watches_that_are_no_longer_needed_are_told() {
    let mut watches = DirWatches::new();
    assert!(watches.sync(&vec![Some(1), Some(2)]).is_empty());
    assert!(watches.complete());
    assert_eq!(watches.sync(&vec![Some(2), None]), vec![1]);
    assert!(!watches.complete());
    assert_eq!(watches.sync(&vec![Some(3)]), vec![2]);
    assert!(watches.complete());
}
