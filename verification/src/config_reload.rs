//! When the configuration is read again.
//!
//! The configuration file and the theme it selects are watched together, also the
//! theme of a configuration that was refused. Directory events say when to look;
//! what the files' stamps are decides whether anything changed. A change has to hold
//! still for a while before it is read, and what was read counts only if nothing
//! changed meanwhile.

use crate::config::path;
use crate::order;
use crate::probe;
use crate::text;
use crate::time::{Moment, MILLISECOND};
use vstd::prelude::*;
use vstd::string::StrSliceExecFns;

verus! {

/// How long a change must hold still before it is validated, in nanoseconds.
pub const SETTLE: u64 = 400 * MILLISECOND;

/// How often to look while a change is settling, in nanoseconds.
pub const SETTLE_POLL: u64 = 200 * MILLISECOND;

/// How often to look when not every file can be watched, in nanoseconds.
pub const FALLBACK_POLL: u64 = 500 * MILLISECOND;

/// The text that the TOML document `document` holds under `key` in its table
/// `table`: none when the document is malformed, or holds no text there.
pub uninterp spec fn toml_text_at(
    document: Seq<char>,
    table: Seq<char>,
    key: Seq<char>,
) -> Option<Seq<char>>;

/// Reads one text out of a TOML document, with the `toml` crate's `FromStr` for
/// `toml::Table`, its `Map::get`, `Value::get` and `Value::as_str`. Claimed is only
/// that what comes back is determined by the document and the two names.
#[verifier::external_body]
fn toml_text(document: &str, table: &str, key: &str) -> (text: Option<String>)
    ensures
        text::optional(text) == toml_text_at(document@, table@, key@),
{
    let parsed = document.parse::<toml::Table>().ok()?;
    parsed.get(table)?.get(key)?.as_str().map(str::to_owned)
}

/// A path without the slashes and single dots it ends with. The root stays.
pub open spec fn without_tail(p: Seq<char>) -> Seq<char>
    decreases p.len(),
{
    if p.len() > 1 && p.last() == '/' {
        without_tail(p.drop_last())
    } else if p.len() > 1 && p.last() == '.' && p[p.len() - 2] == '/' {
        without_tail(p.drop_last())
    } else {
        p
    }
}

/// A path without its last name; the slash before the name stays.
pub open spec fn without_name(p: Seq<char>) -> Seq<char>
    decreases p.len(),
{
    if p.len() > 0 && p.last() != '/' {
        without_name(p.drop_last())
    } else {
        p
    }
}

/// The directory that holds `p`: none for the root and for an empty path.
pub open spec fn parent_of(p: Seq<char>) -> Option<Seq<char>> {
    let p = without_tail(p);
    if p.len() == 0 || p == seq!['/'] {
        None
    } else {
        Some(without_tail(without_name(p)))
    }
}

proof fn lemma_without_tail(p: Seq<char>)
    ensures
        without_tail(p).len() <= p.len(),
        without_tail(p).len() > 1 ==> without_tail(p).last() != '/',
    decreases p.len(),
{
    if p.len() > 1 && (p.last() == '/' || (p.last() == '.' && p[p.len() - 2] == '/')) {
        lemma_without_tail(p.drop_last());
    }
}

proof fn lemma_without_name(p: Seq<char>)
    ensures
        without_name(p).len() <= p.len(),
        p.len() > 0 && p.last() != '/' ==> without_name(p).len() < p.len(),
    decreases p.len(),
{
    if p.len() > 0 && p.last() != '/' {
        lemma_without_name(p.drop_last());
    }
}

/// A directory's path is shorter than the path of what it holds.
pub proof fn lemma_parent_is_shorter(p: Seq<char>)
    ensures
        parent_of(p) matches Some(parent) ==> parent.len() < p.len(),
{
    let q = without_tail(p);
    lemma_without_tail(p);
    if q.len() > 0 && q != seq!['/'] {
        if q.len() == 1 && q.last() == '/' {
            assert(q =~= seq!['/']);
        }
        lemma_without_name(q);
        lemma_without_tail(without_name(q));
    }
}

fn strip_tail(p: &str) -> (rest: &str)
    ensures
        rest@ == without_tail(p@),
{
    let mut end: usize = p.unicode_len();
    assert(p@.take(end as int) =~= p@);
    while end > 1 && (p.get_char(end - 1) == '/' || (p.get_char(end - 1) == '.' && p.get_char(
        end - 2,
    ) == '/'))
        invariant
            end <= p@.len(),
            without_tail(p@) == without_tail(p@.take(end as int)),
        decreases end,
    {
        assert(p@.take(end as int).last() == p@[end - 1]);
        assert(p@.take(end as int)[end - 2] == p@[end - 2]);
        assert(p@.take(end as int).drop_last() =~= p@.take(end - 1));
        end -= 1;
    }
    assert(end > 1 ==> p@.take(end as int).last() == p@[end - 1]);
    assert(end > 1 ==> p@.take(end as int)[end - 2] == p@[end - 2]);
    p.substring_char(0, end)
}

/// The directory that holds `p`: none for the root and for an empty path.
pub fn parent(p: &str) -> (dir: Option<&str>)
    ensures
        text::optional_str(dir) == parent_of(p@),
{
    let p: &str = strip_tail(p);
    let mut end: usize = p.unicode_len();
    if end == 0 {
        return None;
    }
    if end == 1 && p.get_char(0) == '/' {
        assert(p@ =~= seq!['/']);
        return None;
    }
    assert(p@ != seq!['/']) by {
        if p@ == seq!['/'] {
            assert(p@.len() == 1 && p@[0] == '/');
        }
    }
    assert(p@.take(end as int) =~= p@);
    while end > 0 && p.get_char(end - 1) != '/'
        invariant
            end <= p@.len(),
            without_name(p@) == without_name(p@.take(end as int)),
        decreases end,
    {
        assert(p@.take(end as int).last() == p@[end - 1]);
        assert(p@.take(end as int).drop_last() =~= p@.take(end - 1));
        end -= 1;
    }
    assert(end > 0 ==> p@.take(end as int).last() == p@[end - 1]);
    Some(strip_tail(p.substring_char(0, end)))
}

/// Whether `found` is the closest directory at or above `dir`, and the current
/// directory where none is.
pub open spec fn climbs_to<F: Fn(&str) -> bool>(
    is_dir: F,
    dir: Seq<char>,
    found: Seq<char>,
) -> bool
    decreases dir.len(),
    via climbs_to_decreases::<F>
{
    if dir.len() == 0 {
        found == "."@
    } else {
        ||| probe::answers(is_dir, dir, true) && found == dir
        ||| probe::answers(is_dir, dir, false) && climbs_to(
            is_dir,
            match parent_of(dir) {
                Some(parent) => parent,
                None => seq![],
            },
            found,
        )
    }
}

#[via_fn]
proof fn climbs_to_decreases<F: Fn(&str) -> bool>(is_dir: F, dir: Seq<char>, found: Seq<char>) {
    lemma_parent_is_shorter(dir);
}

/// The directory to watch for `path`: the closest one there is at or above the one
/// that holds it, so that a file in a directory that does not exist yet is noticed
/// when that directory appears. `is_dir` says whether a path is a directory.
pub fn watchable_dir<F: Fn(&str) -> bool>(path: &str, is_dir: F) -> (found: String)
    requires
        probe::askable(is_dir),
    ensures
        climbs_to(
            is_dir,
            match parent_of(path@) {
                Some(parent) => parent,
                None => path@,
            },
            found@,
        ),
{
    let start: &str = match parent(path) {
        Some(dir) => dir,
        None => path,
    };
    closest_dir(start, &is_dir)
}

fn closest_dir<F: Fn(&str) -> bool>(dir: &str, is_dir: &F) -> (found: String)
    requires
        probe::askable(*is_dir),
    ensures
        climbs_to(*is_dir, dir@, found@),
    decreases dir@.len(),
{
    if dir.unicode_len() == 0 {
        return ".".to_owned();
    }
    if probe::ask(is_dir, dir) {
        return dir.to_owned();
    }
    proof {
        lemma_parent_is_shorter(dir@);
    }
    match parent(dir) {
        Some(above) => closest_dir(above, is_dir),
        None => {
            proof {
                assert(climbs_to(*is_dir, Seq::<char>::empty(), "."@));
                assert(parent_of(dir@) is None);
            }
            ".".to_owned()
        },
    }
}

/// Where the theme file that a configuration names is: relative to the directory of
/// the configuration file. An empty name is no file.
pub open spec fn theme_path(value: Seq<char>, config_path: Seq<char>) -> Option<Seq<char>> {
    if value.len() == 0 {
        None
    } else if value[0] == '/' {
        Some(value)
    } else {
        Some(
            path::below(
                match parent_of(config_path) {
                    Some(dir) => dir,
                    None => seq![],
                },
                value,
            ),
        )
    }
}

/// Resolve the theme file that the configuration at `config_path` names.
pub fn resolve_theme_file(value: &str, config_path: &str) -> (resolved: Option<String>)
    ensures
        text::optional(resolved) == theme_path(value@, config_path@),
{
    if value.unicode_len() == 0 {
        return None;
    }
    if value.get_char(0) == '/' {
        return Some(value.to_owned());
    }
    match parent(config_path) {
        Some(dir) => Some(path::join_below(dir, value)),
        None => {
            let alone: String = value.to_owned();
            assert(path::below(seq![], value@) =~= alone@);
            Some(alone)
        },
    }
}

/// Where the theme that a configuration selects is.
pub open spec fn selected_theme_path(
    selected: Option<Seq<char>>,
    config_path: Seq<char>,
) -> Option<Seq<char>> {
    match selected {
        Some(value) => theme_path(value, config_path),
        None => None,
    }
}

/// Where the theme is, given what the configuration selects.
pub fn selected_theme(selected: Option<&str>, config_path: &str) -> (resolved: Option<String>)
    ensures
        text::optional(resolved) == selected_theme_path(text::optional_str(selected), config_path@),
{
    match selected {
        Some(value) => resolve_theme_file(value, config_path),
        None => None,
    }
}

/// Where the theme is that the configuration text selects, if the text could be read
/// and is well-formed, whether or not it is a valid configuration.
pub fn theme_of_document(document: Option<&str>, config_path: &str) -> (resolved: Option<String>)
    ensures
        text::optional(resolved) == match document {
            Some(document) => selected_theme_path(
                toml_text_at(document@, "appearance"@, "theme_file"@),
                config_path@,
            ),
            None => None,
        },
{
    match document {
        Some(document) => {
            let selected: Option<String> = toml_text(document, "appearance", "theme_file");
            match &selected {
                Some(value) => selected_theme(Some(value.as_str()), config_path),
                None => None,
            }
        },
        None => None,
    }
}

/// What identifies a version of a file.
#[derive(Debug, Clone, Copy, PartialEq, Eq, Structural)]
pub enum Stamp {
    /// There is no such file.
    Missing,
    /// The device, the inode, the length, and when it was last changed.
    Present {
        dev: u64,
        ino: u64,
        len: u64,
        mtime: i64,
        mtime_nsec: i64,
        ctime: i64,
        ctime_nsec: i64,
    },
}

/// The stamps of the configuration file and of the themes it may depend on.
#[derive(Debug, PartialEq, Eq)]
pub struct Snapshot {
    /// The configuration file.
    pub config: Stamp,
    /// The themes.
    pub themes: Vec<(String, Stamp)>,
}

/// The contents of a [`Snapshot`].
#[verifier::ext_equal]
pub struct SnapshotView {
    /// The configuration file.
    pub config: Stamp,
    /// The themes.
    pub themes: Seq<(Seq<char>, Stamp)>,
}

/// The contents of a list of themes.
pub open spec fn theme_views(themes: Seq<(String, Stamp)>) -> Seq<(Seq<char>, Stamp)> {
    themes.map_values(|theme: (String, Stamp)| (theme.0@, theme.1))
}

impl View for Snapshot {
    type V = SnapshotView;

    open spec fn view(&self) -> SnapshotView {
        SnapshotView { config: self.config, themes: theme_views(self.themes@) }
    }
}

impl SnapshotView {
    /// Without the themes that are neither of the two.
    pub open spec fn depending_on(self, active: Option<Seq<char>>, candidate: Option<Seq<char>>)
        -> SnapshotView {
        SnapshotView {
            config: self.config,
            themes: self.themes.filter(
                |theme: (Seq<char>, Stamp)| active == Some(theme.0) || candidate == Some(theme.0),
            ),
        }
    }
}

impl Snapshot {
    /// Whether two snapshots are the same.
    pub fn same(&self, other: &Snapshot) -> (equal: bool)
        ensures
            equal == (self@ == other@),
    {
        if self.config != other.config || self.themes.len() != other.themes.len() {
            assert(self.themes@.len() != other.themes@.len() ==> self@.themes.len()
                != other@.themes.len());
            return false;
        }
        let mut i: usize = 0;
        while i < self.themes.len()
            invariant
                i <= self.themes@.len() == other.themes@.len(),
                forall|k: int| 0 <= k < i ==> #[trigger] self@.themes[k] == other@.themes[k],
            decreases self.themes@.len() - i,
        {
            if !text::same(self.themes[i].0.as_str(), other.themes[i].0.as_str())
                || self.themes[i].1 != other.themes[i].1 {
                assert(self@.themes[i as int] != other@.themes[i as int]);
                return false;
            }
            i += 1;
        }
        assert(self@.themes =~= other@.themes);
        true
    }
}

fn copy_themes(themes: &Vec<(String, Stamp)>) -> (copy: Vec<(String, Stamp)>)
    ensures
        theme_views(copy@) == theme_views(themes@),
{
    let mut copy: Vec<(String, Stamp)> = Vec::new();
    let mut i: usize = 0;
    while i < themes.len()
        invariant
            i <= themes@.len(),
            theme_views(copy@) == theme_views(themes@).take(i as int),
        decreases themes@.len() - i,
    {
        let ghost before = theme_views(copy@);
        copy.push((themes[i].0.clone(), themes[i].1));
        assert(theme_views(copy@) =~= before.push(theme_views(themes@)[i as int]));
        i += 1;
    }
    assert(theme_views(themes@).take(i as int) =~= theme_views(themes@));
    copy
}

impl Clone for Snapshot {
    fn clone(&self) -> (copy: Self)
        ensures
            copy@ == self@,
    {
        Snapshot { config: self.config, themes: copy_themes(&self.themes) }
    }
}

/// The directories that are watched.
///
/// Directories rather than files: editors save by renaming a new file over the old
/// one, which a watch on the old file would never report.
#[derive(Debug, PartialEq, Eq)]
pub struct DirWatches {
    watched: Vec<i32>,
    complete: bool,
}

impl View for DirWatches {
    type V = (Seq<i32>, bool);

    closed spec fn view(&self) -> (Seq<i32>, bool) {
        (self.watched@, self.complete)
    }
}

/// The watches among some attempts to place one.
pub open spec fn placed(attempts: Seq<Option<i32>>) -> Seq<i32>
    decreases attempts.len(),
{
    if attempts.len() == 0 {
        seq![]
    } else {
        match attempts.last() {
            Some(watch) => placed(attempts.drop_last()).push(watch),
            None => placed(attempts.drop_last()),
        }
    }
}

fn listed(watches: &Vec<i32>, watch: i32) -> (found: bool)
    ensures
        found == watches@.contains(watch),
{
    let mut i: usize = 0;
    while i < watches.len()
        invariant
            i <= watches@.len(),
            forall|j: int| 0 <= j < i ==> #[trigger] watches@[j] != watch,
        decreases watches@.len() - i,
    {
        if watches[i] == watch {
            return true;
        }
        i += 1;
    }
    false
}

impl DirWatches {
    /// Nothing watched yet.
    pub fn new() -> (watches: Self)
        ensures
            watches@ == (Seq::<i32>::empty(), false),
    {
        DirWatches { watched: Vec::new(), complete: false }
    }

    /// Whether every directory asked for is watched.
    pub fn complete(&self) -> (complete: bool)
        ensures
            complete == self@.1,
    {
        self.complete
    }

    /// A watch was placed on each directory asked for, or could not be: the watches
    /// that are no longer wanted. Placing a watch anew gives the same one, and
    /// revives it where its directory was removed and made again.
    pub fn sync(&mut self, attempts: &Vec<Option<i32>>) -> (stale: Vec<i32>)
        ensures
            final(self)@.0 == placed(attempts@),
            final(self)@.1 == forall|i: int|
                0 <= i < attempts@.len() ==> (#[trigger] attempts@[i]) is Some,
            stale@ == old(self)@.0.filter(|watch: i32| !placed(attempts@).contains(watch)),
    {
        let mut watched: Vec<i32> = Vec::new();
        let mut complete: bool = true;
        let mut i: usize = 0;
        while i < attempts.len()
            invariant
                i <= attempts@.len(),
                watched@ == placed(attempts@.take(i as int)),
                complete == forall|j: int| 0 <= j < i ==> (#[trigger] attempts@[j]) is Some,
            decreases attempts@.len() - i,
        {
            let ghost part = attempts@.take(i + 1);
            assert(part.last() == attempts@[i as int]);
            assert(part.drop_last() =~= attempts@.take(i as int));
            match attempts[i] {
                Some(watch) => {
                    watched.push(watch);
                },
                None => {
                    complete = false;
                },
            }
            i += 1;
        }
        assert(attempts@.take(i as int) =~= attempts@);
        let ghost unwanted = |watch: i32| !placed(attempts@).contains(watch);
        let mut stale: Vec<i32> = Vec::new();
        let mut k: usize = 0;
        proof {
            reveal(Seq::filter);
            assert(self.watched@.take(0).filter(unwanted) =~= Seq::<i32>::empty());
        }
        while k < self.watched.len()
            invariant
                k <= self.watched@.len(),
                watched@ == placed(attempts@),
                unwanted == (|watch: i32| !placed(attempts@).contains(watch)),
                stale@ == self.watched@.take(k as int).filter(unwanted),
            decreases self.watched@.len() - k,
        {
            let watch: i32 = self.watched[k];
            let ghost part = self.watched@.take(k + 1);
            proof {
                reveal(Seq::filter);
                assert(part.last() == watch);
                assert(part.drop_last() =~= self.watched@.take(k as int));
            }
            if !listed(&watched, watch) {
                stale.push(watch);
            }
            k += 1;
        }
        assert(self.watched@.take(k as int) =~= self.watched@);
        self.watched = watched;
        self.complete = complete;
        stale
    }
}

/// What to do after looking at the files.
#[derive(Debug, Clone, Copy, PartialEq, Eq, Structural)]
pub enum PollStep {
    /// Nothing, for now.
    Idle,
    /// Read and validate the configuration.
    Validate,
}

/// Watches the configuration file and its theme.
pub struct ConfigWatcher {
    path: String,
    active_theme: Option<String>,
    candidate_theme: Option<String>,
    scanned: Option<Stamp>,
    observed: Option<Snapshot>,
    pending: Option<(Snapshot, Moment)>,
    watched: bool,
}

/// The contents of a [`ConfigWatcher`].
#[verifier::ext_equal]
pub struct ConfigWatcherView {
    /// Where the configuration file is.
    pub path: Seq<char>,
    /// Where the theme in use is.
    pub active_theme: Option<Seq<char>>,
    /// Where the theme is that the configuration file names.
    pub candidate_theme: Option<Seq<char>>,
    /// The version of the configuration file that was searched for a theme.
    pub scanned: Option<Stamp>,
    /// What was last validated.
    pub observed: Option<SnapshotView>,
    /// A change that is settling, and since when.
    pub pending: Option<(SnapshotView, Moment)>,
    /// Whether every file is watched.
    pub watched: bool,
}

/// The contents of an optional snapshot.
pub open spec fn snapshot_view(snapshot: Option<Snapshot>) -> Option<SnapshotView> {
    match snapshot {
        Some(snapshot) => Some(snapshot@),
        None => None,
    }
}

/// The contents of an optional settling change.
pub open spec fn pending_view(pending: Option<(Snapshot, Moment)>) -> Option<
    (SnapshotView, Moment),
> {
    match pending {
        Some((snapshot, since)) => Some((snapshot@, since)),
        None => None,
    }
}

impl View for ConfigWatcher {
    type V = ConfigWatcherView;

    closed spec fn view(&self) -> ConfigWatcherView {
        ConfigWatcherView {
            path: self.path@,
            active_theme: text::optional(self.active_theme),
            candidate_theme: text::optional(self.candidate_theme),
            scanned: self.scanned,
            observed: snapshot_view(self.observed),
            pending: pending_view(self.pending),
            watched: self.watched,
        }
    }
}

/// The paths there are among two.
pub open spec fn present(a: Option<Seq<char>>, b: Option<Seq<char>>) -> Seq<Seq<char>> {
    let first = match a {
        Some(a) => seq![a],
        None => seq![],
    };
    match b {
        Some(b) => first.push(b),
        None => first,
    }
}

impl ConfigWatcherView {
    /// Whether the change that settles is `snapshot`, and has settled by `now`.
    pub open spec fn has_settled(self, snapshot: SnapshotView, now: Moment) -> bool {
        self.pending matches Some((pending, since)) && pending == snapshot && now.since_spec(since)
            >= SETTLE
    }
}

impl ConfigWatcher {
    /// Watch the configuration file at `path`, which selects the theme
    /// `theme_file`. What is on disk is validated first, so that an edit between
    /// reading the configuration and now is not missed.
    pub fn new(path: &str, theme_file: Option<&str>) -> (watcher: Self)
        ensures
            watcher@ == (ConfigWatcherView {
                path: path@,
                active_theme: selected_theme_path(text::optional_str(theme_file), path@),
                candidate_theme: None,
                scanned: None,
                observed: None,
                pending: None,
                watched: false,
            }),
    {
        ConfigWatcher {
            path: path.to_owned(),
            active_theme: selected_theme(theme_file, path),
            candidate_theme: None,
            scanned: None,
            observed: None,
            pending: None,
            watched: false,
        }
    }

    /// Where the configuration file is.
    pub fn path(&self) -> (path: &str)
        ensures
            path@ == self@.path,
    {
        self.path.as_str()
    }

    /// The files whose directories are to be watched: the configuration file, the
    /// theme in use, and the theme that the configuration file names.
    pub fn watched_files(&self) -> (files: Vec<String>)
        ensures
            text::list(files@) == seq![self@.path] + present(
                self@.active_theme,
                self@.candidate_theme,
            ),
    {
        let mut files: Vec<String> = Vec::new();
        files.push(self.path.clone());
        assert(text::list(files@) =~= seq![self@.path]);
        match &self.active_theme {
            Some(theme) => {
                files.push(theme.clone());
            },
            None => {},
        }
        match &self.candidate_theme {
            Some(theme) => {
                files.push(theme.clone());
            },
            None => {},
        }
        assert(text::list(files@) =~= seq![self@.path] + present(
            self@.active_theme,
            self@.candidate_theme,
        ));
        files
    }

    /// Whether the directories of all files are watched.
    pub fn set_watched(&mut self, watched: bool)
        ensures
            final(self)@ == (ConfigWatcherView { watched, ..old(self)@ }),
    {
        self.watched = watched;
    }

    /// When to look next without a directory event, in nanoseconds from now: soon
    /// while a change settles, now and then if some file cannot be watched, and
    /// otherwise not at all.
    pub fn next_poll(&self) -> (delay: Option<u64>)
        ensures
            delay == if self@.pending is Some {
                Some(SETTLE_POLL)
            } else if self@.watched {
                None
            } else {
                Some(FALLBACK_POLL)
            },
    {
        if self.pending.is_some() {
            Some(SETTLE_POLL)
        } else if self.watched {
            None
        } else {
            Some(FALLBACK_POLL)
        }
    }

    /// Whether the configuration file has to be searched for its theme: when it is
    /// not the version that was searched last.
    pub fn needs_scan(&self, config: Stamp) -> (needed: bool)
        ensures
            needed == (self@.scanned != Some(config)),
    {
        match self.scanned {
            Some(scanned) => scanned != config,
            None => true,
        }
    }

    /// The version `config` of the configuration file was read, or could not be.
    pub fn scanned(&mut self, config: Stamp, document: Option<&str>)
        ensures
            final(self)@ == (ConfigWatcherView {
                candidate_theme: match document {
                    Some(document) => selected_theme_path(
                        toml_text_at(document@, "appearance"@, "theme_file"@),
                        old(self)@.path,
                    ),
                    None => None,
                },
                scanned: Some(config),
                ..old(self)@
            }),
    {
        self.candidate_theme = theme_of_document(document, self.path.as_str());
        self.scanned = Some(config);
    }

    /// The themes whose stamps belong in a snapshot, in order and each once.
    pub fn theme_files(&self) -> (files: Vec<String>)
        ensures
            order::is_normal_form(
                text::list(files@),
                present(self@.active_theme, self@.candidate_theme),
            ),
    {
        let mut files: Vec<String> = Vec::new();
        match &self.active_theme {
            Some(theme) => {
                files.push(theme.clone());
            },
            None => {},
        }
        match &self.candidate_theme {
            Some(theme) => {
                files.push(theme.clone());
            },
            None => {},
        }
        assert(text::list(files@) =~= present(self@.active_theme, self@.candidate_theme));
        order::sorted_distinct(&files)
    }

    /// The files were looked at: a change is validated once it has been the same
    /// for [`SETTLE`].
    pub fn on_snapshot(&mut self, snapshot: Snapshot, now: Moment) -> (step: PollStep)
        ensures
            if old(self)@.observed == Some(snapshot@) {
                step == PollStep::Idle && final(self)@ == (ConfigWatcherView {
                    pending: None,
                    ..old(self)@
                })
            } else if old(self)@.has_settled(snapshot@, now) {
                step == PollStep::Validate && final(self)@ == old(self)@
            } else {
                step == PollStep::Idle && final(self)@ == (ConfigWatcherView {
                    pending: if old(self)@.pending matches Some((pending, since)) && pending
                        == snapshot@ {
                        old(self)@.pending
                    } else {
                        Some((snapshot@, now))
                    },
                    ..old(self)@
                })
            },
    {
        let known: bool = match &self.observed {
            Some(observed) => observed.same(&snapshot),
            None => false,
        };
        if known {
            self.pending = None;
            return PollStep::Idle;
        }
        let settling: Option<Moment> = match &self.pending {
            Some((pending, since)) => if pending.same(&snapshot) {
                Some(*since)
            } else {
                None
            },
            None => None,
        };
        match settling {
            Some(since) => if now.since(since) < SETTLE {
                PollStep::Idle
            } else {
                PollStep::Validate
            },
            None => {
                self.pending = Some((snapshot, now));
                PollStep::Idle
            },
        }
    }

    /// The configuration was validated, and the files were looked at again: true
    /// when the outcome counts.
    ///
    /// It does not when a file changed meanwhile. `accepted` holds the theme file of
    /// a valid configuration, if it names one. The former theme is given up only
    /// after a switch succeeded.
    pub fn on_validated(&mut self, after: Snapshot, accepted: Option<Option<&str>>) -> (counts:
        bool)
        ensures
            counts == (old(self)@.pending matches Some((pending, _)) && pending == after@),
            !counts ==> final(self)@ == (ConfigWatcherView { pending: None, ..old(self)@ }),
            counts ==> {
                let active_theme = match accepted {
                    Some(theme_file) => selected_theme_path(
                        text::optional_str(theme_file),
                        old(self)@.path,
                    ),
                    None => old(self)@.active_theme,
                };
                final(self)@ == (ConfigWatcherView {
                    active_theme,
                    observed: Some(
                        after@.depending_on(active_theme, old(self)@.candidate_theme),
                    ),
                    pending: None,
                    ..old(self)@
                })
            },
    {
        let unchanged: bool = match &self.pending {
            Some((pending, _)) => pending.same(&after),
            None => false,
        };
        self.pending = None;
        if !unchanged {
            return false;
        }
        match accepted {
            Some(theme_file) => {
                self.active_theme = selected_theme(theme_file, self.path.as_str());
            },
            None => {},
        }
        let themes: Vec<(String, Stamp)> = retained(
            &after.themes,
            &self.active_theme,
            &self.candidate_theme,
        );
        self.observed = Some(Snapshot { config: after.config, themes });
        true
    }
}

/// Whether `path` is the one there may be.
fn is_path(path: &str, expected: &Option<String>) -> (yes: bool)
    ensures
        yes == (text::optional(*expected) == Some(path@)),
{
    match expected {
        Some(expected) => text::same(path, expected.as_str()),
        None => false,
    }
}

/// The themes that are one of the two.
fn retained(
    themes: &Vec<(String, Stamp)>,
    active: &Option<String>,
    candidate: &Option<String>,
) -> (kept: Vec<(String, Stamp)>)
    ensures
        theme_views(kept@) == theme_views(themes@).filter(
            |theme: (Seq<char>, Stamp)|
                text::optional(*active) == Some(theme.0) || text::optional(*candidate) == Some(
                    theme.0,
                ),
        ),
{
    let ghost wanted = |theme: (Seq<char>, Stamp)|
        text::optional(*active) == Some(theme.0) || text::optional(*candidate) == Some(theme.0);
    let ghost all = theme_views(themes@);
    let mut kept: Vec<(String, Stamp)> = Vec::new();
    let mut i: usize = 0;
    proof {
        reveal(Seq::filter);
        assert(all.take(0).filter(wanted) =~= seq![]);
        assert(theme_views(kept@) =~= seq![]);
    }
    while i < themes.len()
        invariant
            i <= themes@.len(),
            all == theme_views(themes@),
            wanted == (|theme: (Seq<char>, Stamp)|
                text::optional(*active) == Some(theme.0) || text::optional(*candidate) == Some(
                    theme.0,
                )),
            theme_views(kept@) == all.take(i as int).filter(wanted),
        decreases themes@.len() - i,
    {
        let ghost part = all.take(i + 1);
        let ghost before = theme_views(kept@);
        proof {
            reveal(Seq::filter);
            assert(part.last() == all[i as int]);
            assert(part.drop_last() =~= all.take(i as int));
        }
        let theme: &str = themes[i].0.as_str();
        if is_path(theme, active) || is_path(theme, candidate) {
            kept.push((themes[i].0.clone(), themes[i].1));
            assert(theme_views(kept@) =~= before.push(all[i as int]));
        }
        i += 1;
    }
    assert(all.take(i as int) =~= all);
    kept
}

/// After an outcome counted, looking at the same files again, with the themes that
/// are still of interest, asks for nothing: an outcome is handed out once per edit.
pub proof fn lemma_one_outcome_per_edit(
    watcher: ConfigWatcherView,
    after: SnapshotView,
    active_theme: Option<Seq<char>>,
    again: SnapshotView,
)
    requires
        watcher.observed == Some(after.depending_on(active_theme, watcher.candidate_theme)),
        watcher.active_theme == active_theme,
        again.config == after.config,
        forall|i: int|
            0 <= i < after.themes.len() ==> Some((#[trigger] after.themes[i]).0) == active_theme
                || Some(after.themes[i].0) == watcher.candidate_theme,
        again.themes == after.themes,
    ensures
        watcher.observed == Some(again),
{
    let wanted = |theme: (Seq<char>, Stamp)|
        active_theme == Some(theme.0) || watcher.candidate_theme == Some(theme.0);
    lemma_filter_keeps_all(after.themes, wanted);
    assert(after.depending_on(active_theme, watcher.candidate_theme) =~= again);
}

proof fn lemma_filter_keeps_all(
    themes: Seq<(Seq<char>, Stamp)>,
    wanted: spec_fn((Seq<char>, Stamp)) -> bool,
)
    requires
        forall|i: int| 0 <= i < themes.len() ==> wanted(#[trigger] themes[i]),
    ensures
        themes.filter(wanted) == themes,
    decreases themes.len(),
{
    reveal(Seq::filter);
    if themes.len() > 0 {
        lemma_filter_keeps_all(themes.drop_last(), wanted);
        assert(themes =~= themes.drop_last().push(themes.last()));
    }
}

/// The directory of a file is what stands before the last slash of its path, and a name
/// without a slash has the current one.
pub proof fn lemma_a_file_lies_in_its_directory(
    path: &str,
    dir: Option<&str>,
    above: Seq<char>,
    name: Seq<char>,
)
    requires
        call_ensures(parent, (path,), dir),
        name.len() > 0,
        !name.contains('/'),
        name.last() != '.',
    ensures
        path@ == above + seq!['/'] + name && above.len() > 0 && above.last() != '/' && above.last()
            != '.' ==> dir is Some && dir->0@ == above,
        path@ == seq!['/'] + name ==> dir is Some && dir->0@ == seq!['/'],
        path@ == name ==> dir is Some && dir->0@.len() == 0,
{
    let p = path@;
    if p == above + seq!['/'] + name && above.len() > 0 && above.last() != '/' && above.last()
        != '.' {
        assert(p.last() == name.last());
        assert(name.contains(name.last()));
        assert(without_tail(p) == p);
        lemma_name_cut(above + seq!['/'], name);
        let cut = above + seq!['/'];
        assert(cut.last() == '/');
        assert(cut.drop_last() =~= above);
        assert(p[0] == above[0]);
        assert(p.len() > 1);
        assert(without_tail(cut) == without_tail(above));
        assert(without_tail(above) == above);
    }
    if p == seq!['/'] + name {
        assert(p.last() == name.last());
        assert(name.contains(name.last()));
        assert(without_tail(p) == p);
        lemma_name_cut(seq!['/'], name);
        assert(p.len() > 1);
        assert(without_tail(seq!['/']) == seq!['/']);
    }
    if p == name {
        assert(name.contains(name.last()));
        assert(without_tail(p) == p);
        assert(Seq::<char>::empty() + name =~= name);
        lemma_name_cut(Seq::empty(), name);
        if p == seq!['/'] {
            assert(name[0] == '/');
            assert(name.contains(name[0]));
        }
    }
}

proof fn lemma_name_cut(above: Seq<char>, name: Seq<char>)
    requires
        !name.contains('/'),
        above.len() == 0 || above.last() == '/',
    ensures
        without_name(above + name) == above,
    decreases name.len(),
{
    let p = above + name;
    if name.len() > 0 {
        let init = name.drop_last();
        assert(name.contains(name.last()));
        assert(p.last() == name.last());
        assert(p.drop_last() =~= above + init);
        if init.contains('/') {
            let i = choose|i: int| 0 <= i < init.len() && init[i] == '/';
            assert(name[i] == '/');
            assert(name.contains(name[i]));
        }
        lemma_name_cut(above, init);
    } else {
        assert(p =~= above);
    }
}

/// A theme with an absolute path is there, a relative one lies beside the configuration
/// file, and an empty name is no theme.
pub proof fn lemma_a_theme_lies_beside_the_configuration(
    value: &str,
    config_path: &str,
    resolved: Option<String>,
    dir: Option<&str>,
    beside: String,
)
    requires
        call_ensures(resolve_theme_file, (value, config_path), resolved),
        call_ensures(parent, (config_path,), dir),
        dir is Some,
        call_ensures(path::join_below, (dir->0, value), beside),
    ensures
        value@.len() == 0 ==> resolved is None,
        value@.len() > 0 && value@[0] == '/' ==> resolved is Some && resolved->0@ == value@,
        value@.len() > 0 && value@[0] != '/' ==> resolved is Some && resolved->0@ == beside@,
{
}

/// Snapshots are the same exactly when the configuration file and each theme are the same
/// version.
pub proof fn lemma_same_snapshots_agree(a: Snapshot, b: Snapshot, equal: bool, i: int)
    requires
        call_ensures(Snapshot::same, (&a, &b), equal),
    ensures
        equal ==> a.config == b.config && a.themes@.len() == b.themes@.len(),
        equal && 0 <= i < a.themes@.len() ==> a.themes@[i].0@ == b.themes@[i].0@ && a.themes@[i].1
            == b.themes@[i].1,
        a.config != b.config ==> !equal,
        0 <= i < a.themes@.len() && i < b.themes@.len() && a.themes@[i].1 != b.themes@[i].1
            ==> !equal,
{
    assert(a@.themes.len() == a.themes@.len());
    assert(b@.themes.len() == b.themes@.len());
    if 0 <= i < a.themes@.len() && i < b.themes@.len() {
        assert(a@.themes[i] == (a.themes@[i].0@, a.themes@[i].1));
        assert(b@.themes[i] == (b.themes@[i].0@, b.themes@[i].1));
    }
}

/// Watches that were placed are kept and the others are given back; the watch is complete
/// exactly when none failed.
pub proof fn lemma_unwanted_watches_are_given_back(
    watches: &mut DirWatches,
    attempts: Vec<Option<i32>>,
    stale: Vec<i32>,
    watch: i32,
)
    requires
        call_ensures(DirWatches::sync, (watches, &attempts), stale),
    ensures
        final(watches)@.0.contains(watch) <==> attempts@.contains(Some(watch)),
        stale@.contains(watch) <==> old(watches)@.0.contains(watch) && !attempts@.contains(
            Some(watch),
        ),
        final(watches)@.1 <==> !attempts@.contains(None),
{
    lemma_placed(attempts@, watch);
    let wanted = placed(attempts@);
    let unwanted = |w: i32| !wanted.contains(w);
    lemma_filtered(watches@.0, unwanted, watch);
    assert(unwanted =~= |w: i32| !placed(attempts@).contains(w));
    if attempts@.contains(None) {
        let i = choose|i: int| 0 <= i < attempts@.len() && attempts@[i] == None::<i32>;
        assert(!(attempts@[i] is Some));
    }
    if !(forall|i: int| 0 <= i < attempts@.len() ==> (#[trigger] attempts@[i]) is Some) {
        let i = choose|i: int| 0 <= i < attempts@.len() && !((#[trigger] attempts@[i]) is Some);
        assert(attempts@[i] == None::<i32>);
    }
}

proof fn lemma_placed(attempts: Seq<Option<i32>>, watch: i32)
    ensures
        placed(attempts).contains(watch) <==> attempts.contains(Some(watch)),
    decreases attempts.len(),
{
    if attempts.len() > 0 {
        let init = attempts.drop_last();
        lemma_placed(init, watch);
        let before = placed(init);
        assert(attempts[attempts.len() - 1] == attempts.last());
        if attempts.contains(Some(watch)) {
            let i = choose|i: int| 0 <= i < attempts.len() && attempts[i] == Some(watch);
            if i < init.len() {
                assert(init[i] == Some(watch));
                let k = choose|k: int| 0 <= k < before.len() && before[k] == watch;
                assert(placed(attempts)[k] == watch);
            } else {
                assert(placed(attempts)[before.len() as int] == watch);
            }
        }
        if placed(attempts).contains(watch) {
            let k = choose|k: int| 0 <= k < placed(attempts).len() && placed(attempts)[k] == watch;
            if k < before.len() {
                assert(before[k] == watch);
                let i = choose|i: int| 0 <= i < init.len() && init[i] == Some(watch);
                assert(attempts[i] == Some(watch));
            }
        }
    }
}

proof fn lemma_filtered(list: Seq<i32>, keep: spec_fn(i32) -> bool, x: i32)
    ensures
        list.filter(keep).contains(x) <==> list.contains(x) && keep(x),
    decreases list.len(),
{
    reveal(Seq::filter);
    if list.len() > 0 {
        let init = list.drop_last();
        lemma_filtered(init, keep, x);
        let kept = init.filter(keep);
        let all = list.filter(keep);
        assert(all == if keep(list.last()) {
            kept.push(list.last())
        } else {
            kept
        });
        if list.contains(x) && keep(x) {
            let i = choose|i: int| 0 <= i < list.len() && list[i] == x;
            if i < init.len() {
                assert(init[i] == x);
                let k = choose|k: int| 0 <= k < kept.len() && kept[k] == x;
                assert(all[k] == x);
            } else {
                assert(all[kept.len() as int] == x);
            }
        }
        if all.contains(x) {
            let k = choose|k: int| 0 <= k < all.len() && all[k] == x;
            if k < kept.len() {
                assert(kept[k] == x);
                let i = choose|i: int| 0 <= i < init.len() && init[i] == x;
                assert(list[i] == x);
            } else {
                assert(list[list.len() - 1] == x);
            }
        }
    }
}

/// A change is looked at again soon while it settles, now and then where a file cannot be
/// watched, and otherwise not before something happens.
pub proof fn lemma_files_are_looked_at_as_they_need(watcher: ConfigWatcher, delay: Option<u64>)
    requires
        call_ensures(ConfigWatcher::next_poll, (&watcher,), delay),
    ensures
        watcher@.pending is Some ==> delay == Some(200_000_000u64),
        watcher@.pending is None && watcher@.watched ==> delay is None,
        watcher@.pending is None && !watcher@.watched ==> delay == Some(500_000_000u64),
{
}

/// A change is validated once it has been the same for 400 milliseconds, and not before;
/// another change begins anew, and what was validated already is no change.
pub proof fn lemma_a_change_has_to_settle(
    watcher: &mut ConfigWatcher,
    snapshot: Snapshot,
    now: Moment,
    step: PollStep,
)
    requires
        call_ensures(ConfigWatcher::on_snapshot, (watcher, snapshot, now), step),
    ensures
        ({
            let before = old(watcher)@;
            let known = before.observed is Some && before.observed->0 == snapshot@;
            let same = before.pending matches Some((pending, since)) && pending == snapshot@;
            &&& step == PollStep::Validate <==> !known && same && (
            before.pending matches Some((pending, since)) && now.nanos >= since.nanos + 400_000_000)
            &&& known ==> final(watcher)@.pending is None
            &&& !known && same ==> final(watcher)@.pending == before.pending
            &&& !known && !same ==> final(watcher)@.pending == Some((snapshot@, now))
            &&& final(watcher)@.observed == before.observed
            &&& final(watcher)@.active_theme == before.active_theme
        }),
{
}

/// An outcome counts exactly when no file changed meanwhile. A theme takes the place of the
/// one in use only with a valid configuration.
pub proof fn lemma_a_theme_changes_with_a_valid_configuration(
    watcher: &mut ConfigWatcher,
    after: Snapshot,
    accepted: Option<Option<&str>>,
    counts: bool,
)
    requires
        call_ensures(ConfigWatcher::on_validated, (watcher, after, accepted), counts),
    ensures
        counts <==> (old(watcher)@.pending matches Some((pending, since)) && pending == after@),
        final(watcher)@.pending is None,
        !counts || accepted is None ==> final(watcher)@.active_theme == old(watcher)@.active_theme,
        !counts ==> final(watcher)@.observed == old(watcher)@.observed,
        counts ==> final(watcher)@.observed is Some && final(watcher)@.observed->0.config
            == after.config,
        counts && accepted is Some && accepted->0 is None ==> final(watcher)@.active_theme is None,
        counts && accepted is Some && accepted->0 is Some && accepted->0->0@.len() > 0
            && accepted->0->0@[0] == '/' ==> final(watcher)@.active_theme == Some(
            accepted->0->0@,
        ),
        final(watcher)@.candidate_theme == old(watcher)@.candidate_theme,
        final(watcher)@.path == old(watcher)@.path,
{
}

/// The configuration file is searched for its theme once for each version of it.
pub proof fn lemma_each_version_is_searched_once(
    watcher: &mut ConfigWatcher,
    config: Stamp,
    document: Option<&str>,
    after: ConfigWatcher,
    other: Stamp,
    needed: bool,
)
    requires
        call_ensures(ConfigWatcher::scanned, (watcher, config, document), ()),
        after == *final(watcher),
        call_ensures(ConfigWatcher::needs_scan, (&after, other), needed),
    ensures
        needed <==> other != config,
        document is None ==> final(watcher)@.candidate_theme is None,
        final(watcher)@.active_theme == old(watcher)@.active_theme,
        final(watcher)@.pending == old(watcher)@.pending,
{
}

/// A watcher begins with the theme that is in use, and looks at the configuration first.
pub proof fn lemma_a_watcher_begins_with_its_theme(
    path: &str,
    theme: Option<&str>,
    watcher: ConfigWatcher,
    where_is: &str,
    config: Stamp,
    needed: bool,
    files: Vec<String>,
)
    requires
        call_ensures(ConfigWatcher::new, (path, theme), watcher),
        call_ensures(ConfigWatcher::path, (&watcher,), where_is),
        call_ensures(ConfigWatcher::needs_scan, (&watcher, config), needed),
        call_ensures(ConfigWatcher::watched_files, (&watcher,), files),
    ensures
        where_is@ == path@,
        needed,
        watcher@.pending is None,
        watcher@.observed is None,
        !watcher@.watched,
        theme is None ==> watcher@.active_theme is None && files@.len() == 1,
        theme is Some && theme->0@.len() > 0 && theme->0@[0] == '/' ==> files@.len() == 2
            && files@[1]@ == theme->0@,
        files@.len() >= 1 && files@[0]@ == path@,
{
    let shown = text::list(files@);
    assert(shown.len() == files@.len());
    assert(shown[0] == files@[0]@);
    if theme is Some && theme->0@.len() > 0 && theme->0@[0] == '/' {
        assert(shown[1] == files@[1]@);
    }
}

/// The theme of a document is the one that its appearance table names, and there is none in
/// a document that could not be read.
pub proof fn lemma_a_document_names_its_theme(
    document: &str,
    config_path: &str,
    resolved: Option<String>,
    unread: Option<String>,
    named: &str,
    expected: Option<String>,
)
    requires
        call_ensures(theme_of_document, (Some(document), config_path), resolved),
        call_ensures(theme_of_document, (None, config_path), unread),
        call_ensures(resolve_theme_file, (named, config_path), expected),
    ensures
        unread is None,
        toml_text_at(document@, "appearance"@, "theme_file"@) is None ==> resolved is None,
        toml_text_at(document@, "appearance"@, "theme_file"@) == Some(named@) ==> (resolved is Some
            <==> expected is Some),
        toml_text_at(document@, "appearance"@, "theme_file"@) == Some(named@) && resolved is Some
            ==> resolved->0@ == expected->0@,
{
}

/// The themes that are stamped are those in use and those named, in order and each once.
pub proof fn lemma_both_themes_are_stamped(watcher: ConfigWatcher, files: Vec<String>, i: int)
    requires
        call_ensures(ConfigWatcher::theme_files, (&watcher,), files),
    ensures
        watcher@.active_theme is Some ==> text::list(files@).contains(watcher@.active_theme->0),
        watcher@.candidate_theme is Some ==> text::list(files@).contains(
            watcher@.candidate_theme->0,
        ),
        0 <= i < files@.len() ==> watcher@.active_theme == Some(files@[i]@)
            || watcher@.candidate_theme == Some(files@[i]@),
        0 < i < files@.len() ==> text::precedes(files@[i - 1]@, files@[i]@),
{
    let shown = text::list(files@);
    let wanted = present(watcher@.active_theme, watcher@.candidate_theme);
    assert(shown.len() == files@.len());
    if watcher@.active_theme is Some {
        assert(wanted[0] == watcher@.active_theme->0);
        assert(wanted.contains(wanted[0]));
    }
    if watcher@.candidate_theme is Some {
        assert(wanted[wanted.len() - 1] == watcher@.candidate_theme->0);
        assert(wanted.contains(wanted[wanted.len() - 1]));
    }
    if 0 <= i < files@.len() {
        assert(shown[i] == files@[i]@);
        assert(shown.contains(shown[i]));
        assert(wanted.contains(shown[i]));
        if i > 0 {
            assert(shown[i - 1] == files@[i - 1]@);
            assert(text::precedes(shown[i - 1], shown[i]));
        }
    }
}

/// The directory of a file is watched where it is one, and the one above it where it is not
/// but that one is.
pub proof fn lemma_the_closest_directory_is_watched<F: Fn(&str) -> bool>(
    path: &str,
    is_dir: F,
    found: String,
    dir: Option<&str>,
    above: Option<&str>,
)
    requires
        call_ensures(watchable_dir::<F>, (path, is_dir), found),
        call_ensures(parent, (path,), dir),
        dir is Some,
        dir->0@.len() > 0,
        call_ensures(parent, (dir->0,), above),
    ensures
        !probe::answers(is_dir, dir->0@, false) ==> found@ == dir->0@,
        !probe::answers(is_dir, dir->0@, true) && above is Some && above->0@.len() > 0
            && !probe::answers(is_dir, above->0@, false) ==> found@ == above->0@,
        !probe::answers(is_dir, dir->0@, true) && above is Some && above->0@.len() == 0
            ==> found@ == "."@,
{
    reveal_with_fuel(climbs_to, 3);
}

} // verus!
