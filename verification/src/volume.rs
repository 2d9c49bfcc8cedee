//! The volume of the active audio output, from what a PipeWire server reports.
//!
//! A server may offer many outputs; the bar shows one. A running output wins, by
//! name where several run; without one the configured default output wins; without
//! that the first output by name. Every report re-evaluates the choice, and a
//! reading is sent when it differs from the last one sent, and now and then
//! regardless, so that a lost reading does not stay lost.

use crate::indexed;
use crate::text;
use crate::time::SECOND;
use crate::widget::{self, DeviceKind, Volume, VolumeView};
use std::collections::HashMap;
use vstd::prelude::*;

verus! {

/// How often the cached server state is polled, in nanoseconds.
pub const DEFAULT_INTERVAL: u64 = 2 * SECOND;

/// How long a fresh connection has to answer its first sync, in nanoseconds.
pub const CONNECT_TIMEOUT: u64 = 2 * SECOND;

/// How often an established connection is re-checked with a sync, in nanoseconds.
pub const HEARTBEAT_INTERVAL: u64 = 10 * SECOND;

/// How long to wait before the first reconnect, in nanoseconds.
pub const RETRY_DELAY: u64 = 1 * SECOND;

/// The ceiling the reconnect delay doubles up to, in nanoseconds.
pub const MAX_RETRY_DELAY: u64 = 30 * SECOND;

/// How many poll ticks pass between forced re-sends of the current reading.
pub const RESYNC_TICKS: u32 = 15;

/// The object id of the server's core. Events that carry it are about the
/// connection rather than about one object.
pub const PW_ID_CORE: u32 = 0;

/// A dictionary of properties, as the server publishes them.
#[derive(Debug, PartialEq, Eq)]
pub struct Properties {
    entries: Vec<(String, String)>,
}

/// The value of the first entry under `key`.
pub open spec fn lookup(entries: Seq<(Seq<char>, Seq<char>)>, key: Seq<char>) -> Option<Seq<char>>
    decreases entries.len(),
{
    if entries.len() == 0 {
        None
    } else if entries[0].0 == key {
        Some(entries[0].1)
    } else {
        lookup(entries.skip(1), key)
    }
}

impl View for Properties {
    type V = Seq<(Seq<char>, Seq<char>)>;

    closed spec fn view(&self) -> Seq<(Seq<char>, Seq<char>)> {
        self.entries@.map_values(|e: (String, String)| (e.0@, e.1@))
    }
}

impl Properties {
    /// The dictionary of some entries.
    pub fn new(entries: Vec<(String, String)>) -> (properties: Self)
        ensures
            properties@ == entries@.map_values(|e: (String, String)| (e.0@, e.1@)),
    {
        Properties { entries }
    }

    /// The value of the first entry under `key`.
    pub fn get(&self, key: &str) -> (value: Option<&str>)
        ensures
            text::optional_str(value) == lookup(self@, key@),
    {
        let mut i: usize = 0;
        assert(self@.skip(0) =~= self@);
        while i < self.entries.len()
            invariant
                i <= self.entries@.len() == self@.len(),
                lookup(self@, key@) == lookup(self@.skip(i as int), key@),
            decreases self.entries@.len() - i,
        {
            let ghost rest = self@.skip(i as int);
            assert(rest[0] == self@[i as int]);
            if text::same(self.entries[i].0.as_str(), key) {
                return Some(self.entries[i].1.as_str());
            }
            assert(rest.skip(1) =~= self@.skip(i + 1));
            i += 1;
        }
        None
    }
}

/// Whether `s` begins with `prefix`.
fn begins(s: &str, prefix: &str) -> (yes: bool)
    ensures
        yes == prefix@.is_prefix_of(s@),
{
    text::strip_prefix(s, prefix).is_some()
}

/// The kind that an icon name stands for. The names are made of a category, a
/// kind and perhaps a variant; the more specific ones come first.
pub open spec fn kind_of_icon(icon: Option<Seq<char>>) -> DeviceKind {
    match icon {
        None => DeviceKind::Other,
        Some(icon) => {
            if "audio-headset"@.is_prefix_of(icon) {
                DeviceKind::Headset
            } else if "audio-headphone"@.is_prefix_of(icon) {
                DeviceKind::Headphones
            } else if "audio-speaker"@.is_prefix_of(icon) {
                DeviceKind::Speakers
            } else if "audio-card-hdmi"@.is_prefix_of(icon) || "audio-card-spdif"@.is_prefix_of(
                icon,
            ) || "audio-card-dp"@.is_prefix_of(icon) || "audio-card-displayport"@.is_prefix_of(
                icon,
            ) {
                DeviceKind::Monitor
            } else if "audio-card"@.is_prefix_of(icon) {
                DeviceKind::Speakers
            } else if "video-display"@.is_prefix_of(icon) || "video-monitor"@.is_prefix_of(icon) {
                DeviceKind::Monitor
            } else if "audio-handsfree"@.is_prefix_of(icon) || "audio-cellphone"@.is_prefix_of(
                icon,
            ) || icon == "phone"@ {
                DeviceKind::Phone
            } else if "tv"@.is_prefix_of(icon) || "television"@.is_prefix_of(icon) {
                DeviceKind::Tv
            } else {
                DeviceKind::Other
            }
        },
    }
}

/// Map a `device.icon-name` value (such as `audio-headphones`) to a
/// [`DeviceKind`].
///
/// The `hdmi`, `spdif` and `dp` variants of `audio-card` count as a monitor, any other
/// sound card as loudspeakers. What is not recognized is [`DeviceKind::Other`].
pub fn device_kind_from_icon_name(icon: Option<&str>) -> (kind: DeviceKind)
    ensures
        kind == kind_of_icon(text::optional_str(icon)),
{
    let icon: &str = match icon {
        Some(icon) => icon,
        None => {
            return DeviceKind::Other;
        },
    };
    if begins(icon, "audio-headset") {
        DeviceKind::Headset
    } else if begins(icon, "audio-headphone") {
        DeviceKind::Headphones
    } else if begins(icon, "audio-speaker") {
        DeviceKind::Speakers
    } else if begins(icon, "audio-card-hdmi") || begins(icon, "audio-card-spdif") || begins(
        icon,
        "audio-card-dp",
    ) || begins(icon, "audio-card-displayport") {
        DeviceKind::Monitor
    } else if begins(icon, "audio-card") {
        DeviceKind::Speakers
    } else if begins(icon, "video-display") || begins(icon, "video-monitor") {
        DeviceKind::Monitor
    } else if begins(icon, "audio-handsfree") || begins(icon, "audio-cellphone") || text::same(
        icon,
        "phone",
    ) {
        DeviceKind::Phone
    } else if begins(icon, "tv") || begins(icon, "television") {
        DeviceKind::Tv
    } else {
        DeviceKind::Other
    }
}

/// The kind that a form factor stands for.
pub open spec fn kind_of_form(form: Option<Seq<char>>) -> DeviceKind {
    match form {
        None => DeviceKind::Other,
        Some(form) => {
            if form == "headphone"@ || form == "earphone"@ {
                DeviceKind::Headphones
            } else if form == "headset"@ {
                DeviceKind::Headset
            } else if form == "speaker"@ || form == "desk"@ || form == "hifi"@ || form
                == "computer"@ || form == "portable"@ {
                DeviceKind::Speakers
            } else if form == "monitor"@ {
                DeviceKind::Monitor
            } else if form == "tv"@ {
                DeviceKind::Tv
            } else if form == "handset"@ || form == "phone"@ || form == "car"@ {
                DeviceKind::Phone
            } else {
                DeviceKind::Other
            }
        },
    }
}

/// Map a `device.form-factor` value (such as `headphone`) to a [`DeviceKind`].
pub fn device_kind_from_form_factor(form: Option<&str>) -> (kind: DeviceKind)
    ensures
        kind == kind_of_form(text::optional_str(form)),
{
    let form: &str = match form {
        Some(form) => form,
        None => {
            return DeviceKind::Other;
        },
    };
    if text::same(form, "headphone") || text::same(form, "earphone") {
        DeviceKind::Headphones
    } else if text::same(form, "headset") {
        DeviceKind::Headset
    } else if text::same(form, "speaker") || text::same(form, "desk") || text::same(form, "hifi")
        || text::same(form, "computer") || text::same(form, "portable") {
        DeviceKind::Speakers
    } else if text::same(form, "monitor") {
        DeviceKind::Monitor
    } else if text::same(form, "tv") {
        DeviceKind::Tv
    } else if text::same(form, "handset") || text::same(form, "phone") || text::same(form, "car") {
        DeviceKind::Phone
    } else {
        DeviceKind::Other
    }
}

/// The kind of a node with these properties: by its icon name, and by its form
/// factor where the icon name does not tell.
pub open spec fn kind_of_props(props: Seq<(Seq<char>, Seq<char>)>) -> DeviceKind {
    let by_icon = kind_of_icon(lookup(props, "device.icon-name"@));
    if by_icon != DeviceKind::Other {
        by_icon
    } else {
        kind_of_form(lookup(props, "device.form-factor"@))
    }
}

/// Classify a node's device kind from its properties.
pub fn device_kind_from_props(props: &Properties) -> (kind: DeviceKind)
    ensures
        kind == kind_of_props(props@),
{
    let kind: DeviceKind = device_kind_from_icon_name(props.get("device.icon-name"));
    if kind != DeviceKind::Other {
        return kind;
    }
    device_kind_from_form_factor(props.get("device.form-factor"))
}

/// Whether a node's `media.class` property marks it as an audio output.
pub fn is_audio_sink(props: &Properties) -> (yes: bool)
    ensures
        yes == (lookup(props@, "media.class"@) == Some("Audio/Sink"@)),
{
    match props.get("media.class") {
        Some(class) => text::same(class, "Audio/Sink"),
        None => false,
    }
}

/// Whether `i` is the place of the first running candidate by name, the earliest
/// listed one where names are equal.
pub open spec fn is_picked(candidates: Seq<(u32, &str, bool)>, i: int) -> bool {
    &&& 0 <= i < candidates.len()
    &&& candidates[i].2
    &&& forall|j: int|
        0 <= j < candidates.len() && (#[trigger] candidates[j]).2 ==> !text::precedes(
            candidates[j].1@,
            candidates[i].1@,
        ) && (j < i ==> candidates[j].1@ != candidates[i].1@)
}

/// Pick the id of the active output from a list of candidates, each an id, a name
/// and whether it runs: the first running one by name, none when none runs.
pub fn pick_active_sink_id(candidates: &[(u32, &str, bool)]) -> (picked: Option<u32>)
    ensures
        match picked {
            Some(id) => exists|i: int|
                #[trigger] is_picked(candidates@, i) && candidates@[i].0 == id,
            None => forall|i: int|
                0 <= i < candidates@.len() ==> !(#[trigger] candidates@[i]).2,
        },
{
    let mut best: Option<usize> = None;
    let mut i: usize = 0;
    while i < candidates.len()
        invariant
            i <= candidates@.len(),
            match best {
                Some(b) => b < i && is_picked(candidates@.take(i as int), b as int),
                None => forall|j: int| 0 <= j < i ==> !(#[trigger] candidates@[j]).2,
            },
        decreases candidates@.len() - i,
    {
        let ghost seen = candidates@.take(i as int);
        let ghost more = candidates@.take(i + 1);
        if candidates[i].2 {
            match best {
                Some(b) => {
                    let ahead: bool = text::is_before(candidates[i].1, candidates[b].1);
                    proof {
                        lemma_pick_step(candidates@, i as int, b as int);
                    }
                    if ahead {
                        best = Some(i);
                    }
                },
                None => {
                    proof {
                        text::lemma_precedes_irreflexive(candidates@[i as int].1@);
                        assert forall|j: int| 0 <= j < more.len() && (#[trigger] more[j]).2 implies
                            j == i by {
                            assert(more[j] == candidates@[j]);
                        }
                    }
                    best = Some(i);
                },
            }
        } else {
            proof {
                if best is Some {
                    let b = best->0 as int;
                    assert forall|j: int| 0 <= j < more.len() && (#[trigger] more[j]).2 implies
                        !text::precedes(more[j].1@, more[b].1@) && (j < b ==> more[j].1@
                        != more[b].1@) by {
                        assert(more[j] == seen[j]);
                    }
                    assert(more[b] == seen[b]);
                }
            }
        }
        i += 1;
    }
    assert(candidates@.take(i as int) =~= candidates@);
    match best {
        Some(b) => {
            assert(is_picked(candidates@, b as int));
            Some(candidates[b].0)
        },
        None => None,
    }
}

/// A further running candidate takes over exactly when its name comes first.
proof fn lemma_pick_step(candidates: Seq<(u32, &str, bool)>, i: int, b: int)
    requires
        0 <= b < i < candidates.len(),
        candidates[i].2,
        is_picked(candidates.take(i), b),
    ensures
        text::precedes(candidates[i].1@, candidates[b].1@) ==> is_picked(candidates.take(i + 1), i),
        !text::precedes(candidates[i].1@, candidates[b].1@) ==> is_picked(
            candidates.take(i + 1),
            b,
        ),
{
    let seen = candidates.take(i);
    let more = candidates.take(i + 1);
    let first = candidates[b].1@;
    let new = candidates[i].1@;
    text::lemma_precedes_irreflexive(new);
    assert(seen[b] == more[b]);
    assert forall|j: int| 0 <= j < i && (#[trigger] more[j]).2 implies !text::precedes(
        more[j].1@,
        first,
    ) && (j < b ==> more[j].1@ != first) by {
        assert(more[j] == seen[j]);
    }
    if text::precedes(new, first) {
        assert forall|j: int| 0 <= j < more.len() && (#[trigger] more[j]).2 implies
            !text::precedes(more[j].1@, new) && (j < i ==> more[j].1@ != new) by {
            if j < i {
                if text::precedes(more[j].1@, new) {
                    text::lemma_precedes_transitive(more[j].1@, new, first);
                }
            }
        }
    }
}

/// Which candidate is picked does not depend on the order of the candidates, as
/// long as no two of them that run share a name.
pub proof fn lemma_pick_ignores_order(
    a: Seq<(u32, &str, bool)>,
    b: Seq<(u32, &str, bool)>,
    i: int,
    j: int,
)
    requires
        forall|k: int| 0 <= k < a.len() ==> b.contains(#[trigger] a[k]),
        forall|k: int| 0 <= k < b.len() ==> a.contains(#[trigger] b[k]),
        forall|k: int, l: int|
            0 <= k < l < a.len() && (#[trigger] a[k]).2 && (#[trigger] a[l]).2 ==> a[k].1@
                != a[l].1@,
        is_picked(a, i),
        is_picked(b, j),
    ensures
        a[i] == b[j],
{
    let x = choose|x: int| 0 <= x < a.len() && a[x] == b[j];
    let y = choose|y: int| 0 <= y < b.len() && b[y] == a[i];
    assert(a.contains(b[j]));
    assert(b.contains(a[i]));
    assert(!text::precedes(a[x].1@, a[i].1@));
    assert(!text::precedes(b[y].1@, b[j].1@));
    text::lemma_precedes_total(a[i].1@, b[j].1@);
    if x < i {
        assert(a[x].1@ != a[i].1@);
    } else if i < x {
        assert(a[i].1@ != a[x].1@);
    }
}

/// The level and the mute state of one parameter report. A report may carry either
/// without the other.
#[derive(Debug, Clone, Copy, PartialEq, Eq)]
pub struct PropsUpdate {
    /// The level in percent.
    pub volume: Option<u8>,
    /// The mute flag.
    pub muted: Option<bool>,
}

impl PropsUpdate {
    /// The update a report makes: none when it carries neither.
    pub fn of(volume: Option<u8>, muted: Option<bool>) -> (update: Option<PropsUpdate>)
        ensures
            update == if volume is None && muted is None {
                None
            } else {
                Some(PropsUpdate { volume, muted })
            },
    {
        if volume.is_none() && muted.is_none() {
            return None;
        }
        Some(PropsUpdate { volume, muted })
    }
}

/// What is known of one output.
#[derive(Debug, PartialEq, Eq)]
pub struct SinkEntry {
    /// Its name.
    pub name: String,
    /// What it is.
    pub device: DeviceKind,
    /// Whether it is playing.
    pub running: bool,
    /// The last level reported, in percent.
    pub volume: Option<u8>,
    /// The last mute flag reported.
    pub muted: Option<bool>,
}

/// The contents of a [`SinkEntry`].
#[verifier::ext_equal]
pub struct SinkView {
    /// Its name.
    pub name: Seq<char>,
    /// What it is.
    pub device: DeviceKind,
    /// Whether it is playing.
    pub running: bool,
    /// The last level reported, in percent.
    pub volume: Option<u8>,
    /// The last mute flag reported.
    pub muted: Option<bool>,
}

impl View for SinkEntry {
    type V = SinkView;

    open spec fn view(&self) -> SinkView {
        SinkView {
            name: self.name@,
            device: self.device,
            running: self.running,
            volume: self.volume,
            muted: self.muted,
        }
    }
}

impl SinkView {
    /// An output of which only the name is known.
    pub open spec fn fresh(name: Seq<char>) -> SinkView {
        SinkView { name, device: DeviceKind::Other, running: false, volume: None, muted: None }
    }

    /// The output after a report of its state and kind: a kind that is not known
    /// does not replace one that is.
    pub open spec fn informed(self, running: bool, device: DeviceKind) -> SinkView {
        SinkView {
            running,
            device: if device == DeviceKind::Other {
                self.device
            } else {
                device
            },
            ..self
        }
    }

    /// The output after a report of its level or mute flag: what the report does
    /// not carry stays.
    pub open spec fn updated(self, update: PropsUpdate) -> SinkView {
        SinkView {
            volume: if update.volume is Some {
                update.volume
            } else {
                self.volume
            },
            muted: if update.muted is Some {
                update.muted
            } else {
                self.muted
            },
            ..self
        }
    }

    /// What the bar shows of the output: nothing until a level was reported; an
    /// unreported mute flag counts as not muted.
    pub open spec fn reading(self) -> Option<VolumeView> {
        match self.volume {
            Some(level) => Some(VolumeView::of(level, self.muted == Some(true), self.device)),
            None => None,
        }
    }

    /// How an output ranks: a running one first, the configured default one next,
    /// then the rest.
    pub open spec fn tier(self, default_name: Option<Seq<char>>) -> int {
        if self.running {
            0
        } else if default_name == Some(self.name) {
            1
        } else {
            2
        }
    }

    /// Whether this output is to be shown rather than `other`: it ranks higher, or
    /// the same and its name comes first.
    pub open spec fn outranks(self, other: SinkView, default_name: Option<Seq<char>>) -> bool {
        ||| self.tier(default_name) < other.tier(default_name)
        ||| self.tier(default_name) == other.tier(default_name) && text::precedes(
            self.name,
            other.name,
        )
    }
}

/// Whether the output `id` is the one to show: none outranks it.
pub open spec fn is_active(
    sinks: Map<u32, SinkView>,
    default_name: Option<Seq<char>>,
    id: u32,
) -> bool {
    sinks.dom().contains(id) && forall|other: u32|
        sinks.dom().contains(other) ==> !(#[trigger] sinks[other]).outranks(
            sinks[id],
            default_name,
        )
}

/// Whether `snapshot` is what the bar shows of these outputs: what it shows of the
/// active one, and nothing when there is none.
pub open spec fn is_snapshot(
    sinks: Map<u32, SinkView>,
    default_name: Option<Seq<char>>,
    snapshot: Option<VolumeView>,
) -> bool {
    if sinks.dom().is_empty() {
        snapshot is None
    } else {
        exists|id: u32|
            #[trigger] is_active(sinks, default_name, id) && snapshot == sinks[id].reading()
    }
}

/// What is known of a server's outputs, and what was last sent of it.
pub struct State {
    /// The outputs, by object id.
    pub sinks: HashMap<u32, SinkEntry>,
    /// The name of the configured default output.
    pub default_sink_name: Option<String>,
    /// The reading last sent.
    pub last_emitted: Option<Option<Volume>>,
    /// Poll ticks since the last forced re-send.
    pub ticks_since_resync: u32,
}

/// The contents of a [`State`].
#[verifier::ext_equal]
pub struct StateView {
    /// The outputs, by object id.
    pub sinks: Map<u32, SinkView>,
    /// The name of the configured default output.
    pub default_name: Option<Seq<char>>,
    /// The reading last sent.
    pub last: Option<Option<VolumeView>>,
    /// Poll ticks since the last forced re-send.
    pub ticks: u32,
}

/// The contents of each output.
pub open spec fn sink_views(sinks: Map<u32, SinkEntry>) -> Map<u32, SinkView> {
    sinks.map_values(|e: SinkEntry| e@)
}

impl View for State {
    type V = StateView;

    open spec fn view(&self) -> StateView {
        StateView {
            sinks: sink_views(self.sinks@),
            default_name: text::optional(self.default_sink_name),
            last: match self.last_emitted {
                Some(reading) => Some(widget::volume_view(reading)),
                None => None,
            },
            ticks: self.ticks_since_resync,
        }
    }
}

impl StateView {
    /// The state a session starts from.
    pub open spec fn initial() -> StateView {
        StateView { sinks: Map::empty(), default_name: None, last: None, ticks: 0 }
    }

    /// With one more output, or one known anew.
    pub open spec fn with_sink(self, id: u32, name: Seq<char>) -> StateView {
        StateView { sinks: self.sinks.insert(id, SinkView::fresh(name)), ..self }
    }

    /// After a report of the state and kind of an output.
    pub open spec fn informed(self, id: u32, running: bool, device: DeviceKind) -> StateView {
        if self.sinks.dom().contains(id) {
            StateView {
                sinks: self.sinks.insert(id, self.sinks[id].informed(running, device)),
                ..self
            }
        } else {
            self
        }
    }

    /// After a report of the level or mute flag of an output.
    pub open spec fn updated(self, id: u32, update: PropsUpdate) -> StateView {
        if self.sinks.dom().contains(id) {
            StateView { sinks: self.sinks.insert(id, self.sinks[id].updated(update)), ..self }
        } else {
            self
        }
    }

    /// Without an output.
    pub open spec fn without_sink(self, id: u32) -> StateView {
        StateView { sinks: self.sinks.remove(id), ..self }
    }

    /// With another configured default output.
    pub open spec fn defaulted(self, name: Option<Seq<char>>) -> StateView {
        StateView { default_name: name, ..self }
    }

    /// After a poll tick: every [`RESYNC_TICKS`]th forgets what was last sent.
    pub open spec fn polled(self) -> StateView {
        if self.ticks + 1 >= RESYNC_TICKS {
            StateView { ticks: 0, last: None, ..self }
        } else {
            StateView { ticks: (self.ticks + 1) as u32, ..self }
        }
    }

    /// Whether re-evaluating `self` leaves `after` and sends `emitted`: the reading
    /// is remembered, and sent when it differs from the one last sent.
    pub open spec fn re_evaluates(
        self,
        after: StateView,
        emitted: Option<Option<VolumeView>>,
    ) -> bool {
        &&& after.last is Some
        &&& is_snapshot(self.sinks, self.default_name, after.last->0)
        &&& after == (StateView { last: after.last, ..self })
        &&& emitted == if self.last == after.last {
            None
        } else {
            after.last
        }
    }
}

/// The contents of an optional message.
pub open spec fn emitted_view(emitted: Option<Option<Volume>>) -> Option<Option<VolumeView>> {
    match emitted {
        Some(reading) => Some(widget::volume_view(reading)),
        None => None,
    }
}

/// Whether a list holds every output under its id, and nothing else.
spec fn is_listing(listed: Seq<(u32, &SinkEntry)>, sinks: Map<u32, SinkEntry>) -> bool {
    &&& forall|k: int|
        0 <= k < listed.len() ==> sinks.dom().contains((#[trigger] listed[k]).0) && *listed[k].1
            == sinks[listed[k].0]
    &&& forall|id: u32|
        #![trigger sinks.dom().contains(id)]
        sinks.dom().contains(id) ==> exists|k: int|
            0 <= k < listed.len() && (#[trigger] listed[k]).0 == id
}

/// Whether `first` is the place of an output that outranks every other listed one.
spec fn leads(
    listed: Seq<(u32, &SinkEntry)>,
    default_name: Option<Seq<char>>,
    upto: int,
    first: int,
) -> bool {
    &&& 0 <= first < upto
    &&& forall|j: int|
        0 <= j < upto ==> !(#[trigger] listed[j]).1@.outranks(listed[first].1@, default_name)
}

/// Ranking is transitive, and no output outranks itself.
proof fn lemma_outranks(a: SinkView, b: SinkView, c: SinkView, default_name: Option<Seq<char>>)
    ensures
        a.outranks(b, default_name) && b.outranks(c, default_name) ==> a.outranks(c, default_name),
        !a.outranks(a, default_name),
{
    text::lemma_precedes_irreflexive(a.name);
    if text::precedes(a.name, b.name) && text::precedes(b.name, c.name) {
        text::lemma_precedes_transitive(a.name, b.name, c.name);
    }
}

/// The state before any report.
impl Default for State {
    fn default() -> (state: Self)
        ensures
            state.wf(),
            state@ == StateView::initial(),
    {
        let state = State {
            sinks: HashMap::new(),
            default_sink_name: None,
            last_emitted: None,
            ticks_since_resync: 0,
        };
        assert(state@.sinks =~= Map::empty());
        state
    }
}

impl State {
    /// The tick count is below its wrap.
    pub open spec fn wf(&self) -> bool {
        self.ticks_since_resync < RESYNC_TICKS
    }

    /// The outputs, each once, in no particular order.
    fn listed(&self) -> (listed: Vec<(u32, &SinkEntry)>)
        ensures
            is_listing(listed@, self.sinks@),
    {
        let ids: Vec<u32> = indexed::keys(&self.sinks);
        let mut listed: Vec<(u32, &SinkEntry)> = Vec::new();
        let mut i: usize = 0;
        while i < ids.len()
            invariant
                ids@.to_set() == self.sinks@.dom(),
                i <= ids@.len(),
                listed@.len() == i,
                forall|k: int|
                    0 <= k < i ==> (#[trigger] listed@[k]).0 == ids@[k] && *listed@[k].1
                        == self.sinks@[ids@[k]],
            decreases ids@.len() - i,
        {
            let id: u32 = ids[i];
            assert(ids@.to_set().contains(id));
            match self.sinks.get(&id) {
                Some(entry) => {
                    listed.push((id, entry));
                },
                None => {},
            }
            i += 1;
        }
        proof {
            assert forall|k: int| 0 <= k < listed@.len() implies self.sinks@.dom().contains(
                (#[trigger] listed@[k]).0,
            ) by {
                assert(ids@.to_set().contains(ids@[k]));
            }
            assert forall|id: u32| self.sinks@.dom().contains(id) implies exists|k: int|
                0 <= k < listed@.len() && (#[trigger] listed@[k]).0 == id by {
                let k = choose|k: int| 0 <= k < ids@.len() && ids@[k] == id;
                assert(listed@[k].0 == id);
            }
        }
        listed
    }

    /// The running output to show, if one runs.
    fn running_sink(&self) -> (picked: Option<u32>)
        ensures
            match picked {
                Some(id) => is_active(self@.sinks, self@.default_name, id),
                None => forall|id: u32|
                    self@.sinks.dom().contains(id) ==> !(#[trigger] self@.sinks[id]).running,
            },
    {
        let listed: Vec<(u32, &SinkEntry)> = self.listed();
        let mut candidates: Vec<(u32, &str, bool)> = Vec::new();
        let mut i: usize = 0;
        while i < listed.len()
            invariant
                i <= listed@.len(),
                candidates@.len() == i,
                forall|k: int|
                    0 <= k < i ==> (#[trigger] candidates@[k]).0 == listed@[k].0
                        && candidates@[k].1@ == listed@[k].1.name@ && candidates@[k].2
                        == listed@[k].1.running,
            decreases listed@.len() - i,
        {
            let (id, entry) = listed[i];
            candidates.push((id, entry.name.as_str(), entry.running));
            i += 1;
        }
        let picked: Option<u32> = pick_active_sink_id(candidates.as_slice());
        proof {
            assert forall|id: u32| self@.sinks.dom().contains(id) implies exists|k: int|
                0 <= k < listed@.len() && (#[trigger] candidates@[k]).0 == id && self@.sinks[id]
                    == listed@[k].1@ by {
                assert(self.sinks@.dom().contains(id));
                let k = choose|k: int| 0 <= k < listed@.len() && (#[trigger] listed@[k]).0 == id;
                assert(candidates@[k].0 == id);
            }
            match picked {
                Some(id) => {
                    let p = choose|p: int|
                        #[trigger] is_picked(candidates@, p) && candidates@[p].0 == id;
                    assert(listed@[p].0 == id);
                    assert(self@.sinks[id] == listed@[p].1@);
                    assert forall|other: u32| self@.sinks.dom().contains(other) implies !(
                    #[trigger] self@.sinks[other]).outranks(
                        self@.sinks[id],
                        self@.default_name,
                    ) by {
                        let k = choose|k: int|
                            0 <= k < listed@.len() && (#[trigger] candidates@[k]).0 == other
                                && self@.sinks[other] == listed@[k].1@;
                        assert(candidates@[k].2 == listed@[k].1.running);
                    }
                },
                None => {},
            }
        }
        picked
    }

    /// The output to show.
    fn active_sink(&self) -> (active: Option<u32>)
        ensures
            match active {
                Some(id) => is_active(self@.sinks, self@.default_name, id),
                None => self@.sinks.dom().is_empty(),
            },
    {
        match self.running_sink() {
            Some(id) => {
                return Some(id);
            },
            None => {},
        }
        let listed: Vec<(u32, &SinkEntry)> = self.listed();
        if listed.len() == 0 {
            proof {
                assert forall|id: u32| !self@.sinks.dom().contains(id) by {
                    assert(!self.sinks@.dom().contains(id));
                }
                assert(self@.sinks.dom() =~= Set::empty());
            }
            return None;
        }
        let mut first: usize = 0;
        proof {
            lemma_outranks(listed@[0].1@, listed@[0].1@, listed@[0].1@, self@.default_name);
        }
        let mut i: usize = 1;
        while i < listed.len()
            invariant
                is_listing(listed@, self.sinks@),
                first < i <= listed@.len(),
                leads(listed@, self@.default_name, i as int, first as int),
                forall|id: u32|
                    self@.sinks.dom().contains(id) ==> !(#[trigger] self@.sinks[id]).running,
            decreases listed@.len() - i,
        {
            let (_, entry) = listed[i];
            let (_, leader) = listed[first];
            proof {
                assert(!self@.sinks[listed@[i as int].0].running);
                assert(!self@.sinks[listed@[first as int].0].running);
            }
            let ahead: bool = if self.is_default(entry) {
                !self.is_default(leader) || text::is_before(
                    entry.name.as_str(),
                    leader.name.as_str(),
                )
            } else {
                !self.is_default(leader) && text::is_before(
                    entry.name.as_str(),
                    leader.name.as_str(),
                )
            };
            proof {
                let default_name = self@.default_name;
                assert(ahead == entry@.outranks(leader@, default_name));
                lemma_outranks(entry@, entry@, entry@, default_name);
                assert forall|j: int| 0 <= j <= i && ahead implies !(
                #[trigger] listed@[j]).1@.outranks(entry@, default_name) by {
                    lemma_outranks(listed@[j].1@, entry@, leader@, default_name);
                }
            }
            if ahead {
                first = i;
            }
            i += 1;
        }
        let (id, _) = listed[first];
        proof {
            assert forall|other: u32| self@.sinks.dom().contains(other) implies !(
            #[trigger] self@.sinks[other]).outranks(self@.sinks[id], self@.default_name) by {
                assert(self.sinks@.dom().contains(other));
                let k = choose|k: int| 0 <= k < listed@.len() && (#[trigger] listed@[k]).0 == other;
                assert(self@.sinks[other] == listed@[k].1@);
            }
        }
        Some(id)
    }

    /// Whether an output is the configured default one.
    fn is_default(&self, entry: &SinkEntry) -> (yes: bool)
        ensures
            yes == (self@.default_name == Some(entry@.name)),
    {
        match &self.default_sink_name {
            Some(name) => text::same(name.as_str(), entry.name.as_str()),
            None => false,
        }
    }

    /// Compute the reading to show: what is known of the running output that comes
    /// first by name, else of the configured default one, else of the first one by
    /// name.
    ///
    /// An output that has not reported a level shows nothing. One that reported a
    /// level but no mute flag shows as not muted.
    pub fn compute_snapshot(&self) -> (snapshot: Option<Volume>)
        ensures
            is_snapshot(self@.sinks, self@.default_name, widget::volume_view(snapshot)),
    {
        let id: u32 = match self.active_sink() {
            Some(id) => id,
            None => {
                return None;
            },
        };
        assert(self@.sinks.dom().contains(id));
        match self.sinks.get(&id) {
            Some(entry) => {
                assert(self@.sinks[id] == entry@);
                match entry.volume {
                    Some(level) => {
                        let muted: bool = match entry.muted {
                            Some(muted) => muted,
                            None => false,
                        };
                        Some(Volume::new(level, muted, entry.device))
                    },
                    None => None,
                }
            },
            None => None,
        }
    }

    /// Compute the reading and hand it out to be sent if it differs from the last
    /// one.
    pub fn on_tick(&mut self) -> (emitted: Option<Option<Volume>>)
        requires
            old(self).wf(),
        ensures
            final(self).wf(),
            old(self)@.re_evaluates(final(self)@, emitted_view(emitted)),
    {
        let snapshot: Option<Volume> = self.compute_snapshot();
        let unchanged: bool = match (&self.last_emitted, &snapshot) {
            (Some(Some(last)), Some(now)) => last.same(now),
            (Some(None), None) => true,
            _ => false,
        };
        if unchanged {
            return None;
        }
        self.last_emitted = Some(snapshot);
        Some(snapshot)
    }

    /// Handle one poll tick: re-evaluate, and every [`RESYNC_TICKS`]th time send
    /// the reading whether it changed or not.
    pub fn on_poll_tick(&mut self) -> (emitted: Option<Option<Volume>>)
        requires
            old(self).wf(),
        ensures
            final(self).wf(),
            old(self)@.polled().re_evaluates(final(self)@, emitted_view(emitted)),
    {
        self.ticks_since_resync += 1;
        if self.ticks_since_resync >= RESYNC_TICKS {
            self.ticks_since_resync = 0;
            self.last_emitted = None;
        }
        self.on_tick()
    }

    /// An output appeared under `id`: it is listed by name, with nothing else known
    /// of it yet.
    pub fn sink_found(&mut self, id: u32, name: &str) -> (emitted: Option<Option<Volume>>)
        requires
            old(self).wf(),
        ensures
            final(self).wf(),
            old(self)@.with_sink(id, name@).re_evaluates(final(self)@, emitted_view(emitted)),
    {
        let entry = SinkEntry {
            name: name.to_owned(),
            device: DeviceKind::Other,
            running: false,
            volume: None,
            muted: None,
        };
        let ghost before = self.sinks@;
        let ghost fresh = entry;
        self.sinks.insert(id, entry);
        proof {
            assert(sink_views(before.insert(id, fresh)) =~= sink_views(before).insert(id, fresh@));
            assert(self@ =~= old(self)@.with_sink(id, name@));
        }
        self.on_tick()
    }

    /// The output `id` reported whether it runs, and its properties if they came
    /// along.
    ///
    /// A report that does not tell the kind leaves the known one: a mere state
    /// change often comes without properties.
    pub fn sink_info(&mut self, id: u32, running: bool, props: Option<&Properties>) -> (emitted:
        Option<Option<Volume>>)
        requires
            old(self).wf(),
        ensures
            final(self).wf(),
            old(self)@.informed(
                id,
                running,
                match props {
                    Some(props) => kind_of_props(props@),
                    None => DeviceKind::Other,
                },
            ).re_evaluates(final(self)@, emitted_view(emitted)),
    {
        let device: DeviceKind = match props {
            Some(props) => device_kind_from_props(props),
            None => DeviceKind::Other,
        };
        let ghost before = self.sinks@;
        match indexed::value_mut(&mut self.sinks, id) {
            Some(entry) => {
                entry.running = running;
                if device != DeviceKind::Other {
                    entry.device = device;
                }
            },
            None => {},
        }
        proof {
            if before.dom().contains(id) {
                let entry = self.sinks@[id];
                assert(sink_views(before.insert(id, entry)) =~= sink_views(before).insert(
                    id,
                    entry@,
                ));
            }
            assert(self@ =~= old(self)@.informed(id, running, device));
        }
        self.on_tick()
    }

    /// The output `id` reported its parameters. A report without a level and a mute
    /// flag changes nothing and is not looked at further.
    pub fn sink_params(&mut self, id: u32, update: Option<PropsUpdate>) -> (emitted: Option<
        Option<Volume>,
    >)
        requires
            old(self).wf(),
        ensures
            final(self).wf(),
            match update {
                Some(update) => old(self)@.updated(id, update).re_evaluates(
                    final(self)@,
                    emitted_view(emitted),
                ),
                None => *final(self) == *old(self) && emitted is None,
            },
    {
        let update: PropsUpdate = match update {
            Some(update) => update,
            None => {
                return None;
            },
        };
        let ghost before = self.sinks@;
        match indexed::value_mut(&mut self.sinks, id) {
            Some(entry) => {
                if update.volume.is_some() {
                    entry.volume = update.volume;
                }
                if update.muted.is_some() {
                    entry.muted = update.muted;
                }
            },
            None => {},
        }
        proof {
            if before.dom().contains(id) {
                let entry = self.sinks@[id];
                assert(sink_views(before.insert(id, entry)) =~= sink_views(before).insert(
                    id,
                    entry@,
                ));
            }
            assert(self@ =~= old(self)@.updated(id, update));
        }
        self.on_tick()
    }

    /// The object `id` is gone. It need not have been an output.
    pub fn sink_removed(&mut self, id: u32) -> (emitted: Option<Option<Volume>>)
        requires
            old(self).wf(),
        ensures
            final(self).wf(),
            old(self)@.without_sink(id).re_evaluates(final(self)@, emitted_view(emitted)),
    {
        let ghost before = self.sinks@;
        let _ = self.sinks.remove(&id);
        proof {
            assert(sink_views(before.remove(id)) =~= sink_views(before).remove(id));
            assert(self@ =~= old(self)@.without_sink(id));
        }
        self.on_tick()
    }

    /// A metadata property was set. Only a value of the default output's key
    /// counts; one without a usable name clears the configured default.
    pub fn metadata_property(&mut self, key: Option<&str>, value: Option<&str>) -> (emitted: Option<
        Option<Volume>,
    >)
        requires
            old(self).wf(),
        ensures
            final(self).wf(),
            if text::optional_str(key) == Some("default.audio.sink"@) && value is Some {
                old(self)@.defaulted(default_name_of(value->0@)).re_evaluates(
                    final(self)@,
                    emitted_view(emitted),
                )
            } else {
                *final(self) == *old(self) && emitted is None
            },
    {
        let named: bool = match key {
            Some(key) => text::same(key, "default.audio.sink"),
            None => false,
        };
        if !named {
            return None;
        }
        match value {
            Some(value) => {
                self.default_sink_name = parse_metadata_default_name(value);
                assert(self@ =~= old(self)@.defaulted(default_name_of(value@)));
                self.on_tick()
            },
            None => None,
        }
    }
}

/// The name that a default-output value such as `{"name":"speakers"}` holds: the
/// text between the next two quotes behind the colon that follows the name key.
pub open spec fn default_name_of(value: Seq<char>) -> Option<Seq<char>> {
    match text::after_text(value, "\"name\""@) {
        None => None,
        Some(rest) => match text::after_first(rest, ':') {
            None => None,
            Some(rest) => match text::after_first(text::trimmed_start(rest), '"') {
                None => None,
                Some(rest) => text::before_first(rest, '"'),
            },
        },
    }
}

/// Parse the value of the default output's metadata, a JSON object on one line with
/// a `name` field.
pub fn parse_metadata_default_name(value: &str) -> (name: Option<String>)
    ensures
        text::optional(name) == default_name_of(value@),
{
    let rest: &str = match text::behind(value, "\"name\"") {
        Some(rest) => rest,
        None => {
            return None;
        },
    };
    let rest: &str = match text::split_at_first(rest, ':') {
        Some((_, rest)) => rest,
        None => {
            return None;
        },
    };
    let rest: &str = match text::split_at_first(text::trim_start(rest), '"') {
        Some((_, rest)) => rest,
        None => {
            return None;
        },
    };
    match text::split_at_first(rest, '"') {
        Some((name, _)) => Some(name.to_owned()),
        None => None,
    }
}

/// The name under which a new object is to be watched as an output: that of an
/// audio output node, `?` when it has none.
pub open spec fn watched_name(
    is_node: bool,
    props: Option<Seq<(Seq<char>, Seq<char>)>>,
) -> Option<Seq<char>> {
    if is_node && props is Some && lookup(props->0, "media.class"@) == Some("Audio/Sink"@) {
        match lookup(props->0, "node.name"@) {
            Some(name) => Some(name),
            None => Some("?"@),
        }
    } else {
        None
    }
}

/// Decide whether a new object is to be watched as an output, and under which name.
pub fn sink_to_watch(is_node: bool, props: Option<&Properties>) -> (name: Option<String>)
    ensures
        text::optional(name) == watched_name(
            is_node,
            match props {
                Some(props) => Some(props@),
                None => None,
            },
        ),
{
    if !is_node {
        return None;
    }
    match props {
        Some(props) => {
            if !is_audio_sink(props) {
                return None;
            }
            match props.get("node.name") {
                Some(name) => Some(name.to_owned()),
                None => Some("?".to_owned()),
            }
        },
        None => None,
    }
}

/// Whether a connection answers.
///
/// A connection is trusted once the core answered a sync. A watchdog asks again at
/// every heartbeat, and gives the connection up when the last sync went unanswered.
#[derive(Debug, Clone, Copy, PartialEq, Eq, Structural)]
pub struct Liveness {
    /// Whether a sync is unanswered.
    pub pending_sync: bool,
    /// Whether the core ever answered one.
    pub handshook: bool,
}

/// What the watchdog does when its timer fires.
#[derive(Debug, Clone, Copy, PartialEq, Eq, Structural)]
pub enum WatchdogAction {
    /// Give the connection up.
    Quit,
    /// Send another sync.
    Sync,
}

impl Liveness {
    /// A connection that was asked nothing yet.
    pub fn new() -> (liveness: Self)
        ensures
            liveness == (Liveness { pending_sync: false, handshook: false }),
    {
        Liveness { pending_sync: false, handshook: false }
    }

    /// A sync was sent, or could not be; true when the connection is to be given up.
    pub fn sync_issued(&mut self, sent: bool) -> (quit: bool)
        ensures
            quit == !sent,
            final(self).handshook == old(self).handshook,
            final(self).pending_sync == (sent || old(self).pending_sync),
    {
        if sent {
            self.pending_sync = true;
        }
        !sent
    }

    /// The server answered a sync on the object `id`; true when that completes the
    /// handshake.
    pub fn on_done(&mut self, id: u32) -> (completed: bool)
        ensures
            if id == PW_ID_CORE {
                &&& *final(self) == (Liveness { pending_sync: false, handshook: true })
                &&& completed == !old(self).handshook
            } else {
                *final(self) == *old(self) && !completed
            },
    {
        if id != PW_ID_CORE {
            return false;
        }
        let completed: bool = !self.handshook;
        self.pending_sync = false;
        self.handshook = true;
        completed
    }

    /// The server reported an error on the object `id`; true when the connection is
    /// to be given up. An error on one object is that object's alone.
    pub fn on_error(&self, id: u32) -> (quit: bool)
        ensures
            quit == (id == PW_ID_CORE),
    {
        id == PW_ID_CORE
    }

    /// The watchdog's timer fired.
    pub fn on_watchdog(&self) -> (action: WatchdogAction)
        ensures
            action == if self.pending_sync {
                WatchdogAction::Quit
            } else {
                WatchdogAction::Sync
            },
    {
        if self.pending_sync {
            WatchdogAction::Quit
        } else {
            WatchdogAction::Sync
        }
    }
}

/// What to do after a session ended.
#[derive(Debug, Clone, Copy, PartialEq, Eq, Structural)]
pub enum Verdict {
    /// Nobody takes readings any more.
    Stop,
    /// Connect again after `delay` nanoseconds. `blank` says to show no reading
    /// meanwhile, `failures` how many sessions in a row have ended.
    Retry { delay: u64, blank: bool, failures: u32 },
}

/// Successive sessions, and how long to wait between them.
#[derive(Debug, Clone, Copy, PartialEq, Eq, Structural)]
pub struct Supervisor {
    delay: u64,
    failures: u32,
}

/// The delay that follows `delay`: twice as long, up to the ceiling.
pub open spec fn doubled(delay: int) -> int {
    if 2 * delay > MAX_RETRY_DELAY {
        MAX_RETRY_DELAY as int
    } else {
        2 * delay
    }
}

/// The delay behind the `n`th session in a row that ended without reaching the
/// server, counted from zero.
pub open spec fn backoff(n: nat) -> int
    decreases n,
{
    if n == 0 {
        RETRY_DELAY as int
    } else {
        doubled(backoff((n - 1) as nat))
    }
}

impl View for Supervisor {
    type V = (u64, u32);

    closed spec fn view(&self) -> (u64, u32) {
        (self.delay, self.failures)
    }
}

impl Supervisor {
    /// The delay is between the first one and the ceiling.
    pub open spec fn wf(&self) -> bool {
        RETRY_DELAY <= self@.0 <= MAX_RETRY_DELAY
    }

    /// Before the first session.
    pub fn new() -> (supervisor: Self)
        ensures
            supervisor.wf(),
            supervisor@ == (RETRY_DELAY, 0u32),
    {
        Supervisor { delay: RETRY_DELAY, failures: 0 }
    }

    /// A session ended: `handshook` if it reached the server, `closed` if nobody
    /// takes readings any more.
    ///
    /// A session that reached the server starts the count and the delay over. The
    /// reading is blanked from the second failure in a row on, when the server is
    /// gone rather than restarting.
    pub fn session_ended(&mut self, handshook: bool, closed: bool) -> (verdict: Verdict)
        requires
            old(self).wf(),
        ensures
            final(self).wf(),
            closed ==> verdict == Verdict::Stop && *final(self) == *old(self),
            !closed ==> {
                let delay = if handshook {
                    RETRY_DELAY
                } else {
                    old(self)@.0
                };
                let failures = if handshook {
                    1
                } else if old(self)@.1 == u32::MAX {
                    u32::MAX
                } else {
                    (old(self)@.1 + 1) as u32
                };
                &&& verdict == Verdict::Retry { delay, blank: failures != 1, failures }
                &&& final(self)@.0 == doubled(delay as int)
                &&& final(self)@.1 == failures
            },
    {
        if closed {
            return Verdict::Stop;
        }
        if handshook {
            self.failures = 0;
            self.delay = RETRY_DELAY;
        }
        self.failures = self.failures.saturating_add(1);
        let verdict = Verdict::Retry {
            delay: self.delay,
            blank: self.failures != 1,
            failures: self.failures,
        };
        let next: u64 = 2 * self.delay;
        self.delay = if next > MAX_RETRY_DELAY {
            MAX_RETRY_DELAY
        } else {
            next
        };
        verdict
    }
}

/// The source of volume readings.
#[derive(Debug, Clone, Copy, PartialEq, Eq, Structural)]
pub struct VolumeProducer {
    interval: u64,
}

impl View for VolumeProducer {
    type V = u64;

    closed spec fn view(&self) -> u64 {
        self.interval
    }
}

impl VolumeProducer {
    /// A source polling at the default cadence.
    pub fn new() -> (producer: Self)
        ensures
            producer@ == DEFAULT_INTERVAL,
    {
        VolumeProducer { interval: DEFAULT_INTERVAL }
    }

    /// A source polling every `interval` nanoseconds.
    pub fn with_interval(interval: u64) -> (producer: Self)
        ensures
            producer@ == interval,
    {
        VolumeProducer { interval }
    }

    /// The nanoseconds between two polls.
    pub fn interval(&self) -> (interval: u64)
        ensures
            interval == self@,
    {
        self.interval
    }

    /// The producer's name.
    pub fn name(&self) -> (name: String)
        ensures
            name@ == "volume"@,
    {
        "volume".to_owned()
    }
}

impl Default for VolumeProducer {
    fn default() -> (producer: Self)
        ensures
            producer@ == DEFAULT_INTERVAL,
    {
        VolumeProducer::new()
    }
}

/// Without a server the delays run 1, 2, 4, 8, 16 and then 30 seconds for good.
pub proof fn lemma_backoff_settles_at_the_ceiling(n: nat)
    ensures
        RETRY_DELAY <= backoff(n) <= MAX_RETRY_DELAY,
        backoff(n) <= backoff(n + 1),
        n < 5 ==> backoff(n) == vstd::arithmetic::power2::pow2(n) * RETRY_DELAY,
        n >= 5 ==> backoff(n) == MAX_RETRY_DELAY,
    decreases n,
{
    vstd::arithmetic::power2::lemma2_to64();
    if n > 0 {
        lemma_backoff_settles_at_the_ceiling((n - 1) as nat);
    }
    reveal_with_fuel(backoff, 7);
}

/// The tick count after `k` poll ticks.
pub open spec fn ticks_after(ticks: u32, k: nat) -> u32
    decreases k,
{
    if k == 0 {
        ticks
    } else {
        let before = ticks_after(ticks, (k - 1) as nat);
        if before + 1 >= RESYNC_TICKS {
            0
        } else {
            (before + 1) as u32
        }
    }
}

/// Whatever the state, one of the next [`RESYNC_TICKS`] poll ticks sends the reading
/// even if it did not change.
pub proof fn lemma_resync_comes_round(ticks: u32)
    requires
        ticks < RESYNC_TICKS,
    ensures
        exists|k: nat| k < RESYNC_TICKS && #[trigger] ticks_after(ticks, k) + 1 >= RESYNC_TICKS,
        forall|before: StateView, after: StateView, emitted: Option<Option<VolumeView>>|
            before.ticks + 1 >= RESYNC_TICKS && #[trigger] before.polled().re_evaluates(
                after,
                emitted,
            ) ==> emitted is Some && emitted == after.last,
{
    let k = (RESYNC_TICKS - 1 - ticks) as nat;
    lemma_ticks_climb(ticks, k);
    assert(ticks_after(ticks, k) + 1 >= RESYNC_TICKS);
}

proof fn lemma_ticks_climb(ticks: u32, k: nat)
    requires
        ticks + k < RESYNC_TICKS,
    ensures
        ticks_after(ticks, k) == ticks + k,
    decreases k,
{
    if k > 0 {
        lemma_ticks_climb(ticks, (k - 1) as nat);
    }
}

/// A level and a mute flag that come in separate reports end in the same state as
/// one report of both, in either order.
pub proof fn lemma_partial_updates_merge(sink: SinkView, level: u8, muted: bool)
    ensures
        ({
            let one = PropsUpdate { volume: Some(level), muted: None };
            let other = PropsUpdate { volume: None, muted: Some(muted) };
            let both = PropsUpdate { volume: Some(level), muted: Some(muted) };
            &&& sink.updated(one).updated(other) == sink.updated(both)
            &&& sink.updated(other).updated(one) == sink.updated(both)
        }),
{
}

/// What the bar shows of the outputs does not depend on the order in which they were
/// found, as long as no two share a name.
pub proof fn lemma_snapshot_is_determined(
    sinks: Map<u32, SinkView>,
    default_name: Option<Seq<char>>,
    a: Option<VolumeView>,
    b: Option<VolumeView>,
)
    requires
        forall|i: u32, j: u32|
            sinks.dom().contains(i) && sinks.dom().contains(j) && i != j ==> (
            #[trigger] sinks[i]).name != (#[trigger] sinks[j]).name,
        is_snapshot(sinks, default_name, a),
        is_snapshot(sinks, default_name, b),
    ensures
        a == b,
{
    if !sinks.dom().is_empty() {
        let i = choose|id: u32| #[trigger]
            is_active(sinks, default_name, id) && a == sinks[id].reading();
        let j = choose|id: u32| #[trigger]
            is_active(sinks, default_name, id) && b == sinks[id].reading();
        text::lemma_precedes_total(sinks[i].name, sinks[j].name);
        if i != j {
            assert(sinks[i].name != sinks[j].name);
            assert(!sinks[i].outranks(sinks[j], default_name));
            assert(!sinks[j].outranks(sinks[i], default_name));
        }
    }
}

/// A server with an output that reported its level always shows a reading once every
/// output has.
pub proof fn lemma_reported_outputs_show(
    sinks: Map<u32, SinkView>,
    default_name: Option<Seq<char>>,
    snapshot: Option<VolumeView>,
)
    requires
        !sinks.dom().is_empty(),
        forall|id: u32| sinks.dom().contains(id) ==> (#[trigger] sinks[id]).volume is Some,
        is_snapshot(sinks, default_name, snapshot),
    ensures
        snapshot is Some,
{
}

/// Whether a reading is what is shown of an output: nothing before it reported a level,
/// and then that level, at most a hundred, its mute flag if it reported one, and its kind.
pub open spec fn is_reading_of(entry: SinkEntry, snapshot: Option<Volume>) -> bool {
    match entry.volume {
        None => snapshot is None,
        Some(level) => snapshot matches Some(volume) && volume@.level == if level <= 100 {
            level as int
        } else {
            100
        } && volume@.muted == (entry.muted == Some(true)) && volume@.device == entry.device,
    }
}

/// While an output plays, what is shown is a playing one, whatever the configured default
/// is: of those that play, the first by name.
pub proof fn lemma_a_running_output_is_shown(state: State, snapshot: Option<Volume>, playing: u32)
    requires
        call_ensures(State::compute_snapshot, (&state,), snapshot),
        state.sinks@.dom().contains(playing),
        state.sinks@[playing].running,
    ensures
        exists|id: u32|
            state.sinks@.dom().contains(id) && (#[trigger] state.sinks@[id]).running
                && is_reading_of(state.sinks@[id], snapshot) && !text::precedes(
                state.sinks@[playing].name@,
                state.sinks@[id].name@,
            ),
{
    assert(state@.sinks.dom().contains(playing));
    let id = choose|id: u32|
        #[trigger] is_active(state@.sinks, state@.default_name, id) && widget::volume_view(snapshot)
            == state@.sinks[id].reading();
    assert(!state@.sinks[playing].outranks(state@.sinks[id], state@.default_name));
    assert(state@.sinks[id] == state.sinks@[id]@);
    assert(state.sinks@[id].running);
}

/// While no output plays, the configured default one is shown if it is there.
pub proof fn lemma_the_default_output_is_shown_in_silence(
    state: State,
    snapshot: Option<Volume>,
    default: u32,
)
    requires
        call_ensures(State::compute_snapshot, (&state,), snapshot),
        state.sinks@.dom().contains(default),
        state.default_sink_name matches Some(name) && state.sinks@[default].name@ == name@,
        forall|id: u32| state.sinks@.dom().contains(id) ==> !(#[trigger] state.sinks@[id]).running,
    ensures
        exists|id: u32|
            state.sinks@.dom().contains(id) && (#[trigger] state.sinks@[id]).name@
                == state.sinks@[default].name@ && is_reading_of(state.sinks@[id], snapshot),
{
    assert(state@.sinks.dom().contains(default));
    let id = choose|id: u32|
        #[trigger] is_active(state@.sinks, state@.default_name, id) && widget::volume_view(snapshot)
            == state@.sinks[id].reading();
    assert(!state@.sinks[default].outranks(state@.sinks[id], state@.default_name));
    assert(state@.sinks[id] == state.sinks@[id]@);
    assert(!state.sinks@[id].running);
    assert(!state.sinks@[default].running);
}

/// While no output plays and the configured default one is not there, the first one by
/// name is shown; without any output nothing is.
pub proof fn lemma_else_the_first_output_is_shown(
    state: State,
    snapshot: Option<Volume>,
    other: u32,
)
    requires
        call_ensures(State::compute_snapshot, (&state,), snapshot),
        forall|id: u32|
            state.sinks@.dom().contains(id) ==> !(#[trigger] state.sinks@[id]).running && (
            state.default_sink_name matches Some(name) ==> state.sinks@[id].name@ != name@),
    ensures
        state.sinks@.dom().contains(other) ==> exists|id: u32|
            state.sinks@.dom().contains(id) && is_reading_of(#[trigger] state.sinks@[id], snapshot)
                && !text::precedes(state.sinks@[other].name@, state.sinks@[id].name@),
        state.sinks@.dom().is_empty() ==> snapshot is None,
{
    if state.sinks@.dom().contains(other) {
        assert(state@.sinks.dom().contains(other));
        let id = choose|id: u32|
            #[trigger] is_active(state@.sinks, state@.default_name, id) && widget::volume_view(
                snapshot,
            ) == state@.sinks[id].reading();
        assert(!state@.sinks[other].outranks(state@.sinks[id], state@.default_name));
        assert(state@.sinks[id] == state.sinks@[id]@);
        assert(!state.sinks@[id].running);
        assert(!state.sinks@[other].running);
    }
    if state.sinks@.dom().is_empty() {
        assert(state@.sinks.dom() =~= state.sinks@.dom());
    }
}

/// Whether a reading is sent when it differs from the one last sent, and is remembered.
pub open spec fn is_sent_once(before: State, after: State, emitted: Option<Option<Volume>>) -> bool {
    &&& after.last_emitted is Some
    &&& emitted is Some <==> emitted_view(before.last_emitted) != emitted_view(after.last_emitted)
    &&& emitted is Some ==> emitted_view(emitted) == emitted_view(after.last_emitted)
}

/// Whether the outputs other than `id`, the default name and the count of ticks stay.
pub open spec fn rest_stays(before: State, after: State, id: u32) -> bool {
    &&& text::optional(after.default_sink_name) == text::optional(before.default_sink_name)
    &&& after.ticks_since_resync == before.ticks_since_resync
    &&& forall|other: u32|
        other != id ==> (#[trigger] after.sinks@.dom().contains(other)
            == before.sinks@.dom().contains(other)) && (before.sinks@.dom().contains(other)
            ==> after.sinks@[other]@ == before.sinks@[other]@)
}

proof fn lemma_sinks(state: State, id: u32)
    ensures
        state@.sinks.dom().contains(id) == state.sinks@.dom().contains(id),
        state.sinks@.dom().contains(id) ==> state@.sinks[id] == state.sinks@[id]@,
{
}

proof fn lemma_rest(before: State, after: State, id: u32)
    requires
        after@.default_name == before@.default_name,
        after@.ticks == before@.ticks,
        forall|other: u32|
            other != id ==> (#[trigger] after@.sinks.dom().contains(other)
                == before@.sinks.dom().contains(other)) && (before@.sinks.dom().contains(other)
                ==> after@.sinks[other] == before@.sinks[other]),
    ensures
        rest_stays(before, after, id),
{
    assert forall|other: u32| other != id implies (#[trigger] after.sinks@.dom().contains(other)
        == before.sinks@.dom().contains(other)) && (before.sinks@.dom().contains(other)
        ==> after.sinks@[other]@ == before.sinks@[other]@) by {
        lemma_sinks(before, other);
        lemma_sinks(after, other);
        assert(after@.sinks.dom().contains(other) == before@.sinks.dom().contains(other));
    }
}

/// An output that appears is listed by its name, silent and with nothing else known of it;
/// nothing is known any more of what stood under its id.
pub proof fn lemma_a_new_output_is_listed(
    state: &mut State,
    id: u32,
    name: &str,
    emitted: Option<Option<Volume>>,
)
    requires
        call_ensures(State::sink_found, (state, id, name), emitted),
    ensures
        final(state).sinks@.dom().contains(id),
        final(state).sinks@[id].name@ == name@,
        !final(state).sinks@[id].running,
        final(state).sinks@[id].volume is None,
        final(state).sinks@[id].muted is None,
        final(state).sinks@[id].device == DeviceKind::Other,
        rest_stays(*old(state), *final(state), id),
        is_sent_once(*old(state), *final(state), emitted),
{
    let before = *state;
    let after = *final(state);
    lemma_rest(before, after, id);
    lemma_sinks(before, id);
    lemma_sinks(after, id);
    assert(after.sinks@[id]@ == SinkView::fresh(name@));
}

/// A report of a known output sets whether it plays, and its kind where the report tells
/// one; its name, level and mute flag stay. A report of an unknown one changes nothing.
pub proof fn lemma_a_state_report_sets_what_it_tells(
    state: &mut State,
    id: u32,
    running: bool,
    props: Option<&Properties>,
    kind: DeviceKind,
    emitted: Option<Option<Volume>>,
)
    requires
        call_ensures(State::sink_info, (state, id, running, props), emitted),
        match props {
            Some(props) => call_ensures(device_kind_from_props, (props,), kind),
            None => kind == DeviceKind::Other,
        },
    ensures
        rest_stays(*old(state), *final(state), id),
        is_sent_once(*old(state), *final(state), emitted),
        final(state).sinks@.dom().contains(id) == old(state).sinks@.dom().contains(id),
        old(state).sinks@.dom().contains(id) ==> {
            let was = old(state).sinks@[id];
            let is = final(state).sinks@[id];
            &&& is.running == running
            &&& is.device == if kind == DeviceKind::Other {
                was.device
            } else {
                kind
            }
            &&& is.name@ == was.name@
            &&& is.volume == was.volume
            &&& is.muted == was.muted
        },
{
    let before = *state;
    let after = *final(state);
    lemma_rest(before, after, id);
    lemma_sinks(before, id);
    lemma_sinks(after, id);
    if before.sinks@.dom().contains(id) {
        assert(after.sinks@[id]@ == before.sinks@[id]@.informed(running, kind));
    }
}

/// A report of a level or a mute flag sets that one of a known output and leaves the other
/// one, and everything else, as it was.
pub proof fn lemma_a_parameter_report_sets_what_it_tells(
    state: &mut State,
    id: u32,
    update: PropsUpdate,
    emitted: Option<Option<Volume>>,
)
    requires
        call_ensures(State::sink_params, (state, id, Some(update)), emitted),
    ensures
        rest_stays(*old(state), *final(state), id),
        is_sent_once(*old(state), *final(state), emitted),
        final(state).sinks@.dom().contains(id) == old(state).sinks@.dom().contains(id),
        old(state).sinks@.dom().contains(id) ==> {
            let was = old(state).sinks@[id];
            let is = final(state).sinks@[id];
            &&& update.volume is Some ==> is.volume == update.volume
            &&& update.volume is None ==> is.volume == was.volume
            &&& update.muted is Some ==> is.muted == update.muted
            &&& update.muted is None ==> is.muted == was.muted
            &&& is.name@ == was.name@
            &&& is.running == was.running
            &&& is.device == was.device
        },
{
    let before = *state;
    let after = *final(state);
    lemma_rest(before, after, id);
    lemma_sinks(before, id);
    lemma_sinks(after, id);
    if before.sinks@.dom().contains(id) {
        assert(after.sinks@[id]@ == before.sinks@[id]@.updated(update));
    }
}

/// An output that is gone is forgotten, and no other one is.
pub proof fn lemma_a_removed_output_is_forgotten(
    state: &mut State,
    id: u32,
    emitted: Option<Option<Volume>>,
)
    requires
        call_ensures(State::sink_removed, (state, id), emitted),
    ensures
        !final(state).sinks@.dom().contains(id),
        rest_stays(*old(state), *final(state), id),
        is_sent_once(*old(state), *final(state), emitted),
{
    let before = *state;
    let after = *final(state);
    lemma_rest(before, after, id);
    lemma_sinks(before, id);
    lemma_sinks(after, id);
}

/// The fifteenth poll tick in a row sends the reading whether it changed or not, and
/// starts the count over; the others send it when it changed.
pub proof fn lemma_every_fifteenth_poll_sends(state: &mut State, emitted: Option<Option<Volume>>)
    requires
        call_ensures(State::on_poll_tick, (state,), emitted),
        old(state).wf(),
    ensures
        old(state).ticks_since_resync == 14 ==> emitted is Some
            && final(state).ticks_since_resync == 0,
        old(state).ticks_since_resync < 14 ==> final(state).ticks_since_resync == old(
            state,
        ).ticks_since_resync + 1 && is_sent_once(*old(state), *final(state), emitted),
        final(state).last_emitted is Some,
        final(state)@.sinks == old(state)@.sinks,
        text::optional(final(state).default_sink_name) == text::optional(
            old(state).default_sink_name,
        ),
{
}

/// The configured default output is the one that its own metadata key names, and no other
/// key changes it.
pub proof fn lemma_only_its_key_sets_the_default(
    state: &mut State,
    key: Option<&str>,
    value: Option<&str>,
    name: Option<String>,
    emitted: Option<Option<Volume>>,
)
    requires
        call_ensures(State::metadata_property, (state, key, value), emitted),
        value matches Some(value) ==> call_ensures(parse_metadata_default_name, (value,), name),
    ensures
        key is Some && key->0@ == "default.audio.sink"@ && value is Some ==> text::optional(
            final(state).default_sink_name,
        ) == text::optional(name) && final(state)@.sinks == old(state)@.sinks && is_sent_once(
            *old(state),
            *final(state),
            emitted,
        ),
        key is None || key->0@ != "default.audio.sink"@ || value is None ==> *final(state) == *old(
            state,
        ) && emitted is None,
{
}

/// The name of the default output is what its metadata holds under `name`.
pub proof fn lemma_the_default_name_is_read(value: &str, name: Seq<char>, read: Option<String>)
    requires
        call_ensures(parse_metadata_default_name, (value,), read),
        value@ == "{\"name\":\""@ + name + "\"}"@,
        !name.contains('"'),
    ensures
        read matches Some(read) && read@ == name,
{
    reveal_strlit("{\"name\":\"");
    reveal_strlit("\"}");
    reveal_strlit("\"name\"");
    let s = value@;
    let needle = "\"name\""@;
    assert(s[0] == '{' && needle[0] == '"');
    assert(!needle.is_prefix_of(s));
    let inner = s.skip(1);
    assert(needle.is_prefix_of(inner)) by {
        assert(inner.take(6) =~= needle);
    }
    let rest = inner.skip(6);
    assert(text::after_text(s, needle) == Some(rest)) by {
        reveal_with_fuel(text::after_text, 3);
    }
    assert(rest[0] == ':');
    let quoted = rest.skip(1);
    assert(text::after_first(rest, ':') == Some(quoted));
    assert(quoted[0] == '"');
    assert(text::trimmed_start(quoted) == quoted);
    let inside = quoted.skip(1);
    assert(text::after_first(quoted, '"') == Some(inside));
    assert(inside =~= name + "\"}"@);
    assert(inside.take(name.len() as int) =~= name);
    text::lemma_around_first(inside, '"', name.len() as int);
}

proof fn lemma_prefix_at(prefix: Seq<char>, s: Seq<char>, k: int)
    requires
        0 <= k < prefix.len(),
    ensures
        prefix.is_prefix_of(s) ==> s.len() >= prefix.len() && s[k] == prefix[k],
{
    if prefix.is_prefix_of(s) {
        assert(s.subrange(0, prefix.len() as int)[k] == s[k]);
    }
}

/// What an icon name begins with tells the kind of an output, the more specific beginning
/// before the more general one.
pub proof fn lemma_icon_names_tell_the_kind(icon: &str, kind: DeviceKind)
    requires
        call_ensures(device_kind_from_icon_name, (Some(icon),), kind),
    ensures
        "audio-headset"@.is_prefix_of(icon@) ==> kind == DeviceKind::Headset,
        "audio-headphone"@.is_prefix_of(icon@) ==> kind == DeviceKind::Headphones,
        "audio-speaker"@.is_prefix_of(icon@) ==> kind == DeviceKind::Speakers,
        "audio-card-hdmi"@.is_prefix_of(icon@) ==> kind == DeviceKind::Monitor,
        "audio-card-spdif"@.is_prefix_of(icon@) ==> kind == DeviceKind::Monitor,
        "audio-card-dp"@.is_prefix_of(icon@) ==> kind == DeviceKind::Monitor,
        "audio-card-displayport"@.is_prefix_of(icon@) ==> kind == DeviceKind::Monitor,
        "audio-card"@.is_prefix_of(icon@) ==> kind == DeviceKind::Speakers || kind
            == DeviceKind::Monitor,
        icon@ == "audio-card"@ ==> kind == DeviceKind::Speakers,
        "video-display"@.is_prefix_of(icon@) ==> kind == DeviceKind::Monitor,
        "video-monitor"@.is_prefix_of(icon@) ==> kind == DeviceKind::Monitor,
        "audio-handsfree"@.is_prefix_of(icon@) ==> kind == DeviceKind::Phone,
        "audio-cellphone"@.is_prefix_of(icon@) ==> kind == DeviceKind::Phone,
        icon@ == "phone"@ ==> kind == DeviceKind::Phone,
        "tv"@.is_prefix_of(icon@) ==> kind == DeviceKind::Tv,
        "television"@.is_prefix_of(icon@) ==> kind == DeviceKind::Tv,
{
    reveal_strlit("audio-headset");
    reveal_strlit("audio-headphone");
    reveal_strlit("audio-speaker");
    reveal_strlit("audio-card-hdmi");
    reveal_strlit("audio-card-spdif");
    reveal_strlit("audio-card-dp");
    reveal_strlit("audio-card-displayport");
    reveal_strlit("audio-card");
    reveal_strlit("video-display");
    reveal_strlit("video-monitor");
    reveal_strlit("audio-handsfree");
    reveal_strlit("audio-cellphone");
    reveal_strlit("phone");
    reveal_strlit("tv");
    reveal_strlit("television");
    let s = icon@;
    lemma_prefix_at("audio-headset"@, s, 0);
    lemma_prefix_at("audio-headset"@, s, 6);
    lemma_prefix_at("audio-headset"@, s, 7);
    lemma_prefix_at("audio-headset"@, s, 10);
    lemma_prefix_at("audio-headphone"@, s, 0);
    lemma_prefix_at("audio-headphone"@, s, 6);
    lemma_prefix_at("audio-headphone"@, s, 7);
    lemma_prefix_at("audio-headphone"@, s, 10);
    lemma_prefix_at("audio-speaker"@, s, 0);
    lemma_prefix_at("audio-speaker"@, s, 6);
    lemma_prefix_at("audio-speaker"@, s, 7);
    lemma_prefix_at("audio-speaker"@, s, 10);
    lemma_prefix_at("audio-card-hdmi"@, s, 0);
    lemma_prefix_at("audio-card-hdmi"@, s, 6);
    lemma_prefix_at("audio-card-hdmi"@, s, 7);
    lemma_prefix_at("audio-card-hdmi"@, s, 10);
    lemma_prefix_at("audio-card-spdif"@, s, 0);
    lemma_prefix_at("audio-card-spdif"@, s, 6);
    lemma_prefix_at("audio-card-spdif"@, s, 7);
    lemma_prefix_at("audio-card-spdif"@, s, 10);
    lemma_prefix_at("audio-card-dp"@, s, 0);
    lemma_prefix_at("audio-card-dp"@, s, 6);
    lemma_prefix_at("audio-card-dp"@, s, 7);
    lemma_prefix_at("audio-card-dp"@, s, 10);
    lemma_prefix_at("audio-card-displayport"@, s, 0);
    lemma_prefix_at("audio-card-displayport"@, s, 6);
    lemma_prefix_at("audio-card-displayport"@, s, 7);
    lemma_prefix_at("audio-card-displayport"@, s, 10);
    lemma_prefix_at("audio-card"@, s, 0);
    lemma_prefix_at("audio-card"@, s, 6);
    lemma_prefix_at("audio-card"@, s, 7);
    lemma_prefix_at("video-display"@, s, 0);
    lemma_prefix_at("video-display"@, s, 6);
    lemma_prefix_at("video-display"@, s, 7);
    lemma_prefix_at("video-display"@, s, 10);
    lemma_prefix_at("video-monitor"@, s, 0);
    lemma_prefix_at("video-monitor"@, s, 6);
    lemma_prefix_at("video-monitor"@, s, 7);
    lemma_prefix_at("video-monitor"@, s, 10);
    lemma_prefix_at("audio-handsfree"@, s, 0);
    lemma_prefix_at("audio-handsfree"@, s, 6);
    lemma_prefix_at("audio-handsfree"@, s, 7);
    lemma_prefix_at("audio-handsfree"@, s, 10);
    lemma_prefix_at("audio-cellphone"@, s, 0);
    lemma_prefix_at("audio-cellphone"@, s, 6);
    lemma_prefix_at("audio-cellphone"@, s, 7);
    lemma_prefix_at("audio-cellphone"@, s, 10);
    lemma_prefix_at("tv"@, s, 0);
    lemma_prefix_at("television"@, s, 0);
    lemma_prefix_at("television"@, s, 6);
    lemma_prefix_at("television"@, s, 7);
}

/// A form factor tells the kind of an output.
pub proof fn lemma_form_factors_tell_the_kind(form: &str, kind: DeviceKind)
    requires
        call_ensures(device_kind_from_form_factor, (Some(form),), kind),
    ensures
        form@ == "headphone"@ || form@ == "earphone"@ ==> kind == DeviceKind::Headphones,
        form@ == "headset"@ ==> kind == DeviceKind::Headset,
        form@ == "speaker"@ || form@ == "desk"@ || form@ == "hifi"@ || form@ == "computer"@
            || form@ == "portable"@ ==> kind == DeviceKind::Speakers,
        form@ == "monitor"@ ==> kind == DeviceKind::Monitor,
        form@ == "tv"@ ==> kind == DeviceKind::Tv,
        form@ == "handset"@ || form@ == "phone"@ || form@ == "car"@ ==> kind == DeviceKind::Phone,
        kind != DeviceKind::Other ==> form@.len() <= 9,
{
    reveal_strlit("headphone");
    reveal_strlit("earphone");
    reveal_strlit("headset");
    reveal_strlit("speaker");
    reveal_strlit("desk");
    reveal_strlit("hifi");
    reveal_strlit("computer");
    reveal_strlit("portable");
    reveal_strlit("monitor");
    reveal_strlit("tv");
    reveal_strlit("handset");
    reveal_strlit("phone");
    reveal_strlit("car");
    let s = form@;
    assert(s == "headphone"@ ==> s.len() == 9);
    assert(s == "earphone"@ || s == "computer"@ || s == "portable"@ ==> s.len() == 8);
    assert(s == "earphone"@ ==> s[0] == 'e');
    assert(s == "computer"@ ==> s[0] == 'c');
    assert(s == "portable"@ ==> s[0] == 'p');
    assert(s == "headset"@ ==> s.len() == 7 && s[0] == 'h' && s[1] == 'e');
    assert(s == "handset"@ ==> s.len() == 7 && s[0] == 'h' && s[1] == 'a');
    assert(s == "speaker"@ ==> s.len() == 7 && s[0] == 's');
    assert(s == "monitor"@ ==> s.len() == 7 && s[0] == 'm');
    assert(s == "desk"@ ==> s.len() == 4 && s[0] == 'd');
    assert(s == "hifi"@ ==> s.len() == 4 && s[0] == 'h');
    assert(s == "phone"@ ==> s.len() == 5);
    assert(s == "car"@ ==> s.len() == 3);
    assert(s == "tv"@ ==> s.len() == 2);
}

/// The icon name of an output tells its kind, and its form factor does only where the icon
/// name tells none.
pub proof fn lemma_the_icon_name_comes_before_the_form_factor(
    props: Properties,
    icon: Option<&str>,
    form: Option<&str>,
    by_icon: DeviceKind,
    by_form: DeviceKind,
    kind: DeviceKind,
)
    requires
        call_ensures(Properties::get, (&props, "device.icon-name"), icon),
        call_ensures(Properties::get, (&props, "device.form-factor"), form),
        call_ensures(device_kind_from_icon_name, (icon,), by_icon),
        call_ensures(device_kind_from_form_factor, (form,), by_form),
        call_ensures(device_kind_from_props, (&props,), kind),
    ensures
        by_icon != DeviceKind::Other ==> kind == by_icon,
        by_icon == DeviceKind::Other ==> kind == by_form,
        icon is None ==> by_icon == DeviceKind::Other,
        form is None ==> by_form == DeviceKind::Other,
{
}

/// A property is what the first entry of its name holds.
pub proof fn lemma_the_first_entry_is_the_property(
    entries: Vec<(String, String)>,
    properties: Properties,
    key: &str,
    value: Option<&str>,
    at: int,
)
    requires
        call_ensures(Properties::new, (entries,), properties),
        call_ensures(Properties::get, (&properties, key), value),
        0 <= at <= entries@.len(),
        forall|j: int| 0 <= j < at ==> (#[trigger] entries@[j]).0@ != key@,
        at < entries@.len() ==> entries@[at].0@ == key@,
    ensures
        at < entries@.len() ==> (value matches Some(value) && value@ == entries@[at].1@),
        at == entries@.len() ==> value is None,
{
    let pairs = properties@;
    assert forall|j: int| 0 <= j < at implies (#[trigger] pairs[j]).0 != key@ by {
        assert(pairs[j].0 == entries@[j].0@);
    }
    lemma_lookup(pairs, key@, at);
}

proof fn lemma_lookup(entries: Seq<(Seq<char>, Seq<char>)>, key: Seq<char>, at: int)
    requires
        0 <= at <= entries.len(),
        forall|j: int| 0 <= j < at ==> (#[trigger] entries[j]).0 != key,
        at < entries.len() ==> entries[at].0 == key,
    ensures
        lookup(entries, key) == if at < entries.len() {
            Some(entries[at].1)
        } else {
            None
        },
    decreases at,
{
    if at > 0 {
        let rest = entries.skip(1);
        assert(entries[0].0 != key);
        assert forall|j: int| 0 <= j < at - 1 implies (#[trigger] rest[j]).0 != key by {
            assert(rest[j] == entries[j + 1]);
        }
        lemma_lookup(rest, key, at - 1);
    }
}

/// An object is watched exactly when it is a node whose class is that of an audio output,
/// and then under its name.
pub proof fn lemma_audio_outputs_are_watched(
    is_node: bool,
    props: Properties,
    class: Option<&str>,
    node: Option<&str>,
    sink: bool,
    name: Option<String>,
)
    requires
        call_ensures(Properties::get, (&props, "media.class"), class),
        call_ensures(Properties::get, (&props, "node.name"), node),
        call_ensures(is_audio_sink, (&props,), sink),
        call_ensures(sink_to_watch, (is_node, Some(&props)), name),
    ensures
        sink <==> class is Some && class->0@ == "Audio/Sink"@,
        name is Some <==> is_node && sink,
        name is Some && node is Some ==> name->0@ == node->0@,
{
}

/// A connection is given up when the core reports an error, when a sync cannot be sent,
/// or when one went unanswered to the next heartbeat; an answer of the core settles it.
pub proof fn lemma_silence_ends_a_connection(
    liveness: &mut Liveness,
    sent: bool,
    failed: bool,
    asked: Liveness,
    action: WatchdogAction,
    id: u32,
    quit: bool,
)
    requires
        call_ensures(Liveness::sync_issued, (liveness, sent), failed),
        call_ensures(Liveness::on_watchdog, (&asked,), action),
        call_ensures(Liveness::on_error, (&asked, id), quit),
    ensures
        failed == !sent,
        sent ==> final(liveness).pending_sync,
        !sent ==> final(liveness).pending_sync == old(liveness).pending_sync,
        final(liveness).handshook == old(liveness).handshook,
        action == WatchdogAction::Quit <==> asked.pending_sync,
        quit <==> id == 0,
{
}

/// An answer of the core settles what was asked, and the first one completes the
/// handshake; an answer on another object means nothing.
pub proof fn lemma_the_core_answers_for_the_connection(
    liveness: &mut Liveness,
    id: u32,
    completed: bool,
)
    requires
        call_ensures(Liveness::on_done, (liveness, id), completed),
    ensures
        id == 0 ==> !final(liveness).pending_sync && final(liveness).handshook && completed == !old(
            liveness,
        ).handshook,
        id != 0 ==> *final(liveness) == *old(liveness) && !completed,
{
}

/// A session that ends is followed by another one unless nobody takes readings any more.
/// One that reached the server is followed after a second, with the reading left standing;
/// the waits behind those that did not double up to half a minute, and the reading is
/// blanked from the second one on.
pub proof fn lemma_lost_sessions_are_retried(
    supervisor: &mut Supervisor,
    handshook: bool,
    closed: bool,
    verdict: Verdict,
)
    requires
        old(supervisor).wf(),
        call_ensures(Supervisor::session_ended, (supervisor, handshook, closed), verdict),
    ensures
        closed ==> verdict == Verdict::Stop,
        !closed ==> (verdict matches Verdict::Retry { delay, blank, failures } && {
            &&& handshook ==> delay == 1_000_000_000 && failures == 1
            &&& !handshook ==> delay == old(supervisor)@.0
            &&& !handshook && old(supervisor)@.1 < u32::MAX ==> failures == old(supervisor)@.1 + 1
            &&& blank <==> failures > 1 || failures == 0
            &&& final(supervisor)@.0 == if 2 * delay <= 30_000_000_000 {
                2 * delay
            } else {
                30_000_000_000
            }
            &&& final(supervisor)@.1 == failures
        }),
{
}

/// The picked candidate plays, no other that plays comes before it by name, and of those
/// that share its name it is the first listed.
pub proof fn lemma_the_first_playing_candidate_is_picked(
    candidates: Seq<(u32, &str, bool)>,
    picked: int,
    j: int,
)
    requires
        is_picked(candidates, picked),
        0 <= j < candidates.len(),
        candidates[j].2,
    ensures
        0 <= picked < candidates.len(),
        candidates[picked].2,
        !text::precedes(candidates[j].1@, candidates[picked].1@),
        candidates[j].1@ == candidates[picked].1@ ==> picked <= j,
{
}

} // verus!
