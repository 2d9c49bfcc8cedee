//! What happens to all bars at once: they are made, painted, scaled, given a new
//! configuration, and woken.

use crate::config::{Config, ConfigView};
use crate::outputs::{OutputId, Outputs, OutputsView};
use crate::redraw::RedrawState;
use crate::render::Bounds;
use crate::scale::Scale;
use crate::surface::{self, Slot, Surface, SurfaceView};
use crate::text;
use crate::time::Moment;
use vstd::prelude::*;

verus! {

/// Whether a bar was just made for an output, with the widgets of its configuration.
pub open spec fn is_fresh(
    bar: SurfaceView,
    id: OutputId,
    config: ConfigView,
    monitor: Option<Seq<char>>,
) -> bool {
    &&& bar == SurfaceView {
        id,
        width: surface::INITIAL_WIDTH,
        height: config.height,
        scale: 1,
        config,
        monitor,
        board: bar.board,
        slots: (false, false),
        buffer_px: (0, 0),
        next_slot: Slot::First,
        configured: false,
        presented: false,
        redraw: RedrawState::clean(),
    }
    &&& surface::is_dashboard_of(
        config,
        Bounds { x: 0, y: 0, width: surface::INITIAL_WIDTH, height: config.height },
        monitor,
        bar.board,
    )
}

/// Give an output a bar if it has none; true when it got one.
pub fn add(outputs: &mut Outputs<Surface>, id: OutputId, name: Option<&str>) -> (built: bool)
    ensures
        built == !old(outputs)@.bars.dom().contains(id),
        !built ==> final(outputs)@ == old(outputs)@,
        built ==> {
            let bar = final(outputs)@.bars[id];
            &&& final(outputs)@ == (OutputsView {
                bars: old(outputs)@.bars.insert(id, bar),
                ..old(outputs)@
            })
            &&& is_fresh(
                bar@,
                id,
                old(outputs)@.base@.for_output(text::optional_str(name)),
                text::optional_str(name),
            )
        },
{
    let build = |config: Config| -> (bar: Surface)
        ensures
            is_fresh(bar@, id, config@, text::optional_str(name)),
    {
        Surface::new(id, name, config)
    };
    outputs.ensure(id, name, build)
}

/// Whether `after` are the bars with a repaint of those in `changed` requested.
pub open spec fn are_repainted(
    before: Map<OutputId, Surface>,
    after: Map<OutputId, Surface>,
    changed: Seq<OutputId>,
    kind: Seq<char>,
) -> bool {
    &&& after.dom() == before.dom()
    &&& forall|id: OutputId| #[trigger]
        before.dom().contains(id) ==> if changed.contains(id) {
            after[id]@ == before[id]@.repainting(kind)
        } else {
            after[id] == before[id]
        }
}

/// Whether one of these outputs has a bar.
pub open spec fn some_bar(bars: Map<OutputId, Surface>, ids: Seq<OutputId>) -> bool {
    exists|i: int| 0 <= i < ids.len() && bars.dom().contains(#[trigger] ids[i])
}

/// Request a repaint of each of these bars; true when there is one.
pub fn repaint_all(
    outputs: &mut Outputs<Surface>,
    changed: &Vec<OutputId>,
    kind: &'static str,
) -> (any: bool)
    ensures
        final(outputs)@.base == old(outputs)@.base,
        are_repainted(old(outputs)@.bars, final(outputs)@.bars, changed@, kind@),
        any == some_bar(old(outputs)@.bars, changed@),
{
    let ghost before = outputs@.bars;
    let mut any: bool = false;
    let mut i: usize = 0;
    while i < changed.len()
        invariant
            i <= changed@.len(),
            before == old(outputs)@.bars,
            outputs@.base == old(outputs)@.base,
            are_repainted(before, outputs@.bars, changed@.take(i as int), kind@),
            any == some_bar(before, changed@.take(i as int)),
        decreases changed@.len() - i,
    {
        let id: OutputId = changed[i];
        let ghost so_far = outputs@.bars;
        let painted: bool = repaint(outputs, id, kind);
        any = any || painted;
        proof {
            lemma_one_more_repainted(before, so_far, outputs@.bars, changed@, i as int, kind@);
        }
        i += 1;
    }
    assert(changed@.take(i as int) =~= changed@);
    any
}

fn repaint(outputs: &mut Outputs<Surface>, id: OutputId, kind: &'static str) -> (painted: bool)
    ensures
        final(outputs)@.base == old(outputs)@.base,
        painted == old(outputs)@.bars.dom().contains(id),
        painted ==> final(outputs)@.bars == old(outputs)@.bars.insert(id, final(outputs)@.bars[id])
            && final(outputs)@.bars[id]@ == old(outputs)@.bars[id]@.repainting(kind@),
        !painted ==> final(outputs)@.bars == old(outputs)@.bars,
{
    match outputs.get_mut(id) {
        Some(bar) => {
            bar.noted(true, kind);
            true
        },
        None => false,
    }
}

proof fn lemma_one_more_repainted(
    before: Map<OutputId, Surface>,
    so_far: Map<OutputId, Surface>,
    after: Map<OutputId, Surface>,
    changed: Seq<OutputId>,
    i: int,
    kind: Seq<char>,
)
    requires
        0 <= i < changed.len(),
        are_repainted(before, so_far, changed.take(i), kind),
        so_far.dom().contains(changed[i]) ==> after == so_far.insert(changed[i], after[changed[i]])
            && after[changed[i]]@ == so_far[changed[i]]@.repainting(kind),
        !so_far.dom().contains(changed[i]) ==> after == so_far,
    ensures
        are_repainted(before, after, changed.take(i + 1), kind),
        some_bar(before, changed.take(i + 1)) == (some_bar(before, changed.take(i))
            || before.dom().contains(changed[i])),
{
    let id = changed[i];
    let done = changed.take(i);
    let more = changed.take(i + 1);
    assert(more =~= done.push(id));
    assert(more[i] == id);
    assert forall|other: OutputId| more.contains(other) <==> done.contains(other) || other == id by {
        if done.contains(other) {
            let k = choose|k: int| 0 <= k < done.len() && done[k] == other;
            assert(more[k] == other);
        }
    }
    if some_bar(before, done) {
        let k = choose|k: int| 0 <= k < done.len() && before.dom().contains(#[trigger] done[k]);
        assert(before.dom().contains(more[k]));
    }
    if some_bar(before, more) && !before.dom().contains(id) {
        let k = choose|k: int| 0 <= k < more.len() && before.dom().contains(#[trigger] more[k]);
        assert(before.dom().contains(done[k]));
    }
    assert(after.dom() =~= before.dom());
    assert forall|other: OutputId| #[trigger] before.dom().contains(other) implies if more.contains(
        other,
    ) {
        after[other]@ == before[other]@.repainting(kind)
    } else {
        after[other] == before[other]
    } by {
        assert(so_far.dom().contains(other));
    }
}

/// Whether `after` are the bars once the one of `changed` took another scale.
pub open spec fn are_rescaled(
    before: Map<OutputId, Surface>,
    after: Map<OutputId, Surface>,
    changed: Option<OutputId>,
    scale: int,
) -> bool {
    &&& after.dom() == before.dom()
    &&& forall|id: OutputId| #[trigger]
        before.dom().contains(id) ==> after[id]@ == if changed == Some(id) {
            (SurfaceView { scale, ..before[id]@.repainting("scale-change"@) })
        } else {
            before[id]@
        }
}

/// Tell the bar of an output its scale; true when it is another one.
pub fn rescale(outputs: &mut Outputs<Surface>, id: OutputId, scale: Scale) -> (changed: bool)
    ensures
        final(outputs)@.base == old(outputs)@.base,
        changed == (old(outputs)@.bars.dom().contains(id) && old(outputs)@.bars[id]@.scale
            != scale@),
        are_rescaled(
            old(outputs)@.bars,
            final(outputs)@.bars,
            if changed {
                Some(id)
            } else {
                None
            },
            scale@,
        ),
{
    let changed: bool = match outputs.get_mut(id) {
        Some(bar) => bar.set_scale(scale),
        None => false,
    };
    assert(outputs@.bars.dom() =~= old(outputs)@.bars.dom());
    changed
}

/// Whether `after` is a bar that took the configuration `config`: it has the widgets
/// that the configuration describes for it.
pub open spec fn is_reconfigured(
    before: SurfaceView,
    after: SurfaceView,
    config: ConfigView,
) -> bool {
    &&& after == before.with_config(config, after.board)
    &&& surface::is_dashboard_of(
        config,
        Bounds {
            x: 0,
            y: 0,
            width: surface::positive(before.width),
            height: surface::positive(config.height),
        },
        before.monitor,
        after.board,
    )
}

/// Whether `after` are the bars with their configurations replaced, each by what
/// `base` makes of the connector name in `names`. Bars that are not named stay.
pub open spec fn are_reconfigured(
    before: Map<OutputId, Surface>,
    after: Map<OutputId, Surface>,
    base: Config,
    names: Seq<(OutputId, Option<String>)>,
) -> bool {
    &&& after.dom() == before.dom()
    &&& forall|k: int|
        0 <= k < names.len() && before.dom().contains((#[trigger] names[k]).0)
            ==> is_reconfigured(
            before[names[k].0]@,
            after[names[k].0]@,
            base@.for_output(text::optional(names[k].1)),
        )
    &&& forall|id: OutputId| #[trigger]
        before.dom().contains(id) && (forall|k: int|
            0 <= k < names.len() ==> (#[trigger] names[k]).0 != id) ==> after[id] == before[id]
}

/// Whether no output is named twice.
pub open spec fn named_once(names: Seq<(OutputId, Option<String>)>) -> bool {
    forall|i: int, j: int|
        0 <= i < j < names.len() ==> (#[trigger] names[i]).0 != (#[trigger] names[j]).0
}

/// Whether `resized` are the outputs whose bars changed their height.
pub open spec fn are_resized(
    before: Map<OutputId, Surface>,
    after: Map<OutputId, Surface>,
    resized: Seq<OutputId>,
) -> bool {
    forall|id: OutputId| #[trigger]
        resized.contains(id) <==> before.dom().contains(id) && after[id]@.height
            != before[id]@.height
}

/// Give every bar what a new configuration says for its output, given the connector
/// name of each; the outputs whose bars changed their height.
pub fn reconfigure_all(
    outputs: &mut Outputs<Surface>,
    config: Config,
    names: &Vec<(OutputId, Option<String>)>,
) -> (resized: Vec<OutputId>)
    requires
        named_once(names@),
    ensures
        final(outputs)@.base == config,
        are_reconfigured(old(outputs)@.bars, final(outputs)@.bars, config, names@),
        are_resized(old(outputs)@.bars, final(outputs)@.bars, resized@),
{
    outputs.set_base(config);
    let ghost before = old(outputs)@.bars;
    let mut resized: Vec<OutputId> = Vec::new();
    let mut i: usize = 0;
    while i < names.len()
        invariant
            i <= names@.len(),
            named_once(names@),
            before == old(outputs)@.bars,
            outputs@.base == config,
            are_reconfigured(before, outputs@.bars, config, names@.take(i as int)),
            are_resized(before, outputs@.bars, resized@),
        decreases names@.len() - i,
    {
        let ghost so_far = outputs@.bars;
        let ghost listed = resized@;
        let id: OutputId = names[i].0;
        if reconfigure(outputs, id, &names[i].1) {
            resized.push(id);
        }
        proof {
            lemma_one_more_reconfigured(
                before,
                so_far,
                outputs@.bars,
                config,
                names@,
                i as int,
                listed,
                resized@,
            );
        }
        i += 1;
    }
    assert(names@.take(i as int) =~= names@);
    resized
}

fn reconfigure(outputs: &mut Outputs<Surface>, id: OutputId, name: &Option<String>) -> (resized:
    bool)
    ensures
        final(outputs)@.base == old(outputs)@.base,
        old(outputs)@.bars.dom().contains(id) ==> {
            let bar = final(outputs)@.bars[id];
            &&& final(outputs)@.bars == old(outputs)@.bars.insert(id, bar)
            &&& is_reconfigured(
                old(outputs)@.bars[id]@,
                bar@,
                old(outputs)@.base@.for_output(text::optional(*name)),
            )
            &&& resized == (bar@.height != old(outputs)@.bars[id]@.height)
        },
        !old(outputs)@.bars.dom().contains(id) ==> final(outputs)@.bars == old(outputs)@.bars
            && !resized,
{
    let name: Option<&str> = match name {
        Some(name) => Some(name.as_str()),
        None => None,
    };
    let resolved: Config = outputs.config_for(name);
    match outputs.get_mut(id) {
        Some(bar) => bar.apply_config(resolved),
        None => false,
    }
}

proof fn lemma_one_more_reconfigured(
    before: Map<OutputId, Surface>,
    so_far: Map<OutputId, Surface>,
    after: Map<OutputId, Surface>,
    base: Config,
    names: Seq<(OutputId, Option<String>)>,
    i: int,
    listed: Seq<OutputId>,
    resized: Seq<OutputId>,
)
    requires
        0 <= i < names.len(),
        named_once(names),
        are_reconfigured(before, so_far, base, names.take(i)),
        are_resized(before, so_far, listed),
        so_far.dom().contains(names[i].0) ==> {
            &&& after == so_far.insert(names[i].0, after[names[i].0])
            &&& is_reconfigured(
                so_far[names[i].0]@,
                after[names[i].0]@,
                base@.for_output(text::optional(names[i].1)),
            )
            &&& resized == if after[names[i].0]@.height != so_far[names[i].0]@.height {
                listed.push(names[i].0)
            } else {
                listed
            }
        },
        !so_far.dom().contains(names[i].0) ==> after == so_far && resized == listed,
    ensures
        are_reconfigured(before, after, base, names.take(i + 1)),
        are_resized(before, after, resized),
{
    let id = names[i].0;
    let done = names.take(i);
    let more = names.take(i + 1);
    assert forall|k: int| 0 <= k < done.len() implies (#[trigger] done[k]).0 != id by {
        assert(names[k].0 != names[i].0);
    }
    if before.dom().contains(id) {
        assert(so_far[id] == before[id]);
    }
    assert(after.dom() =~= before.dom());
    assert forall|k: int| 0 <= k < more.len() && before.dom().contains(
        (#[trigger] more[k]).0,
    ) implies is_reconfigured(
        before[more[k].0]@,
        after[more[k].0]@,
        base@.for_output(text::optional(more[k].1)),
    ) by {
        if k < i {
            assert(more[k] == done[k]);
            assert(done[k].0 != id);
        } else {
            assert(more[k] == names[i]);
        }
    }
    assert forall|other: OutputId| #[trigger] before.dom().contains(other) && (forall|k: int|
        0 <= k < more.len() ==> (#[trigger] more[k]).0 != other) implies after[other]
        == before[other] by {
        assert(more[i].0 != other);
        assert forall|k: int| 0 <= k < done.len() implies (#[trigger] done[k]).0 != other by {
            assert(more[k] == done[k]);
        }
    }
    assert forall|other: OutputId| #[trigger] resized.contains(other) <==> before.dom().contains(
        other,
    ) && after[other]@.height != before[other]@.height by {
        assert(listed.contains(other) <==> before.dom().contains(other)
            && so_far[other]@.height != before[other]@.height);
        if resized.len() > listed.len() {
            assert(resized[listed.len() as int] == id);
            if listed.contains(other) {
                let k = choose|k: int| 0 <= k < listed.len() && listed[k] == other;
                assert(resized[k] == other);
            }
        }
    }
}

/// When the bar of an output has to be looked at, if it waits.
pub open spec fn wake_for(bars: Map<OutputId, Surface>, id: OutputId) -> Option<Moment> {
    surface::wake_of(bars[id]@)
}

/// Whether `deadline` is the first moment at which a waiting bar has to be looked at.
pub open spec fn is_first_wake(bars: Map<OutputId, Surface>, deadline: Option<Moment>) -> bool {
    match deadline {
        Some(deadline) => {
            &&& exists|id: OutputId| #[trigger]
                bars.dom().contains(id) && wake_for(bars, id) == Some(deadline)
            &&& forall|id: OutputId| #[trigger]
                bars.dom().contains(id) ==> (wake_for(bars, id) matches Some(other)
                    ==> deadline.nanos <= other.nanos)
        },
        None => forall|id: OutputId| #[trigger]
            bars.dom().contains(id) ==> wake_for(bars, id) is None,
    }
}

/// The first moment at which a waiting bar has to be looked at.
pub fn first_wake(outputs: &Outputs<Surface>) -> (first: Option<Moment>)
    ensures
        is_first_wake(outputs@.bars, first),
{
    let ids: Vec<OutputId> = outputs.ids();
    let ghost bars = outputs@.bars;
    let mut first: Option<Moment> = None;
    let mut i: usize = 0;
    while i < ids.len()
        invariant
            i <= ids@.len(),
            bars == outputs@.bars,
            ids@.to_set() == bars.dom(),
            match first {
                Some(first) => {
                    &&& exists|id: OutputId| #[trigger]
                        bars.dom().contains(id) && wake_for(bars, id) == Some(first)
                    &&& forall|k: int|
                        0 <= k < i ==> (wake_for(bars, #[trigger] ids@[k]) matches Some(other)
                            ==> first.nanos <= other.nanos)
                },
                None => forall|k: int| 0 <= k < i ==> wake_for(bars, #[trigger] ids@[k]) is None,
            },
        decreases ids@.len() - i,
    {
        let id: OutputId = ids[i];
        proof {
            assert(ids@.to_set().contains(ids@[i as int]));
        }
        match outputs.get(id) {
            Some(bar) => match bar.wake_deadline() {
                Some(deadline) => {
                    let sooner: bool = match first {
                        Some(first) => deadline.nanos < first.nanos,
                        None => true,
                    };
                    if sooner {
                        assert(bars.dom().contains(id) && wake_for(bars, id) == Some(deadline));
                        first = Some(deadline);
                    }
                },
                None => {},
            },
            None => {},
        }
        i += 1;
    }
    proof {
        assert forall|id: OutputId| #[trigger] bars.dom().contains(id) implies exists|k: int|
            0 <= k < ids@.len() && #[trigger] ids@[k] == id by {
            assert(ids@.to_set().contains(id));
            let k = ids@.index_of(id);
            assert(ids@.contains(id));
        }
    }
    first
}

/// Exactly the bars that changed are made to paint, and nothing else of them changes.
pub proof fn lemma_exactly_changed_bars_are_painted(
    outputs: &mut Outputs<Surface>,
    changed: Vec<OutputId>,
    kind: &'static str,
    any: bool,
    id: OutputId,
)
    requires
        call_ensures(repaint_all, (outputs, &changed, kind), any),
        old(outputs)@.bars.dom().contains(id),
    ensures
        final(outputs)@.bars.dom() == old(outputs)@.bars.dom(),
        changed@.contains(id) ==> any && final(outputs)@.bars[id]@.redraw.cause is Some,
        changed@.contains(id) && old(outputs)@.bars[id]@.redraw.cause is None ==> final(outputs)@.bars[id]@.redraw.cause == Some(kind@),
        !changed@.contains(id) ==> final(outputs)@.bars[id] == old(outputs)@.bars[id],
        final(outputs)@.bars[id]@.board == old(outputs)@.bars[id]@.board,
        final(outputs)@.bars[id]@.height == old(outputs)@.bars[id]@.height,
{
    if changed@.contains(id) {
        let i = choose|i: int| 0 <= i < changed@.len() && changed@[i] == id;
        assert(outputs@.bars.dom().contains(changed@[i]));
    }
}

/// A new scale reaches the bar of its output alone, which is painted at it.
pub proof fn lemma_a_scale_reaches_its_bar_alone(
    outputs: &mut Outputs<Surface>,
    id: OutputId,
    scale: Scale,
    changed: bool,
    other: OutputId,
)
    requires
        call_ensures(rescale, (outputs, id, scale), changed),
    ensures
        old(outputs)@.bars.dom().contains(id) ==> final(outputs)@.bars[id]@.scale == scale@,
        changed ==> final(outputs)@.bars[id]@.redraw.cause is Some,
        old(outputs)@.bars.dom().contains(other) && (other != id || !changed) ==> final(outputs)@.bars[other]@ == old(outputs)@.bars[other]@,
        final(outputs)@.bars.dom() == old(outputs)@.bars.dom(),
{
}

/// Every bar that is named takes what the new configuration says for its output, is
/// painted, and is listed exactly when its height changed.
pub proof fn lemma_every_bar_takes_its_configuration(
    outputs: &mut Outputs<Surface>,
    config: Config,
    names: Vec<(OutputId, Option<String>)>,
    resized: Vec<OutputId>,
    k: int,
    name: &str,
    resolved: Config,
)
    requires
        named_once(names@),
        call_ensures(reconfigure_all, (outputs, config, &names), resized),
        0 <= k < names@.len(),
        old(outputs)@.bars.dom().contains(names@[k].0),
        names@[k].1 is Some,
        names@[k].1->0@ == name@,
        call_ensures(Config::resolve_for_output, (&config, Some(name)), resolved),
    ensures
        ({
            let id = names@[k].0;
            let before = old(outputs)@.bars[id]@;
            let after = final(outputs)@.bars[id]@;
            &&& after.config == resolved@
            &&& after.height == resolved@.height
            &&& after.board.margin == resolved@.bar.margin
            &&& after.board.gap == resolved@.bar.gap
            &&& after.redraw.cause is Some
            &&& after.scale == before.scale
            &&& after.width == before.width
            &&& after.monitor == before.monitor
            &&& resized@.contains(id) <==> before.height != resolved@.height
        }),
        final(outputs)@.base == config,
{
}

/// The first waiting bar wakes the loop: no bar waits past that moment, and there is one
/// exactly where a bar has something to paint and awaits a frame.
pub proof fn lemma_the_first_waiting_bar_wakes(
    outputs: Outputs<Surface>,
    first: Option<Moment>,
    id: OutputId,
)
    requires
        call_ensures(first_wake, (&outputs,), first),
        outputs@.bars.dom().contains(id),
        outputs@.bars[id]@.redraw.cause is Some,
        outputs@.bars[id]@.redraw.awaiting_frame is Some,
        outputs@.bars[id]@.redraw.awaiting_frame->0.nanos + 1_000_000_000 <= u64::MAX,
    ensures
        first is Some,
        first->0.nanos <= outputs@.bars[id]@.redraw.awaiting_frame->0.nanos + 1_000_000_000,
{
    assert(wake_for(outputs@.bars, id) is Some);
}

/// The loop is not woken where no bar waits.
pub proof fn lemma_idle_bars_do_not_wake(outputs: Outputs<Surface>, first: Option<Moment>)
    requires
        call_ensures(first_wake, (&outputs,), first),
        forall|id: OutputId| #[trigger]
            outputs@.bars.dom().contains(id) ==> outputs@.bars[id]@.redraw.cause is None
                || outputs@.bars[id]@.redraw.awaiting_frame is None,
    ensures
        first is None,
{
}

} // verus!
