//! One output's bar: its geometry, its buffers, and when it is painted.
//!
//! Geometry is kept in logical pixels; the buffers are larger by the output's scale.
//! Two buffers take turns, so that one can be painted while the compositor still
//! shows the other.

use crate::config::layout;
use crate::config::{Config, ConfigView};
use crate::fixed::Fixed;
use crate::outputs::OutputId;
use crate::redraw::{self, RedrawScheduler, RedrawState};
use crate::render::Bounds;
use crate::scale::{self, Scale};
use crate::text;
use crate::time::Moment;
use crate::widget::Dashboard;
use vstd::prelude::*;
use vstd::string::StringExecFns;

verus! {

/// The width a bar is taken to have until the compositor tells it, in logical
/// pixels.
pub const INITIAL_WIDTH: u32 = 1920;

/// The part of a buffer that a frame changed.
#[derive(Debug, Clone, Copy, PartialEq, Eq, Structural)]
pub enum Damage {
    /// All of it.
    Full,
    /// A rectangle.
    Region(Bounds),
}

/// The smaller of two numbers.
pub open spec fn lesser(a: int, b: int) -> int {
    if a < b {
        a
    } else {
        b
    }
}

/// The part of a rectangle that lies on a buffer of this size.
pub open spec fn clipped(region: Bounds, width: u32, height: u32) -> Bounds {
    let x = lesser(region.x as int, width as int);
    let y = lesser(region.y as int, height as int);
    Bounds {
        x: x as u32,
        y: y as u32,
        width: lesser(region.width as int, width - x) as u32,
        height: lesser(region.height as int, height - y) as u32,
    }
}

/// The rectangle that is damaged: what changed, as far as it lies on the buffer. A
/// change that paints nothing still has to show the buffer, so it counts as all.
pub open spec fn damaged(damage: Damage, width: u32, height: u32) -> Bounds {
    let full = Bounds { x: 0, y: 0, width, height };
    match damage {
        Damage::Full => full,
        Damage::Region(region) => {
            let part = clipped(region, width, height);
            if part.width == 0 || part.height == 0 {
                full
            } else {
                part
            }
        },
    }
}

/// The damaged rectangle of a buffer of this size: its corner, width and height.
pub fn damage_rect(damage: Damage, width: u32, height: u32) -> (rect: (i32, i32, i32, i32))
    ensures
        ({
            let part = damaged(damage, width, height);
            rect == (part.x as i32, part.y as i32, part.width as i32, part.height as i32)
        }),
{
    let region: Bounds = match damage {
        Damage::Full => Bounds { x: 0, y: 0, width, height },
        Damage::Region(region) => region,
    };
    let x: u32 = if region.x < width {
        region.x
    } else {
        width
    };
    let y: u32 = if region.y < height {
        region.y
    } else {
        height
    };
    let w: u32 = if region.width < width - x {
        region.width
    } else {
        width - x
    };
    let h: u32 = if region.height < height - y {
        region.height
    } else {
        height - y
    };
    if w == 0 || h == 0 {
        return (0, 0, width as i32, height as i32);
    }
    (x as i32, y as i32, w as i32, h as i32)
}

/// The damaged rectangle lies on the buffer, and is not empty unless the buffer is.
pub proof fn lemma_damage_stays_on_the_buffer(damage: Damage, width: u32, height: u32)
    ensures
        damaged(damage, width, height).x + damaged(damage, width, height).width <= width,
        damaged(damage, width, height).y + damaged(damage, width, height).height <= height,
        width > 0 ==> damaged(damage, width, height).width > 0,
        height > 0 ==> damaged(damage, width, height).height > 0,
{
}

/// What to call a damage in logs.
pub fn damage_label(damage: Damage) -> (label: String)
    ensures
        label@ == match damage {
            Damage::Full => "full"@,
            Damage::Region(region) => text::decimal_of(region.width as nat) + "x"@
                + text::decimal_of(region.height as nat),
        },
{
    match damage {
        Damage::Full => "full".to_owned(),
        Damage::Region(region) => {
            let mut label: String = text::decimal(region.width as u64);
            label.append("x");
            label.append(text::decimal(region.height as u64).as_str());
            label
        },
    }
}

/// One of a bar's two buffers.
#[derive(Debug, Clone, Copy, PartialEq, Eq, Structural)]
pub enum Slot {
    /// The first.
    First,
    /// The second.
    Second,
}

/// How to paint one frame.
#[derive(Debug, Clone, Copy, PartialEq, Eq, Structural)]
pub struct FramePlan {
    /// The width in device pixels.
    pub width: u32,
    /// The height in device pixels.
    pub height: u32,
    /// The bytes of one row.
    pub stride: i32,
    /// The buffer to paint.
    pub slot: Slot,
    /// Whether that buffer is there, for use if the compositor has released it.
    pub allocated: bool,
    /// Whether nothing on screen matches the new frame, since its size changed.
    pub invalidated: bool,
}

/// One output's bar.
pub struct Surface {
    id: OutputId,
    width: u32,
    height: u32,
    scale: Scale,
    config: Config,
    monitor: Option<String>,
    dashboard: Dashboard,
    slots: (bool, bool),
    buffer_px: (u32, u32),
    next_slot: Slot,
    configured: bool,
    presented: bool,
    redraw: RedrawScheduler,
}

/// The contents of a [`Surface`].
#[verifier::ext_equal]
pub struct SurfaceView {
    /// The output.
    pub id: OutputId,
    /// The width in logical pixels.
    pub width: u32,
    /// The height in logical pixels.
    pub height: u32,
    /// Device pixels per logical pixel.
    pub scale: int,
    /// The configuration of this output.
    pub config: ConfigView,
    /// The connector name of the output.
    pub monitor: Option<Seq<char>>,
    /// The widgets of the bar.
    pub board: Dashboard,
    /// Which of the two buffers are there.
    pub slots: (bool, bool),
    /// The size of the buffers in device pixels.
    pub buffer_px: (u32, u32),
    /// The buffer to paint next.
    pub next_slot: Slot,
    /// Whether the compositor has told the size.
    pub configured: bool,
    /// Whether a frame was shown.
    pub presented: bool,
    /// The pending repaint.
    pub redraw: RedrawState,
}

impl View for Surface {
    type V = SurfaceView;

    closed spec fn view(&self) -> SurfaceView {
        SurfaceView {
            id: self.id,
            width: self.width,
            height: self.height,
            scale: self.scale@,
            config: self.config@,
            monitor: text::optional(self.monitor),
            board: self.dashboard,
            slots: self.slots,
            buffer_px: self.buffer_px,
            next_slot: self.next_slot,
            configured: self.configured,
            presented: self.presented,
            redraw: self.redraw@,
        }
    }
}

/// Whether a dashboard is the one that a configuration describes for a monitor.
pub open spec fn is_dashboard_of(
    config: ConfigView,
    bounds: Bounds,
    monitor: Option<Seq<char>>,
    dashboard: Dashboard,
) -> bool {
    &&& layout::zone_described(
        config,
        config.bar.left_zone(),
        bounds,
        monitor,
        dashboard.left@,
    )
    &&& layout::zone_described(
        config,
        config.bar.center_zone(),
        bounds,
        monitor,
        dashboard.center@,
    )
    &&& layout::zone_described(
        config,
        config.bar.right_zone(),
        bounds,
        monitor,
        dashboard.right@,
    )
    &&& dashboard.margin == config.bar.margin
    &&& dashboard.gap == config.bar.gap
}

/// `n`, but at least one.
pub open spec fn positive(n: u32) -> u32 {
    if n == 0 {
        1
    } else {
        n
    }
}

impl SurfaceView {
    /// The size in device pixels.
    pub open spec fn physical(self) -> (int, int) {
        (
            scale::scaled_length(self.scale, self.width as int),
            scale::scaled_length(self.scale, self.height as int),
        )
    }

    /// With a repaint requested.
    pub open spec fn repainting(self, cause: Seq<char>) -> SurfaceView {
        SurfaceView { redraw: self.redraw.requested(cause), ..self }
    }

    /// With another configuration, and the widgets `board`.
    pub open spec fn with_config(self, config: ConfigView, board: Dashboard) -> SurfaceView {
        let resized = self.height != config.height;
        SurfaceView {
            height: config.height,
            config,
            board,
            slots: if resized {
                (false, false)
            } else {
                self.slots
            },
            buffer_px: if resized {
                (0, 0)
            } else {
                self.buffer_px
            },
            ..self.repainting("config-reload"@)
        }
    }

    /// Whether a slot has a buffer.
    pub open spec fn has_buffer(self, slot: Slot) -> bool {
        match slot {
            Slot::First => self.slots.0,
            Slot::Second => self.slots.1,
        }
    }
}

/// The other buffer.
pub open spec fn other_slot(slot: Slot) -> Slot {
    match slot {
        Slot::First => Slot::Second,
        Slot::Second => Slot::First,
    }
}

impl Surface {
    /// A bar for the output `id` with the connector name `monitor`. Its width and
    /// scale are not known yet.
    pub fn new(id: OutputId, monitor: Option<&str>, config: Config) -> (surface: Self)
        ensures
            surface@ == (SurfaceView {
                id,
                width: INITIAL_WIDTH,
                height: config@.height,
                scale: 1,
                config: config@,
                monitor: text::optional_str(monitor),
                board: surface@.board,
                slots: (false, false),
                buffer_px: (0, 0),
                next_slot: Slot::First,
                configured: false,
                presented: false,
                redraw: RedrawState::clean(),
            }),
            is_dashboard_of(
                config@,
                Bounds { x: 0, y: 0, width: INITIAL_WIDTH, height: config@.height },
                text::optional_str(monitor),
                surface@.board,
            ),
    {
        let full = Bounds { x: 0, y: 0, width: INITIAL_WIDTH, height: config.height };
        let dashboard: Dashboard = config.build_dashboard(full, monitor);
        Surface {
            id,
            width: INITIAL_WIDTH,
            height: config.height,
            scale: Scale::one(),
            config,
            monitor: match monitor {
                Some(monitor) => Some(monitor.to_owned()),
                None => None,
            },
            dashboard,
            slots: (false, false),
            buffer_px: (0, 0),
            next_slot: Slot::First,
            configured: false,
            presented: false,
            redraw: RedrawScheduler::new(),
        }
    }

    /// The output.
    pub fn id(&self) -> (id: OutputId)
        ensures
            id == self@.id,
    {
        self.id
    }

    /// The size in logical pixels.
    pub fn size(&self) -> (size: (u32, u32))
        ensures
            size == (self@.width, self@.height),
    {
        (self.width, self.height)
    }

    /// The scale of the output.
    pub fn scale(&self) -> (scale: Scale)
        ensures
            scale@ == self@.scale,
    {
        self.scale
    }

    /// The configuration of this output.
    pub fn config(&self) -> (config: &Config)
        ensures
            config@ == self@.config,
    {
        &self.config
    }

    /// The connector name of the output.
    pub fn monitor(&self) -> (monitor: Option<&str>)
        ensures
            text::optional_str(monitor) == self@.monitor,
    {
        match &self.monitor {
            Some(monitor) => Some(monitor.as_str()),
            None => None,
        }
    }

    /// The widgets of the bar.
    pub fn dashboard(&self) -> (dashboard: &Dashboard)
        ensures
            *dashboard == self@.board,
    {
        &self.dashboard
    }

    /// The device pixel under a place on the surface: none off its near edges.
    pub fn pixel_at(&self, x: Fixed, y: Fixed) -> (pixel: Option<(u32, u32)>)
        ensures
            pixel == match (x.physical_spec(self@.scale), y.physical_spec(self@.scale)) {
                (Some(x), Some(y)) => Some((x, y)),
                _ => None,
            },
    {
        match (x.physical(self.scale), y.physical(self.scale)) {
            (Some(x), Some(y)) => Some((x, y)),
            _ => None,
        }
    }

    /// Take a new configuration; true when the height changed.
    ///
    /// The widgets are built anew, and the bar is painted at once. The buffers are
    /// given up only when the height changed.
    pub fn apply_config(&mut self, config: Config) -> (resized: bool)
        ensures
            resized == (old(self)@.height != config@.height),
            final(self)@ == old(self)@.with_config(config@, final(self)@.board),
            is_dashboard_of(
                config@,
                Bounds {
                    x: 0,
                    y: 0,
                    width: positive(old(self)@.width),
                    height: positive(config@.height),
                },
                old(self)@.monitor,
                final(self)@.board,
            ),
    {
        let resized: bool = self.height != config.height;
        if resized {
            self.height = config.height;
            self.slots = (false, false);
            self.buffer_px = (0, 0);
        }
        let full = Bounds {
            x: 0,
            y: 0,
            width: if self.width == 0 {
                1
            } else {
                self.width
            },
            height: if self.height == 0 {
                1
            } else {
                self.height
            },
        };
        let dashboard: Dashboard = config.build_dashboard(full, self.monitor());
        self.dashboard = dashboard;
        self.config = config;
        self.redraw.request("config-reload");
        resized
    }

    /// A message was applied to the widgets: the bar is painted if something
    /// visible changed.
    pub fn noted(&mut self, changed: bool, kind: &'static str)
        ensures
            final(self)@ == if changed {
                old(self)@.repainting(kind@)
            } else {
                old(self)@
            },
    {
        if changed {
            self.redraw.request(kind);
        }
    }

    /// Take the scale of the output; true when it is another one.
    pub fn set_scale(&mut self, scale: Scale) -> (changed: bool)
        ensures
            changed == (old(self)@.scale != scale@),
            final(self)@ == if changed {
                (SurfaceView { scale: scale@, ..old(self)@.repainting("scale-change"@) })
            } else {
                old(self)@
            },
    {
        if self.scale.get() == scale.get() {
            return false;
        }
        self.scale = scale;
        self.redraw.request("scale-change");
        true
    }

    /// Take the size the compositor tells; true the first time, when the bar is
    /// painted whether or not anything changed. A zero leaves the size to the bar.
    pub fn configure(&mut self, width: u32, height: u32) -> (first: bool)
        ensures
            first == !old(self)@.configured,
            ({
                let sized = SurfaceView {
                    width: if width != 0 {
                        width
                    } else {
                        old(self)@.width
                    },
                    height: if height != 0 {
                        height
                    } else {
                        old(self)@.height
                    },
                    configured: true,
                    ..old(self)@
                };
                final(self)@ == if first {
                    sized.repainting("configure"@)
                } else {
                    sized
                }
            }),
    {
        if width != 0 {
            self.width = width;
        }
        if height != 0 {
            self.height = height;
        }
        let first: bool = !self.configured;
        self.configured = true;
        if first {
            self.redraw.request("configure");
        }
        first
    }

    /// The cause to paint for at `now`, if there is one and the compositor is ready.
    /// Nothing is painted before the compositor told the size.
    pub fn take_frame(&mut self, now: Moment) -> (cause: Option<&'static str>)
        ensures
            redraw::cause_text(cause) == if old(self)@.configured {
                old(self)@.redraw.due(now)
            } else {
                None
            },
            final(self)@ == if old(self)@.configured {
                (SurfaceView { redraw: old(self)@.redraw.taken(now), ..old(self)@ })
            } else {
                old(self)@
            },
    {
        if !self.configured {
            return None;
        }
        self.redraw.take_due(now)
    }

    /// Begin a frame: the two buffers take turns, and both are given up when the size
    /// changed.
    pub fn begin_frame(&mut self) -> (plan: FramePlan)
        requires
            old(self)@.physical().0 <= 0x1FFF_FFFF,
        ensures
            ({
                let (width, height) = old(self)@.physical();
                let kept = old(self)@.buffer_px == (width as u32, height as u32);
                &&& plan == (FramePlan {
                    width: width as u32,
                    height: height as u32,
                    stride: (4 * width) as i32,
                    slot: old(self)@.next_slot,
                    allocated: kept && old(self)@.has_buffer(old(self)@.next_slot),
                    invalidated: !kept,
                })
                &&& final(self)@ == (SurfaceView {
                    slots: if kept {
                        old(self)@.slots
                    } else {
                        (false, false)
                    },
                    buffer_px: (width as u32, height as u32),
                    next_slot: other_slot(old(self)@.next_slot),
                    ..old(self)@
                })
            }),
    {
        let (width, height) = self.scale.to_physical_size(self.width, self.height);
        let invalidated: bool = self.buffer_px.0 != width || self.buffer_px.1 != height;
        if invalidated {
            self.slots = (false, false);
            self.buffer_px = (width, height);
        }
        let slot: Slot = self.next_slot;
        let allocated: bool = match slot {
            Slot::First => self.slots.0,
            Slot::Second => self.slots.1,
        };
        self.next_slot = match slot {
            Slot::First => Slot::Second,
            Slot::Second => Slot::First,
        };
        FramePlan { width, height, stride: width as i32 * 4, slot, allocated, invalidated }
    }

    /// A new buffer was made for a slot.
    pub fn buffer_made(&mut self, slot: Slot)
        ensures
            final(self)@ == (SurfaceView {
                slots: match slot {
                    Slot::First => (true, old(self)@.slots.1),
                    Slot::Second => (old(self)@.slots.0, true),
                },
                ..old(self)@
            }),
    {
        match slot {
            Slot::First => {
                self.slots.0 = true;
            },
            Slot::Second => {
                self.slots.1 = true;
            },
        }
    }

    /// A frame was committed at `now`; true when it is the bar's first.
    pub fn committed(&mut self, now: Moment) -> (first: bool)
        ensures
            first == !old(self)@.presented,
            final(self)@ == (SurfaceView {
                presented: true,
                redraw: old(self)@.redraw.after_commit(now),
                ..old(self)@
            }),
    {
        self.redraw.committed(now);
        let first: bool = !self.presented;
        self.presented = true;
        first
    }

    /// The compositor showed the last frame.
    pub fn frame_done(&mut self)
        ensures
            final(self)@ == (SurfaceView {
                redraw: old(self)@.redraw.after_frame(),
                ..old(self)@
            }),
    {
        self.redraw.frame_done();
    }

    /// When a requested repaint stops waiting for the compositor, if one waits.
    pub fn wake_deadline(&self) -> (deadline: Option<Moment>)
        ensures
            deadline == wake_of(self@),
    {
        self.redraw.wake_deadline()
    }
}

/// When a requested repaint stops waiting for the compositor, if one waits.
pub open spec fn wake_of(surface: SurfaceView) -> Option<Moment> {
    match (surface.redraw.cause, surface.redraw.awaiting_frame) {
        (Some(_), Some(since)) => Some(
            since.later_spec(redraw::FRAME_CALLBACK_TIMEOUT as int),
        ),
        _ => None,
    }
}

/// While the size stays, two frames in a row never paint the same buffer.
pub proof fn lemma_buffers_take_turns(slot: Slot)
    ensures
        other_slot(slot) != slot,
        other_slot(other_slot(slot)) == slot,
{
}

/// The damaged rectangle holds every changed pixel that is on the buffer, and where some
/// is, no other one.
pub proof fn lemma_every_changed_pixel_is_damaged(
    region: Bounds,
    width: u32,
    height: u32,
    rect: (i32, i32, i32, i32),
    x: int,
    y: int,
)
    requires
        call_ensures(damage_rect, (Damage::Region(region), width, height), rect),
        width <= i32::MAX,
        height <= i32::MAX,
        0 <= x < width,
        0 <= y < height,
    ensures
        ({
            let changed = region.x <= x < region.x + region.width && region.y <= y < region.y
                + region.height;
            let inside = rect.0 <= x < rect.0 + rect.2 && rect.1 <= y < rect.1 + rect.3;
            let empty = region.width == 0 || region.height == 0 || region.x >= width || region.y
                >= height;
            &&& changed ==> inside
            &&& !empty ==> (inside <==> changed)
            &&& empty ==> inside
        }),
        rect.0 >= 0 && rect.1 >= 0 && rect.0 + rect.2 <= width && rect.1 + rect.3 <= height,
{
}

/// A frame that changed everything damages the whole buffer.
pub proof fn lemma_a_whole_frame_damages_everything(
    width: u32,
    height: u32,
    rect: (i32, i32, i32, i32),
)
    requires
        call_ensures(damage_rect, (Damage::Full, width, height), rect),
        width <= i32::MAX,
        height <= i32::MAX,
    ensures
        rect == (0i32, 0i32, width as i32, height as i32),
{
}

/// A new bar has the height that is configured for its output, its name and its widgets,
/// and has nothing painted or pending.
pub proof fn lemma_a_new_bar_is_as_configured(
    id: OutputId,
    monitor: Option<&str>,
    config: Config,
    bar: Surface,
    told: (OutputId, (u32, u32), &Config, Option<&str>),
)
    requires
        call_ensures(Surface::new, (id, monitor, config), bar),
        call_ensures(Surface::id, (&bar,), told.0),
        call_ensures(Surface::size, (&bar,), told.1),
        call_ensures(Surface::config, (&bar,), told.2),
        call_ensures(Surface::monitor, (&bar,), told.3),
    ensures
        told.0 == id,
        told.1 == (1920u32, config@.height),
        told.2@ == config@,
        told.3 is Some <==> monitor is Some,
        told.3 is Some ==> told.3->0@ == monitor->0@,
        bar@.scale == 1,
        bar@.redraw.cause is None,
        bar@.redraw.awaiting_frame is None,
        !bar@.configured,
        !bar@.presented,
        !bar@.slots.0 && !bar@.slots.1,
        bar@.board.margin == config@.bar.margin,
        bar@.board.gap == config@.bar.gap,
        bar@.board.left@.len() == config@.bar.left_zone().len(),
        bar@.board.center@.len() == config@.bar.center_zone().len(),
        bar@.board.right@.len() == config@.bar.right_zone().len(),
{
}

/// A bar takes the height and the widgets of its new configuration and is painted; its
/// buffers are given up exactly when its height changes. Nothing else of it changes.
pub proof fn lemma_a_bar_follows_its_configuration(
    bar: &mut Surface,
    config: Config,
    resized: bool,
)
    requires
        call_ensures(Surface::apply_config, (bar, config), resized),
    ensures
        resized <==> old(bar)@.height != config@.height,
        final(bar)@.height == config@.height,
        final(bar)@.config == config@,
        final(bar)@.board.margin == config@.bar.margin,
        final(bar)@.board.gap == config@.bar.gap,
        final(bar)@.board.left@.len() == config@.bar.left_zone().len(),
        final(bar)@.redraw.cause is Some,
        old(bar)@.redraw.cause is None ==> final(bar)@.redraw.cause == Some("config-reload"@),
        old(bar)@.redraw.cause is Some ==> final(bar)@.redraw.cause == old(bar)@.redraw.cause,
        resized ==> final(bar)@.slots == (false, false) && final(bar)@.buffer_px == (0u32, 0u32),
        !resized ==> final(bar)@.slots == old(bar)@.slots && final(bar)@.buffer_px == old(
            bar,
        )@.buffer_px,
        final(bar)@.id == old(bar)@.id,
        final(bar)@.width == old(bar)@.width,
        final(bar)@.scale == old(bar)@.scale,
        final(bar)@.monitor == old(bar)@.monitor,
        final(bar)@.next_slot == old(bar)@.next_slot,
        final(bar)@.configured == old(bar)@.configured,
        final(bar)@.presented == old(bar)@.presented,
{
}

/// A change that shows makes a bar paint, and one that does not leaves it as it is.
pub proof fn lemma_a_visible_change_is_painted(
    bar: &mut Surface,
    changed: bool,
    kind: &'static str,
)
    requires
        call_ensures(Surface::noted, (bar, changed, kind), ()),
    ensures
        changed ==> final(bar)@.redraw.cause is Some,
        changed && old(bar)@.redraw.cause is None ==> final(bar)@.redraw.cause == Some(kind@),
        !changed ==> final(bar)@ == old(bar)@,
        final(bar)@.height == old(bar)@.height,
        final(bar)@.board == old(bar)@.board,
{
}

/// A bar takes the scale of its output and is painted anew where it is another one.
pub proof fn lemma_a_bar_follows_its_scale(bar: &mut Surface, scale: Scale, changed: bool)
    requires
        call_ensures(Surface::set_scale, (bar, scale), changed),
    ensures
        final(bar)@.scale == scale@,
        changed <==> old(bar)@.scale != scale@,
        changed ==> final(bar)@.redraw.cause is Some,
        !changed ==> final(bar)@ == old(bar)@,
        final(bar)@.width == old(bar)@.width,
        final(bar)@.height == old(bar)@.height,
{
}

/// A bar takes each length the compositor tells and keeps its own where it tells none; the
/// first time it is painted in any case.
pub proof fn lemma_a_bar_takes_the_size_it_is_told(
    bar: &mut Surface,
    width: u32,
    height: u32,
    first: bool,
)
    requires
        call_ensures(Surface::configure, (bar, width, height), first),
    ensures
        width > 0 ==> final(bar)@.width == width,
        width == 0 ==> final(bar)@.width == old(bar)@.width,
        height > 0 ==> final(bar)@.height == height,
        height == 0 ==> final(bar)@.height == old(bar)@.height,
        final(bar)@.configured,
        first <==> !old(bar)@.configured,
        first ==> final(bar)@.redraw.cause is Some,
        !first ==> final(bar)@.redraw == old(bar)@.redraw,
        final(bar)@.scale == old(bar)@.scale,
{
}

/// Nothing is painted before the size is known; from then on a bar is painted for what is
/// pending, unless it awaits a frame since less than a second.
pub proof fn lemma_a_bar_paints_when_it_may(
    bar: &mut Surface,
    now: Moment,
    cause: Option<&'static str>,
)
    requires
        call_ensures(Surface::take_frame, (bar, now), cause),
    ensures
        ({
            let before = old(bar)@.redraw;
            let held = before.awaiting_frame is Some && now.nanos
                < before.awaiting_frame->0.nanos + 1_000_000_000;
            &&& cause is Some <==> old(bar)@.configured && !held && before.cause is Some
            &&& cause is Some ==> cause->0@ == before.cause->0 && final(bar)@.redraw.cause is None
            &&& cause is None ==> final(bar)@.redraw.cause == before.cause
            &&& final(bar)@.redraw.awaiting_frame == before.awaiting_frame
        }),
        final(bar)@.next_slot == old(bar)@.next_slot,
{
}

/// A frame is as large as the bar in device pixels, four bytes to a pixel. It goes into
/// the buffer that the last one did not, which is there only if the size has not changed.
pub proof fn lemma_a_frame_fits_the_bar(bar: &mut Surface, plan: FramePlan)
    requires
        old(bar)@.width * old(bar)@.scale <= 0x1FFF_FFFF,
        old(bar)@.height * old(bar)@.scale <= u32::MAX,
        old(bar)@.scale >= 1,
        call_ensures(Surface::begin_frame, (bar,), plan),
    ensures
        plan.width == old(bar)@.width * old(bar)@.scale,
        plan.height == old(bar)@.height * old(bar)@.scale,
        plan.stride == 4 * plan.width,
        plan.slot == old(bar)@.next_slot,
        final(bar)@.next_slot != plan.slot,
        final(bar)@.buffer_px == (plan.width, plan.height),
        plan.invalidated <==> old(bar)@.buffer_px != (plan.width, plan.height),
        plan.invalidated ==> !plan.allocated && final(bar)@.slots == (false, false),
        !plan.invalidated ==> final(bar)@.slots == old(bar)@.slots,
        !plan.invalidated && plan.slot == Slot::First ==> plan.allocated == old(bar)@.slots.0,
        !plan.invalidated && plan.slot == Slot::Second ==> plan.allocated == old(bar)@.slots.1,
{
    let before = bar@;
    assert(before.width * before.scale >= 0) by (nonlinear_arith)
        requires
            before.width >= 0,
            before.scale >= 1,
    ;
    assert(before.height * before.scale >= 0) by (nonlinear_arith)
        requires
            before.height >= 0,
            before.scale >= 1,
    ;
}

/// A buffer that is made is there, and the other one stays as it was.
pub proof fn lemma_a_buffer_is_there_once_made(bar: &mut Surface, slot: Slot)
    requires
        call_ensures(Surface::buffer_made, (bar, slot), ()),
    ensures
        slot == Slot::First ==> final(bar)@.slots.0 && final(bar)@.slots.1 == old(bar)@.slots.1,
        slot == Slot::Second ==> final(bar)@.slots.1 && final(bar)@.slots.0 == old(bar)@.slots.0,
        final(bar)@.buffer_px == old(bar)@.buffer_px,
{
}

/// A commit awaits its frame and is the first one once; the frame that comes ends that.
pub proof fn lemma_a_bar_is_first_shown_once(
    bar: &mut Surface,
    now: Moment,
    first: bool,
    shown: &mut Surface,
)
    requires
        call_ensures(Surface::committed, (bar, now), first),
        call_ensures(Surface::frame_done, (shown,), ()),
    ensures
        first <==> !old(bar)@.presented,
        final(bar)@.presented,
        final(bar)@.redraw.awaiting_frame == Some(now),
        final(bar)@.redraw.cause == old(bar)@.redraw.cause,
        final(shown)@.redraw.awaiting_frame is None,
        final(shown)@.redraw.cause == old(shown)@.redraw.cause,
        final(shown)@.presented == old(shown)@.presented,
{
}

/// A place on a bar is in the device pixel that its coordinates are in, and in none where
/// one of them is before the edge.
pub proof fn lemma_a_place_is_in_its_pixel(
    bar: Surface,
    x: Fixed,
    y: Fixed,
    pixel: Option<(u32, u32)>,
)
    requires
        call_ensures(Surface::pixel_at, (&bar, x, y), pixel),
        bar@.scale >= 1,
    ensures
        pixel is Some <==> x.raw >= 0 && y.raw >= 0,
        pixel matches Some((across, down)) ==> {
            &&& across < u32::MAX ==> 256 * across <= x.raw * bar@.scale < 256 * (across + 1)
            &&& down < u32::MAX ==> 256 * down <= y.raw * bar@.scale < 256 * (down + 1)
        },
{
    let s = bar@.scale;
    assert(x.raw >= 0 ==> x.raw * s >= 0) by (nonlinear_arith)
        requires
            s >= 1,
    ;
    assert(y.raw >= 0 ==> y.raw * s >= 0) by (nonlinear_arith)
        requires
            s >= 1,
    ;
}

/// The name of a damage is its size.
pub proof fn lemma_a_damage_is_called_by_its_size(region: Bounds, label: String, whole: String)
    requires
        call_ensures(damage_label, (Damage::Region(region),), label),
        call_ensures(damage_label, (Damage::Full,), whole),
    ensures
        whole@ == "full"@,
        label@ == text::decimal_of(region.width as nat) + "x"@ + text::decimal_of(
            region.height as nat,
        ),
{
}

} // verus!
