//! The whole of the bars: which outputs have one, which popup is shown, what the
//! pointer does, and what happens when a source has news.

use crate::bars;
use crate::config::Config;
use crate::fixed::Fixed;
use crate::message::{self, Msg, ProducerSnapshot, Workspaces};
use crate::outputs::{OutputId, Outputs};
use crate::pointer::{self, AxisScroll};
use crate::popup::{self, MenuRow, MenuStep, OpenMenu, Rgba};
use crate::redraw::RedrawState;
use crate::render::Bounds;
use crate::scale::Scale;
use crate::surface::{self, Slot, Surface, SurfaceView};
use crate::text;
use crate::time::Moment;
use crate::tray::TrayMenu;
use crate::widget::{ClickButton, Command, ScrollDirection};
use vstd::prelude::*;

verus! {

/// The kernel's code of the primary button.
pub const BTN_LEFT: u32 = 0x110;

/// The kernel's code of the secondary button.
pub const BTN_RIGHT: u32 = 0x111;

/// The tooltip that is shown.
#[derive(Debug, PartialEq, Eq)]
pub struct ShownTooltip {
    /// The output whose bar it hangs from.
    pub output: OutputId,
    /// The text.
    pub text: String,
    /// The scale it is painted at.
    pub scale: Scale,
}

/// A tray menu that was asked for.
#[derive(Debug, PartialEq, Eq)]
pub struct PendingMenu {
    /// The address of the item.
    pub key: String,
    /// The output whose bar was clicked.
    pub output: OutputId,
    /// Where the menu is to hang.
    pub anchor: (i32, i32),
    /// The scale of the output.
    pub scale: Scale,
    /// The background of the bar.
    pub background: Rgba,
    /// The color of text.
    pub foreground: Rgba,
    /// The color of what is switched on.
    pub accent: Rgba,
    /// The serial of the click.
    pub serial: u32,
}

/// A click on a workspace that has not shown yet.
#[derive(Debug, PartialEq, Eq)]
pub struct PendingWorkspace {
    /// The workspace.
    pub target: i32,
    /// The connector name of the output that was clicked.
    pub monitor: Option<String>,
    /// When it was clicked.
    pub started: Moment,
}

/// The shape of the pointer.
#[derive(Debug, Clone, Copy, PartialEq, Eq, Structural)]
pub enum Cursor {
    /// The plain arrow.
    Arrow,
    /// The hand over something that can be clicked.
    Hand,
}

/// Whose surface an event is on.
#[derive(Debug, Clone, Copy, PartialEq, Eq, Structural)]
pub enum Owner {
    /// The shown tray menu.
    Menu,
    /// The shown tooltip.
    Tooltip,
    /// The bar of an output.
    Bar(OutputId),
    /// None of these.
    Unknown,
}

/// What to do about the tooltip.
#[derive(Debug, Clone, Copy, PartialEq, Eq, Structural)]
pub enum TooltipStep {
    /// Leave it.
    Keep,
    /// Hide it.
    Hide,
    /// Hide it and show the new one, for an output of this scale.
    Show(Scale),
}

/// What to do about a tray menu.
#[derive(Debug, PartialEq, Eq)]
pub enum TrayMenuStep {
    /// Nothing.
    Ignore,
    /// Paint the shown one anew.
    Repaint,
    /// Close the shown one.
    Close,
    /// Show these rows as a menu that was asked for.
    Open { pending: PendingMenu, rows: Vec<MenuRow> },
}

/// What to do about the timer that wakes the bars.
#[derive(Debug, Clone, Copy, PartialEq, Eq, Structural)]
pub enum WakeStep {
    /// Leave it.
    Keep,
    /// Take it away, and set it to this moment if there is one.
    Replace(Option<Moment>),
}

/// A click on a bar, where nothing but the bar knows what it asks for.
#[derive(Debug, PartialEq, Eq)]
pub struct BarClick {
    /// What it asks for.
    pub command: Option<Command>,
    /// Where the output lies on the screen.
    pub origin: (i32, i32),
    /// Where on the surface it was.
    pub local: (Fixed, Fixed),
    /// The serial of the click.
    pub serial: u32,
    /// The background of the bar.
    pub background: Rgba,
    /// The color of text.
    pub foreground: Rgba,
    /// The color of what is switched on.
    pub accent: Rgba,
    /// When it was, if times are recorded.
    pub started: Option<Moment>,
}

/// All bars and popups.
pub struct Shell {
    outputs: Outputs<Surface>,
    tooltip: Option<ShownTooltip>,
    pending_menu: Option<PendingMenu>,
    menu: Option<OpenMenu>,
    snapshot: ProducerSnapshot,
    pending_workspace: Option<PendingWorkspace>,
    committing_workspace: Option<PendingWorkspace>,
    cursor: Cursor,
    scroll_remainder: i64,
    wake_at: Option<Moment>,
    exit: bool,
}

/// The contents of a [`Shell`].
#[verifier::ext_equal]
pub struct ShellView {
    /// The bars, by output.
    pub bars: Map<OutputId, Surface>,
    /// The configuration that all outputs share.
    pub base: Config,
    /// The tooltip that is shown.
    pub tooltip: Option<ShownTooltip>,
    /// The tray menu that was asked for.
    pub pending_menu: Option<PendingMenu>,
    /// The tray menu that is shown.
    pub menu: Option<OpenMenu>,
    /// The latest news.
    pub snapshot: Seq<Msg>,
    /// A click on a workspace that awaits the session.
    pub pending_workspace: Option<PendingWorkspace>,
    /// A click on a workspace that awaits the next frame.
    pub committing_workspace: Option<PendingWorkspace>,
    /// The shape of the pointer.
    pub cursor: Cursor,
    /// Scrolling that was less than a step.
    pub scroll_remainder: i64,
    /// When the timer wakes the bars.
    pub wake_at: Option<Moment>,
    /// Whether the last bar is gone.
    pub exit: bool,
}

impl View for Shell {
    type V = ShellView;

    closed spec fn view(&self) -> ShellView {
        ShellView {
            bars: self.outputs@.bars,
            base: self.outputs@.base,
            tooltip: self.tooltip,
            pending_menu: self.pending_menu,
            menu: self.menu,
            snapshot: self.snapshot@,
            pending_workspace: self.pending_workspace,
            committing_workspace: self.committing_workspace,
            cursor: self.cursor,
            scroll_remainder: self.scroll_remainder,
            wake_at: self.wake_at,
            exit: self.exit,
        }
    }
}

impl ShellView {
    /// Without the tooltip.
    pub open spec fn untipped(self) -> ShellView {
        ShellView { tooltip: None, ..self }
    }

    /// Without the tray menu, also one that was asked for.
    pub open spec fn menuless(self) -> ShellView {
        ShellView { pending_menu: None, menu: None, ..self }
    }

    /// Whether this tooltip is the one that is shown.
    pub open spec fn shows(self, output: OutputId, text: Seq<char>) -> bool {
        self.tooltip matches Some(shown) && shown.output == output && shown.text@ == text
    }
}

/// Whether `step` is what to do about the tooltip when the pointer is over `text` on
/// `output`, or over nothing: one that is shown stays; one that is new is shown if
/// its output has a bar; otherwise there is none.
pub open spec fn is_tooltip_step(
    shell: ShellView,
    output: OutputId,
    text: Option<Seq<char>>,
    step: TooltipStep,
) -> bool {
    match text {
        None => step == TooltipStep::Hide,
        Some(text) => if shell.shows(output, text) {
            step == TooltipStep::Keep
        } else if !shell.bars.dom().contains(output) {
            step == TooltipStep::Hide
        } else {
            step matches TooltipStep::Show(scale) && scale@ == shell.bars[output]@.scale
        },
    }
}

/// The button of a kernel code: others than the two do nothing.
pub fn click_button(code: u32) -> (button: Option<ClickButton>)
    ensures
        button == if code == BTN_LEFT {
            Some(ClickButton::Left)
        } else if code == BTN_RIGHT {
            Some(ClickButton::Right)
        } else {
            None
        },
{
    if code == BTN_LEFT {
        Some(ClickButton::Left)
    } else if code == BTN_RIGHT {
        Some(ClickButton::Right)
    } else {
        None
    }
}

impl Shell {
    /// The parts are well-formed.
    pub closed spec fn wf(&self) -> bool {
        &&& self.snapshot.wf()
        &&& -pointer::STEP < self.scroll_remainder < pointer::STEP
    }

    /// No bars yet.
    pub fn new(config: Config) -> (shell: Self)
        ensures
            shell.wf(),
            shell@ == (ShellView {
                bars: Map::empty(),
                base: config,
                tooltip: None,
                pending_menu: None,
                menu: None,
                snapshot: seq![],
                pending_workspace: None,
                committing_workspace: None,
                cursor: Cursor::Arrow,
                scroll_remainder: 0,
                wake_at: None,
                exit: false,
            }),
    {
        Shell {
            outputs: Outputs::new(config),
            tooltip: None,
            pending_menu: None,
            menu: None,
            snapshot: ProducerSnapshot::default(),
            pending_workspace: None,
            committing_workspace: None,
            cursor: Cursor::Arrow,
            scroll_remainder: 0,
            wake_at: None,
            exit: false,
        }
    }

    /// Hide the tooltip.
    pub fn hide_tooltip(&mut self)
        requires
            old(self).wf(),
        ensures
            final(self).wf(),
            final(self)@ == old(self)@.untipped(),
    {
        self.tooltip = None;
    }

    /// Hide the tray menu, and forget one that was asked for.
    pub fn hide_tray_menu(&mut self)
        requires
            old(self).wf(),
        ensures
            final(self).wf(),
            final(self)@ == old(self)@.menuless(),
    {
        self.pending_menu = None;
        self.menu = None;
    }

    /// The pointer is over `text` on `output`, or over nothing that has a tooltip.
    pub fn update_tooltip(&mut self, output: OutputId, text: Option<&str>) -> (step: TooltipStep)
        requires
            old(self).wf(),
        ensures
            final(self).wf(),
            is_tooltip_step(old(self)@, output, text::optional_str(text), step),
            final(self)@ == if step == TooltipStep::Keep {
                old(self)@
            } else {
                old(self)@.untipped()
            },
    {
        let text: &str = match text {
            Some(text) => text,
            None => {
                self.hide_tooltip();
                return TooltipStep::Hide;
            },
        };
        let shown: bool = match &self.tooltip {
            Some(shown) => shown.output == output && text::same(shown.text.as_str(), text),
            None => false,
        };
        if shown {
            return TooltipStep::Keep;
        }
        self.hide_tooltip();
        match self.outputs.get(output) {
            Some(bar) => TooltipStep::Show(bar.scale()),
            None => TooltipStep::Hide,
        }
    }

    /// A tooltip is shown.
    pub fn tooltip_shown(&mut self, output: OutputId, text: String, scale: Scale)
        requires
            old(self).wf(),
        ensures
            final(self).wf(),
            final(self)@ == (ShellView {
                tooltip: Some(ShownTooltip { output, text, scale }),
                ..old(self)@
            }),
    {
        self.tooltip = Some(ShownTooltip { output, text, scale });
    }

    /// Whether the shape of the pointer has to be set: when it is another one, or
    /// the pointer just came onto the surface.
    pub fn wants_cursor(&self, cursor: Cursor, entered: bool) -> (wanted: bool)
        ensures
            wanted == (entered || self@.cursor != cursor),
    {
        entered || self.cursor != cursor
    }

    /// The shape of the pointer was set.
    pub fn cursor_set(&mut self, cursor: Cursor)
        requires
            old(self).wf(),
        ensures
            final(self).wf(),
            final(self)@ == (ShellView { cursor, ..old(self)@ }),
    {
        self.cursor = cursor;
    }

    /// The pointer moved over the shown menu: the shape it should have.
    pub fn menu_cursor(&self, y: Fixed) -> (cursor: Cursor)
        ensures
            self@.menu is None ==> cursor == Cursor::Arrow,
            self@.menu matches Some(menu) ==> {
                let rows = popup::row_views(menu.rows@);
                &&& cursor == Cursor::Hand ==> y.raw >= 0 && exists|i: int| #[trigger]
                    popup::is_row_at(rows, y.raw / 256, i) && rows[i].answers()
                &&& cursor == Cursor::Arrow ==> y.raw < 0 || y.raw / 256 >= popup::total_height(
                    rows,
                ) || exists|i: int| #[trigger]
                    popup::is_row_at(rows, y.raw / 256, i) && !rows[i].answers()
            },
    {
        match &self.menu {
            Some(menu) => {
                let ghost rows = popup::row_views(menu.rows@);
                match popup::row_at(&menu.rows, y) {
                    Some(i) => {
                        assert(rows[i as int] == menu.rows@[i as int]@);
                        if menu.rows[i].activatable() {
                            Cursor::Hand
                        } else {
                            Cursor::Arrow
                        }
                    },
                    None => Cursor::Arrow,
                }
            },
            None => Cursor::Arrow,
        }
    }

    /// The pointer left a surface. Leaving a bar hides its tooltip.
    pub fn on_leave(&mut self, owner: Owner)
        requires
            old(self).wf(),
        ensures
            final(self).wf(),
            final(self)@ == match owner {
                Owner::Bar(_) => ShellView { cursor: Cursor::Arrow, ..old(self)@.untipped() },
                Owner::Menu => ShellView { cursor: Cursor::Arrow, ..old(self)@ },
                _ => old(self)@,
            },
    {
        match owner {
            Owner::Bar(_) => {
                self.tooltip = None;
                self.cursor = Cursor::Arrow;
            },
            Owner::Menu => {
                self.cursor = Cursor::Arrow;
            },
            _ => {},
        }
    }

    /// The shown menu was clicked at `y`: the entry to activate, if the primary
    /// button hit one. The menu closes then, and stays otherwise.
    pub fn on_menu_click(&mut self, button: ClickButton, y: Fixed) -> (command: Option<Command>)
        requires
            old(self).wf(),
        ensures
            final(self).wf(),
            final(self)@ == if command is Some {
                old(self)@.menuless()
            } else {
                old(self)@
            },
            button == ClickButton::Right ==> command is None,
            old(self)@.menu is None ==> command is None,
            old(self)@.menu matches Some(menu) ==> button == ClickButton::Left ==> {
                let rows = popup::row_views(menu.rows@);
                match command {
                    Some(command) => y.raw >= 0 && exists|i: int| #[trigger]
                        popup::is_row_at(rows, y.raw / 256, i) && rows[i].answers()
                            && popup::activates(command, menu.key@, rows[i].id),
                    None => y.raw < 0 || y.raw / 256 >= popup::total_height(rows) || exists|i: int|
                     #[trigger]
                        popup::is_row_at(rows, y.raw / 256, i) && !rows[i].answers(),
                }
            },
    {
        if button != ClickButton::Left {
            return None;
        }
        let command: Option<Command> = match &self.menu {
            Some(menu) => {
                let ghost rows = popup::row_views(menu.rows@);
                proof {
                    assert forall|i: int| 0 <= i < rows.len() implies #[trigger] rows[i]
                        == menu.rows@[i]@ by {}
                }
                menu.command_at(y)
            },
            None => None,
        };
        if command.is_some() {
            self.hide_tray_menu();
        }
        command
    }

    /// Vertical scrolling: the whole steps it comes to.
    pub fn on_axis(&mut self, vertical: AxisScroll) -> (directions: Vec<ScrollDirection>)
        requires
            old(self).wf(),
        ensures
            final(self).wf(),
            ({
                let total = old(self)@.scroll_remainder + vertical.motion();
                let steps = pointer::whole_steps(total);
                &&& directions@ == pointer::directions_of(steps)
                &&& final(self)@ == (ShellView {
                    scroll_remainder: (total - steps * pointer::STEP) as i64,
                    ..old(self)@
                })
            }),
    {
        let mut remainder: i64 = self.scroll_remainder;
        let directions: Vec<ScrollDirection> = pointer::scroll_directions(vertical, &mut remainder);
        self.scroll_remainder = remainder;
        directions
    }
}

/// Whether `pending` is the menu that a click on a bar asks for.
pub open spec fn is_asked_for(
    pending: PendingMenu,
    command: Command,
    bar: SurfaceView,
    click: BarClick,
) -> bool {
    &&& command matches Command::OpenTrayMenu { key, .. } && pending.key@ == key@
    &&& pending.output == bar.id
    &&& pending.anchor == (click.local.0.whole_spec() as i32, bar.height as i32)
    &&& pending.scale@ == bar.scale
    &&& pending.background == click.background
    &&& pending.foreground == click.foreground
    &&& pending.accent == click.accent
    &&& pending.serial == click.serial
}

/// Whether the session shows what a click on a workspace asked for: on the output
/// that was clicked, where outputs are told apart.
pub open spec fn has_arrived(pending: PendingWorkspace, workspaces: Workspaces) -> bool {
    match pending.monitor {
        None => workspaces.focused() == pending.target,
        Some(monitor) => message::shown_on(workspaces.monitors(), monitor@) == Some(pending.target),
    }
}

/// The rows of a menu.
pub fn menu_rows(menu: &TrayMenu) -> (rows: Vec<MenuRow>)
    ensures
        popup::row_views(rows@) == popup::rows_of(menu.items@, 0),
{
    let mut rows: Vec<MenuRow> = Vec::new();
    popup::flatten_menu(&menu.items, 0, &mut rows);
    assert(popup::row_views(Seq::empty()) + popup::rows_of(menu.items@, 0) =~= popup::rows_of(
        menu.items@,
        0,
    ));
    rows
}

/// The menu to show for what was asked, given how wide the measured text of each row
/// is in device pixels.
pub fn open_menu(
    pending: &PendingMenu,
    revision: u32,
    rows: Vec<MenuRow>,
    text_widths: &Vec<u32>,
) -> (menu: OpenMenu)
    requires
        text_widths@.len() == rows@.len(),
    ensures
        menu.output == pending.output,
        menu.key@ == pending.key@,
        menu.revision == revision,
        menu.rows == rows,
        menu.width == popup::allowed_width(
            popup::ceiling(
                popup::widest_row(popup::row_views(rows@), text_widths@, pending.scale@),
                pending.scale@,
            ),
        ),
        menu.height == crate::fixed::pin(popup::total_height(popup::row_views(rows@))),
        menu.scale == pending.scale,
        menu.background == popup::popup_background_of(pending.background),
        menu.foreground == pending.foreground,
        menu.accent == pending.accent,
{
    let width: u32 = popup::menu_width(&rows, text_widths, pending.scale);
    let height: u32 = popup::menu_height(&rows);
    OpenMenu {
        output: pending.output,
        key: pending.key.clone(),
        revision,
        rows,
        width,
        height,
        scale: pending.scale,
        background: popup::popup_background(pending.background),
        foreground: pending.foreground,
        accent: pending.accent,
    }
}

impl Shell {
    /// The bar of `output` was clicked: the command to run, if the click asks for
    /// one.
    ///
    /// A command that opens a tray menu hides the popups and waits for the menu. A
    /// switch of workspaces is remembered until it shows, where times are recorded.
    pub fn on_bar_click(&mut self, output: OutputId, click: BarClick) -> (command: Option<Command>)
        requires
            old(self).wf(),
        ensures
            final(self).wf(),
            command is Some <==> click.command is Some && old(self)@.bars.dom().contains(output),
            command is None ==> final(self)@ == old(self)@,
            command matches Some(command) ==> {
                let bar = old(self)@.bars[output]@;
                &&& pointer::is_positioned(
                    click.command->0,
                    command,
                    pointer::added(click.origin.0 as int, click.local.0.whole_spec()),
                    pointer::added(click.origin.1 as int, click.local.1.whole_spec()),
                )
                &&& command is OpenTrayMenu ==> {
                    &&& final(self)@ == (ShellView {
                        pending_menu: final(self)@.pending_menu,
                        ..old(self)@.menuless().untipped()
                    })
                    &&& final(self)@.pending_menu is Some
                    &&& final(self)@.pending_menu->0.output == output
                    &&& is_asked_for(
                        final(self)@.pending_menu->0,
                        command,
                        (SurfaceView { id: output, ..bar }),
                        click,
                    )
                }
                &&& (command is SwitchWorkspace && click.started is Some) ==> {
                    &&& final(self)@ == (ShellView {
                        pending_workspace: final(self)@.pending_workspace,
                        ..old(self)@
                    })
                    &&& final(self)@.pending_workspace is Some
                    &&& command == Command::SwitchWorkspace(
                        final(self)@.pending_workspace->0.target,
                    )
                    &&& text::optional(final(self)@.pending_workspace->0.monitor) == bar.monitor
                    &&& final(self)@.pending_workspace->0.started == click.started->0
                }
                &&& (command !is OpenTrayMenu && !(command is SwitchWorkspace
                    && click.started is Some)) ==> final(self)@ == old(self)@
            },
    {
        let mut command: Command = match click.command {
            Some(command) => command,
            None => {
                return None;
            },
        };
        let (height, scale, monitor): (u32, Scale, Option<String>) = match self.outputs.get(
            output,
        ) {
            Some(bar) => (
                bar.size().1,
                bar.scale(),
                match bar.monitor() {
                    Some(monitor) => Some(monitor.to_owned()),
                    None => None,
                },
            ),
            None => {
                return None;
            },
        };
        pointer::set_tray_command_position(&mut command, click.origin, click.local);
        match &command {
            Command::OpenTrayMenu { key, .. } => {
                self.hide_tray_menu();
                self.hide_tooltip();
                self.pending_menu = Some(
                    PendingMenu {
                        key: key.clone(),
                        output,
                        anchor: (click.local.0.whole(), height as i32),
                        scale,
                        background: click.background,
                        foreground: click.foreground,
                        accent: click.accent,
                        serial: click.serial,
                    },
                );
            },
            Command::SwitchWorkspace(target) => match click.started {
                Some(started) => {
                    self.pending_workspace = Some(
                        PendingWorkspace { target: *target, monitor, started },
                    );
                },
                None => {},
            },
            _ => {},
        }
        Some(command)
    }

    /// A tray item told its menu.
    ///
    /// News of the shown menu goes into it. Otherwise the menu is shown if it is the
    /// one that was asked for and it has rows; what was asked for is settled either
    /// way.
    pub fn on_tray_menu(&mut self, menu: &TrayMenu) -> (step: TrayMenuStep)
        requires
            old(self).wf(),
        ensures
            final(self).wf(),
            ({
                let rows = popup::rows_of(menu.items@, 0);
                if old(self)@.menu is Some && old(self)@.menu->0.key@ == menu.key@ {
                    let shown = old(self)@.menu->0;
                    if menu.revision < shown.revision {
                        step == TrayMenuStep::Ignore && final(self)@ == old(self)@
                    } else if crate::fixed::pin(popup::total_height(rows)) != shown.height {
                        step == TrayMenuStep::Close && final(self)@ == (ShellView {
                            menu: None,
                            ..old(self)@
                        })
                    } else {
                        &&& step == TrayMenuStep::Repaint
                        &&& final(self)@ == (ShellView {
                            menu: final(self)@.menu,
                            ..old(self)@
                        })
                        &&& final(self)@.menu is Some
                        &&& final(self)@.menu->0.revision == menu.revision
                        &&& popup::row_views(final(self)@.menu->0.rows@) == rows
                        &&& final(self)@.menu->0 == (OpenMenu {
                            revision: final(self)@.menu->0.revision,
                            rows: final(self)@.menu->0.rows,
                            ..shown
                        })
                    }
                } else if old(self)@.pending_menu is Some && old(self)@.pending_menu->0.key@
                    == menu.key@ && rows.len() > 0 {
                    &&& step matches TrayMenuStep::Open { pending, rows: shown } && pending
                        == old(self)@.pending_menu->0 && popup::row_views(shown@) == rows
                    &&& final(self)@ == (ShellView { pending_menu: None, ..old(self)@.untipped() })
                } else {
                    step == TrayMenuStep::Ignore && final(self)@ == (ShellView {
                        pending_menu: None,
                        ..old(self)@
                    })
                }
            }),
    {
        let current: bool = match &self.menu {
            Some(shown) => text::same(shown.key.as_str(), menu.key.as_str()),
            None => false,
        };
        if current {
            let mut shown: Option<OpenMenu> = None;
            std::mem::swap(&mut shown, &mut self.menu);
            match shown {
                Some(mut shown) => match shown.update(menu) {
                    MenuStep::Keep => {
                        self.menu = Some(shown);
                        return TrayMenuStep::Ignore;
                    },
                    MenuStep::Repaint => {
                        self.menu = Some(shown);
                        return TrayMenuStep::Repaint;
                    },
                    MenuStep::Close => {
                        return TrayMenuStep::Close;
                    },
                },
                None => {
                    return TrayMenuStep::Ignore;
                },
            }
        }
        let mut asked: Option<PendingMenu> = None;
        std::mem::swap(&mut asked, &mut self.pending_menu);
        match asked {
            Some(pending) => {
                if !text::same(pending.key.as_str(), menu.key.as_str()) {
                    return TrayMenuStep::Ignore;
                }
                let rows: Vec<MenuRow> = menu_rows(menu);
                assert(popup::row_views(rows@).len() == rows@.len());
                if rows.len() == 0 {
                    return TrayMenuStep::Ignore;
                }
                self.hide_tooltip();
                TrayMenuStep::Open { pending, rows }
            },
            None => TrayMenuStep::Ignore,
        }
    }

    /// A tray menu is shown.
    pub fn menu_shown(&mut self, menu: OpenMenu)
        requires
            old(self).wf(),
        ensures
            final(self).wf(),
            final(self)@ == (ShellView { menu: Some(menu), ..old(self)@ }),
    {
        self.menu = Some(menu);
    }

    /// A tray item has no menu to show: it is no longer waited for.
    pub fn on_menu_unavailable(&mut self, key: &str)
        requires
            old(self).wf(),
        ensures
            final(self).wf(),
            final(self)@ == if old(self)@.pending_menu is Some && old(self)@.pending_menu->0.key@
                == key@ {
                (ShellView { pending_menu: None, ..old(self)@ })
            } else {
                old(self)@
            },
    {
        let awaited: bool = match &self.pending_menu {
            Some(pending) => text::same(pending.key.as_str(), key),
            None => false,
        };
        if awaited {
            self.pending_menu = None;
        }
    }

    /// News was applied to every bar, and changed something visible on those in
    /// `changed`: they are painted.
    ///
    /// News of the power profiles hides the tooltip, which would show the old ones.
    /// News of the workspaces that shows what a click asked for makes the next frame
    /// the one that answers the click.
    pub fn handle_all(&mut self, msg: Msg, changed: &Vec<OutputId>)
        requires
            old(self).wf(),
        ensures
            final(self).wf(),
            bars::are_repainted(old(self)@.bars, final(self)@.bars, changed@, msg.kind_word()),
            ({
                let any = bars::some_bar(old(self)@.bars, changed@);
                let arrived = any && msg is Workspaces && old(self)@.pending_workspace is Some
                    && has_arrived(old(self)@.pending_workspace->0, msg->Workspaces_0);
                final(self)@ == (ShellView {
                    bars: final(self)@.bars,
                    tooltip: if any && msg is PowerProfiles {
                        None
                    } else {
                        old(self)@.tooltip
                    },
                    snapshot: message::noted(old(self)@.snapshot, msg),
                    pending_workspace: if arrived {
                        None
                    } else {
                        old(self)@.pending_workspace
                    },
                    committing_workspace: if arrived {
                        old(self)@.pending_workspace
                    } else {
                        old(self)@.committing_workspace
                    },
                    ..old(self)@
                })
            }),
    {
        let kind: &'static str = message::message_kind(&msg);
        let any: bool = bars::repaint_all(&mut self.outputs, changed, kind);
        if any {
            match &msg {
                Msg::PowerProfiles(_) => {
                    self.tooltip = None;
                },
                Msg::Workspaces(workspaces) => {
                    let arrived: bool = match &self.pending_workspace {
                        Some(pending) => match &pending.monitor {
                            None => workspaces.active() == pending.target,
                            Some(monitor) => match workspaces.active_for(monitor.as_str()) {
                                Some(active) => active == pending.target,
                                None => false,
                            },
                        },
                        None => false,
                    };
                    if arrived {
                        let mut pending: Option<PendingWorkspace> = None;
                        std::mem::swap(&mut pending, &mut self.pending_workspace);
                        self.committing_workspace = pending;
                    }
                },
                _ => {},
            }
        }
        self.snapshot.note(msg);
    }

    /// A frame was committed: the click on a workspace that it answers, if there is
    /// one.
    pub fn frames_committed(&mut self) -> (answered: Option<PendingWorkspace>)
        requires
            old(self).wf(),
        ensures
            final(self).wf(),
            answered == old(self)@.committing_workspace,
            final(self)@ == (ShellView { committing_workspace: None, ..old(self)@ }),
    {
        let mut answered: Option<PendingWorkspace> = None;
        std::mem::swap(&mut answered, &mut self.committing_workspace);
        answered
    }

    /// The bar of an output.
    pub fn bar(&self, id: OutputId) -> (bar: Option<&Surface>)
        requires
            self.wf(),
        ensures
            match bar {
                Some(bar) => self@.bars.dom().contains(id) && *bar == self@.bars[id],
                None => !self@.bars.dom().contains(id),
            },
    {
        self.outputs.get(id)
    }

    /// The bar of an output, for changing it.
    pub fn bar_mut(&mut self, id: OutputId) -> (bar: Option<&mut Surface>)
        requires
            old(self).wf(),
        ensures
            final(self).wf(),
            match bar {
                Some(bar) => {
                    &&& old(self)@.bars.dom().contains(id)
                    &&& *bar == old(self)@.bars[id]
                    &&& final(self)@ == (ShellView {
                        bars: old(self)@.bars.insert(id, *final(bar)),
                        ..old(self)@
                    })
                },
                None => !old(self)@.bars.dom().contains(id) && final(self)@ == old(self)@,
            },
    {
        self.outputs.get_mut(id)
    }

    /// The outputs that have a bar.
    pub fn output_ids(&self) -> (ids: Vec<OutputId>)
        requires
            self.wf(),
        ensures
            ids@.no_duplicates(),
            ids@.to_set() == self@.bars.dom(),
    {
        self.outputs.ids()
    }

    /// The configuration that all outputs share.
    pub fn base(&self) -> (base: &Config)
        ensures
            *base == self@.base,
    {
        self.outputs.base()
    }

    /// The tooltip that is shown.
    pub fn tooltip(&self) -> (tooltip: Option<&ShownTooltip>)
        ensures
            match tooltip {
                Some(tooltip) => self@.tooltip == Some(*tooltip),
                None => self@.tooltip is None,
            },
    {
        match &self.tooltip {
            Some(tooltip) => Some(tooltip),
            None => None,
        }
    }

    /// The tray menu that is shown.
    pub fn menu(&self) -> (menu: Option<&OpenMenu>)
        ensures
            match menu {
                Some(menu) => self@.menu == Some(*menu),
                None => self@.menu is None,
            },
    {
        match &self.menu {
            Some(menu) => Some(menu),
            None => None,
        }
    }

    /// The news to tell a bar that is rebuilt.
    pub fn seed(&self) -> (messages: &[Msg])
        ensures
            messages@ == self@.snapshot,
    {
        self.snapshot.as_slice()
    }

    /// Whether the last bar is gone.
    pub fn exits(&self) -> (exit: bool)
        ensures
            exit == self@.exit,
    {
        self.exit
    }
}

/// Whether a popup of `output` that is painted at `scale` has to go: its own scale
/// changed, or that of its bar.
pub open spec fn outdated(
    scale: int,
    output: OutputId,
    own: bool,
    new_scale: int,
    changed: Option<OutputId>,
) -> bool {
    (own && scale != new_scale) || changed == Some(output)
}

/// The scale a factor stands for.
pub open spec fn scale_of(factor: i32) -> int {
    if factor < 1 {
        1
    } else {
        factor as int
    }
}

/// The output whose bar takes another scale.
pub open spec fn rescaled(
    bars: Map<OutputId, Surface>,
    owner: Owner,
    new_scale: int,
) -> Option<OutputId> {
    match owner {
        Owner::Bar(id) => if bars.dom().contains(id) && bars[id]@.scale != new_scale {
            Some(id)
        } else {
            None
        },
        _ => None,
    }
}

impl Shell {
    /// An output appeared, or changed: it gets a bar if it has none; true when it
    /// did.
    pub fn add_output(&mut self, id: OutputId, name: Option<&str>) -> (built: bool)
        requires
            old(self).wf(),
        ensures
            final(self).wf(),
            built == !old(self)@.bars.dom().contains(id),
            final(self)@ == (ShellView { bars: final(self)@.bars, ..old(self)@ }),
            !built ==> final(self)@.bars == old(self)@.bars,
            built ==> {
                let bar = final(self)@.bars[id];
                let config = old(self)@.base@.for_output(text::optional_str(name));
                &&& final(self)@.bars == old(self)@.bars.insert(id, bar)
                &&& bars::is_fresh(bar@, id, config, text::optional_str(name))
            },
    {
        bars::add(&mut self.outputs, id, name)
    }

    /// An output is gone; true when it had a bar. A tray menu that hangs from the bar
    /// goes with it.
    pub fn remove_output(&mut self, id: OutputId) -> (removed: bool)
        requires
            old(self).wf(),
        ensures
            final(self).wf(),
            removed == old(self)@.bars.dom().contains(id),
            ({
                let without = ShellView { bars: old(self)@.bars.remove(id), ..old(self)@ };
                final(self)@ == if old(self)@.menu is Some && old(self)@.menu->0.output == id {
                    without.menuless()
                } else {
                    without
                }
            }),
    {
        let hangs: bool = match &self.menu {
            Some(menu) => menu.output == id,
            None => false,
        };
        if hangs {
            self.hide_tray_menu();
        }
        self.outputs.remove(id).is_some()
    }

    /// The compositor closed a bar's surface: the bar is gone, and with the last one
    /// everything ends.
    pub fn on_closed(&mut self, owner: Owner)
        requires
            old(self).wf(),
        ensures
            final(self).wf(),
            ({
                let bars = match owner {
                    Owner::Bar(id) => old(self)@.bars.remove(id),
                    _ => old(self)@.bars,
                };
                final(self)@ == (ShellView {
                    bars,
                    exit: old(self)@.exit || bars == Map::<OutputId, Surface>::empty(),
                    ..old(self)@
                })
            }),
    {
        match owner {
            Owner::Bar(id) => {
                let _ = self.outputs.remove(id);
            },
            _ => {},
        }
        if self.outputs.is_empty() {
            self.exit = true;
        }
    }

    /// The compositor told the scale of a surface.
    ///
    /// A bar takes it. A popup that was painted at another scale, or hangs from a bar
    /// that took another one, is closed.
    pub fn on_scale(&mut self, owner: Owner, factor: i32)
        requires
            old(self).wf(),
        ensures
            final(self).wf(),
            ({
                let scale = scale_of(factor);
                let changed = rescaled(old(self)@.bars, owner, scale);
                &&& final(self)@ == (ShellView {
                    bars: final(self)@.bars,
                    tooltip: if old(self)@.tooltip is Some && outdated(
                        old(self)@.tooltip->0.scale@,
                        old(self)@.tooltip->0.output,
                        owner == Owner::Tooltip,
                        scale,
                        changed,
                    ) {
                        None
                    } else {
                        old(self)@.tooltip
                    },
                    menu: if old(self)@.menu is Some && outdated(
                        old(self)@.menu->0.scale@,
                        old(self)@.menu->0.output,
                        owner == Owner::Menu,
                        scale,
                        changed,
                    ) {
                        None
                    } else {
                        old(self)@.menu
                    },
                    ..old(self)@
                })
                &&& bars::are_rescaled(old(self)@.bars, final(self)@.bars, changed, scale)
            }),
    {
        let scale: Scale = Scale::new(factor);
        let mut changed: Option<OutputId> = None;
        match owner {
            Owner::Bar(id) => {
                if bars::rescale(&mut self.outputs, id, scale) {
                    changed = Some(id);
                }
            },
            _ => {},
        }
        let tooltip_gone: bool = match &self.tooltip {
            Some(shown) => (owner == Owner::Tooltip && shown.scale.get() != scale.get())
                || is_output(changed, shown.output),
            None => false,
        };
        if tooltip_gone {
            self.tooltip = None;
        }
        let menu_gone: bool = match &self.menu {
            Some(shown) => (owner == Owner::Menu && shown.scale.get() != scale.get()) || is_output(
                changed,
                shown.output,
            ),
            None => false,
        };
        if menu_gone {
            self.menu = None;
        }
    }

    /// A valid configuration was read: every bar takes what it says for the bar's
    /// output, given the connector name of each; the outputs whose bars changed their
    /// height. The popups are closed.
    pub fn reload_config(&mut self, config: Config, names: &Vec<(OutputId, Option<String>)>) -> (
    resized: Vec<OutputId>)
        requires
            old(self).wf(),
            bars::named_once(names@),
        ensures
            final(self).wf(),
            bars::are_reconfigured(old(self)@.bars, final(self)@.bars, config, names@),
            final(self)@ == (ShellView {
                bars: final(self)@.bars,
                base: config,
                ..old(self)@.untipped().menuless()
            }),
            bars::are_resized(old(self)@.bars, final(self)@.bars, resized@),
    {
        self.hide_tooltip();
        self.hide_tray_menu();
        bars::reconfigure_all(&mut self.outputs, config, names)
    }

    /// Set the timer that wakes the bars to the first moment at which one of them has
    /// to be looked at. One that is set so stays.
    pub fn arm_redraw_wake(&mut self) -> (step: WakeStep)
        requires
            old(self).wf(),
        ensures
            final(self).wf(),
            bars::is_first_wake(old(self)@.bars, final(self)@.wake_at),
            final(self)@ == (ShellView { wake_at: final(self)@.wake_at, ..old(self)@ }),
            step == if final(self)@.wake_at == old(self)@.wake_at {
                WakeStep::Keep
            } else {
                WakeStep::Replace(final(self)@.wake_at)
            },
    {
        let first: Option<Moment> = bars::first_wake(&self.outputs);
        let unchanged: bool = match (first, self.wake_at) {
            (Some(a), Some(b)) => a == b,
            (None, None) => true,
            _ => false,
        };
        if unchanged {
            return WakeStep::Keep;
        }
        self.wake_at = first;
        WakeStep::Replace(first)
    }

    /// The timer went off, or could not be set: it is no longer set.
    pub fn wake_cleared(&mut self)
        requires
            old(self).wf(),
        ensures
            final(self).wf(),
            final(self)@ == (ShellView { wake_at: None, ..old(self)@ }),
    {
        self.wake_at = None;
    }
}

/// Whether an output is the one there may be.
fn is_output(changed: Option<OutputId>, output: OutputId) -> (yes: bool)
    ensures
        yes == (changed == Some(output)),
{
    match changed {
        Some(changed) => changed == output,
        None => false,
    }
}

/// The codes of the two buttons are those of the kernel, and no other code is a click.
pub proof fn lemma_two_buttons_click(code: u32, button: Option<ClickButton>)
    requires
        call_ensures(click_button, (code,), button),
    ensures
        button == Some(ClickButton::Left) <==> code == 272,
        button == Some(ClickButton::Right) <==> code == 273,
{
}

/// A shell begins without bars or popups, on the configuration it is given.
pub proof fn lemma_a_shell_begins_empty(config: Config, shell: Shell, id: OutputId)
    requires
        call_ensures(Shell::new, (config,), shell),
    ensures
        shell.wf(),
        !shell@.bars.dom().contains(id),
        shell@.base == config,
        shell@.tooltip is None,
        shell@.menu is None,
        shell@.pending_menu is None,
        shell@.snapshot.len() == 0,
        shell@.cursor == Cursor::Arrow,
        shell@.wake_at is None,
        !shell@.exit,
{
}

/// The tooltip follows the pointer: the one that is shown stays over its own text, another
/// one replaces it where the output has a bar, and over nothing there is none.
pub proof fn lemma_the_tooltip_follows_the_pointer(
    shell: &mut Shell,
    output: OutputId,
    text: Option<&str>,
    step: TooltipStep,
)
    requires
        old(shell).wf(),
        call_ensures(Shell::update_tooltip, (shell, output, text), step),
    ensures
        ({
            let tooltip = old(shell)@.tooltip;
            let shown = text is Some && tooltip is Some && tooltip->0.output == output
                && tooltip->0.text@ == text->0@;
            &&& step == TooltipStep::Keep <==> shown
            &&& step is Show <==> text is Some && !shown && old(shell)@.bars.dom().contains(output)
            &&& step is Show ==> step->Show_0@ == old(shell)@.bars[output]@.scale
            &&& shown ==> final(shell)@ == old(shell)@
            &&& !shown ==> final(shell)@.tooltip is None
        }),
        final(shell)@.bars == old(shell)@.bars,
        final(shell)@.menu == old(shell)@.menu,
        final(shell)@.cursor == old(shell)@.cursor,
{
}

/// Leaving a bar hides its tooltip; leaving it or a menu gives the pointer its plain shape.
/// Nothing else changes.
pub proof fn lemma_leaving_a_bar_hides_its_tooltip(shell: &mut Shell, owner: Owner)
    requires
        old(shell).wf(),
        call_ensures(Shell::on_leave, (shell, owner), ()),
    ensures
        owner is Bar ==> final(shell)@.tooltip is None,
        !(owner is Bar) ==> final(shell)@.tooltip == old(shell)@.tooltip,
        owner is Bar || owner == Owner::Menu ==> final(shell)@.cursor == Cursor::Arrow,
        owner == Owner::Tooltip || owner == Owner::Unknown ==> final(shell)@ == old(shell)@,
        final(shell)@.bars == old(shell)@.bars,
        final(shell)@.menu == old(shell)@.menu,
        final(shell)@.pending_menu == old(shell)@.pending_menu,
{
}

/// A click of the primary button on a row that can be activated activates it and closes
/// the menu; any other click on the menu changes nothing.
pub proof fn lemma_a_menu_closes_with_what_it_does(
    shell: &mut Shell,
    button: ClickButton,
    y: Fixed,
    command: Option<Command>,
    i: int,
)
    requires
        old(shell).wf(),
        call_ensures(Shell::on_menu_click, (shell, button, y), command),
        old(shell)@.menu is Some,
        y.raw >= 0,
        popup::is_row_at(popup::row_views(old(shell)@.menu->0.rows@), y.raw / 256, i),
    ensures
        ({
            let menu = old(shell)@.menu->0;
            let row = menu.rows@[i];
            &&& command is Some <==> button == ClickButton::Left && row.enabled && !row.separator
                && !row.has_children
            &&& command is Some ==> (command->0 matches Command::ActivateTrayMenuItem { key, id }
                && key@ == menu.key@ && id == row.id)
            &&& command is Some ==> final(shell)@.menu is None && final(shell)@.pending_menu is None
            &&& command is None ==> final(shell)@ == old(shell)@
        }),
        final(shell)@.bars == old(shell)@.bars,
        final(shell)@.tooltip == old(shell)@.tooltip,
{
    let rows = popup::row_views(shell@.menu->0.rows@);
    lemma_the_row(rows, y.raw / 256, i);
    assert(rows[i] == shell@.menu->0.rows@[i]@);
}

proof fn lemma_the_row(rows: Seq<popup::RowView>, y: int, i: int)
    requires
        popup::is_row_at(rows, y, i),
    ensures
        y < popup::total_height(rows),
        forall|j: int| #[trigger] popup::is_row_at(rows, y, j) ==> j == i,
{
    assert forall|j: int| #[trigger] popup::is_row_at(rows, y, j) implies j == i by {
        popup::lemma_rows_do_not_overlap(rows, y, i, j);
    }
    lemma_total(rows, i + 1);
}

proof fn lemma_total(rows: Seq<popup::RowView>, n: int)
    requires
        0 <= n <= rows.len(),
    ensures
        popup::total_height(rows.take(n)) <= popup::total_height(rows),
    decreases rows.len(),
{
    if n < rows.len() {
        let init = rows.drop_last();
        lemma_total(init, n);
        assert(init.take(n) =~= rows.take(n));
    } else {
        assert(rows.take(n) =~= rows);
    }
}

/// The pointer is a hand over a row that can be activated and plain over every other one.
pub proof fn lemma_the_pointer_is_a_hand_over_what_it_can_do(
    shell: Shell,
    y: Fixed,
    cursor: Cursor,
    i: int,
)
    requires
        call_ensures(Shell::menu_cursor, (&shell, y), cursor),
        shell@.menu is Some,
        y.raw >= 0,
        popup::is_row_at(popup::row_views(shell@.menu->0.rows@), y.raw / 256, i),
    ensures
        ({
            let row = shell@.menu->0.rows@[i];
            cursor == Cursor::Hand <==> row.enabled && !row.separator && !row.has_children
        }),
{
    let rows = popup::row_views(shell@.menu->0.rows@);
    lemma_the_row(rows, y.raw / 256, i);
    assert(rows[i] == shell@.menu->0.rows@[i]@);
}

/// A click that asks for a tray menu closes the popups and asks for the menu of that item,
/// to hang from the bottom of the bar at the place of the click; one that switches the
/// workspace awaits it where times are recorded. Other clicks change nothing.
pub proof fn lemma_a_click_asks_for_what_it_is_on(
    shell: &mut Shell,
    output: OutputId,
    click: BarClick,
    command: Option<Command>,
    across: i32,
)
    requires
        old(shell).wf(),
        call_ensures(Shell::on_bar_click, (shell, output, click), command),
        old(shell)@.bars.dom().contains(output),
        call_ensures(Fixed::whole, (click.local.0,), across),
    ensures
        command is Some <==> click.command is Some,
        click.command matches Some(Command::OpenTrayMenu { key, .. }) ==> {
            &&& command->0 is OpenTrayMenu
            &&& final(shell)@.menu is None
            &&& final(shell)@.tooltip is None
            &&& final(shell)@.pending_menu is Some
            &&& final(shell)@.pending_menu->0.key@ == key@
            &&& final(shell)@.pending_menu->0.output == output
            &&& final(shell)@.pending_menu->0.anchor.0 == across
            &&& old(shell)@.bars[output]@.height <= i32::MAX
                ==> final(shell)@.pending_menu->0.anchor.1 == old(shell)@.bars[output]@.height
            &&& final(shell)@.pending_menu->0.scale@ == old(shell)@.bars[output]@.scale
            &&& final(shell)@.pending_menu->0.serial == click.serial
            &&& final(shell)@.pending_menu->0.background == click.background
            &&& final(shell)@.pending_menu->0.foreground == click.foreground
            &&& final(shell)@.pending_menu->0.accent == click.accent
        },
        click.command matches Some(Command::SwitchWorkspace(target)) ==> {
            &&& command == Some(Command::SwitchWorkspace(target))
            &&& click.started is Some ==> final(shell)@.pending_workspace is Some && final(shell)@.pending_workspace->0.target == target && final(shell)@.pending_workspace->0.started == click.started->0
            &&& click.started is None ==> final(shell)@ == old(shell)@
        },
        click.command matches Some(Command::RunProgram(program)) ==> command == click.command
            && final(shell)@ == old(shell)@,
        click.command is None ==> final(shell)@ == old(shell)@,
        final(shell)@.bars == old(shell)@.bars,
{
}

/// A menu is shown for what was asked for, at its scale, with its rows and its colors.
pub proof fn lemma_a_menu_is_shown_as_asked_for(
    pending: PendingMenu,
    revision: u32,
    rows: Vec<MenuRow>,
    widths: Vec<u32>,
    menu: OpenMenu,
    width: u32,
    height: u32,
    background: Rgba,
)
    requires
        widths@.len() == rows@.len(),
        call_ensures(open_menu, (&pending, revision, rows, &widths), menu),
        call_ensures(popup::menu_width, (&rows, &widths, pending.scale), width),
        call_ensures(popup::menu_height, (&rows,), height),
        call_ensures(popup::popup_background, (pending.background,), background),
    ensures
        menu.output == pending.output,
        menu.key@ == pending.key@,
        menu.revision == revision,
        menu.rows@ == rows@,
        menu.width == width,
        menu.height == height,
        menu.scale@ == pending.scale@,
        menu.background == background,
        menu.foreground == pending.foreground,
        menu.accent == pending.accent,
{
}

/// A layout goes to the menu it is of: the shown one takes it over, else it is shown if it
/// was asked for and has rows. A layout that nobody asked for shows nothing.
pub proof fn lemma_a_layout_goes_to_its_menu(
    shell: &mut Shell,
    menu: TrayMenu,
    step: TrayMenuStep,
    rows: Vec<MenuRow>,
)
    requires
        old(shell).wf(),
        call_ensures(Shell::on_tray_menu, (shell, &menu), step),
        call_ensures(menu_rows, (&menu,), rows),
    ensures
        ({
            let shown = old(shell)@.menu is Some && old(shell)@.menu->0.key@ == menu.key@;
            let asked = old(shell)@.pending_menu is Some && old(shell)@.pending_menu->0.key@
                == menu.key@;
            &&& step is Open <==> !shown && asked && rows@.len() > 0
            &&& step matches TrayMenuStep::Open { pending, rows: given } ==> pending
                == old(shell)@.pending_menu->0 && given@.len() == rows@.len()
                && final(shell)@.tooltip is None
            &&& step is Repaint || step is Close ==> shown && menu.revision >= old(shell)@.menu->0.revision
            &&& step is Close ==> final(shell)@.menu is None
            &&& step is Repaint ==> final(shell)@.menu is Some && final(shell)@.menu->0.revision == menu.revision
            &&& step is Ignore && shown ==> final(shell)@ == old(shell)@ && menu.revision < old(shell)@.menu->0.revision
            &&& !shown ==> final(shell)@.menu == old(shell)@.menu && final(shell)@.pending_menu is None
            &&& shown ==> final(shell)@.pending_menu == old(shell)@.pending_menu
        }),
        final(shell)@.bars == old(shell)@.bars,
{
    assert(popup::row_views(rows@).len() == rows@.len());
    match step {
        TrayMenuStep::Open { pending, rows: given } => {
            assert(popup::row_views(given@).len() == given@.len());
        },
        _ => {},
    }
}

/// An item without a menu is no longer waited for, and no other one is given up.
pub proof fn lemma_only_its_own_menu_is_given_up(shell: &mut Shell, key: &str)
    requires
        old(shell).wf(),
        call_ensures(Shell::on_menu_unavailable, (shell, key), ()),
    ensures
        old(shell)@.pending_menu is Some && old(shell)@.pending_menu->0.key@ == key@ ==> final(shell)@.pending_menu is None,
        old(shell)@.pending_menu is None || old(shell)@.pending_menu->0.key@ != key@ ==> final(shell)@ == old(shell)@,
        final(shell)@.menu == old(shell)@.menu,
{
}

/// News is kept for bars to come and painted on exactly the bars it changed; that of the
/// power profiles hides the tooltip where it shows.
pub proof fn lemma_news_reaches_the_bars(
    shell: &mut Shell,
    msg: Msg,
    changed: Vec<OutputId>,
    id: OutputId,
)
    requires
        old(shell).wf(),
        call_ensures(Shell::handle_all, (shell, msg, &changed), ()),
        old(shell)@.bars.dom().contains(id),
    ensures
        changed@.contains(id) ==> final(shell)@.bars[id]@.redraw.cause is Some,
        !changed@.contains(id) ==> final(shell)@.bars[id] == old(shell)@.bars[id],
        changed@.contains(id) && msg is PowerProfiles ==> final(shell)@.tooltip is None,
        !(msg is PowerProfiles) ==> final(shell)@.tooltip == old(shell)@.tooltip,
        !(msg is Tick) && !(msg is TrayMenu) && !(msg is TrayMenuUnavailable) ==> final(shell)@.snapshot.contains(msg),
        msg is Tick ==> final(shell)@.snapshot == old(shell)@.snapshot,
        final(shell)@.menu == old(shell)@.menu,
        !(msg is Workspaces) ==> final(shell)@.pending_workspace == old(shell)@.pending_workspace
            && final(shell)@.committing_workspace == old(shell)@.committing_workspace,
        final(shell)@.base == old(shell)@.base,
{
    if changed@.contains(id) {
        let i = choose|i: int| 0 <= i < changed@.len() && changed@[i] == id;
        assert(shell@.bars.dom().contains(changed@[i]));
    }
    if !msg.is_transient() {
        lemma_noted(shell@.snapshot, msg);
    }
}

proof fn lemma_noted(messages: Seq<Msg>, msg: Msg)
    requires
        !msg.is_transient(),
    ensures
        message::noted(messages, msg).contains(msg),
{
    lemma_noted_place(messages, msg.subject());
    let after = message::noted(messages, msg);
    match message::place_of(messages, msg.subject()) {
        Some(i) => {
            assert(after[i] == msg);
        },
        None => {
            assert(after[messages.len() as int] == msg);
        },
    }
}

proof fn lemma_noted_place(messages: Seq<Msg>, subject: Seq<char>)
    ensures
        message::place_of(messages, subject) matches Some(i) ==> 0 <= i < messages.len(),
    decreases messages.len(),
{
    if messages.len() > 0 {
        lemma_noted_place(messages.drop_last(), subject);
    }
}

/// A click on a workspace is answered by the frame after the session shows that workspace
/// on the clicked output.
pub proof fn lemma_a_workspace_click_is_answered_when_it_shows(
    shell: &mut Shell,
    workspaces: Workspaces,
    changed: Vec<OutputId>,
    id: OutputId,
    target: i32,
    monitor: &str,
    shown: Option<i32>,
    active: i32,
)
    requires
        old(shell).wf(),
        call_ensures(Shell::handle_all, (shell, Msg::Workspaces(workspaces), &changed), ()),
        old(shell)@.bars.dom().contains(id),
        changed@.contains(id),
        old(shell)@.pending_workspace is Some,
        old(shell)@.pending_workspace->0.target == target,
        call_ensures(Workspaces::active_for, (&workspaces, monitor), shown),
        call_ensures(Workspaces::active, (&workspaces,), active),
    ensures
        ({
            let pending = old(shell)@.pending_workspace;
            let here = pending->0.monitor is Some && pending->0.monitor->0@ == monitor@;
            let arrived = (here && shown == Some(target)) || (pending->0.monitor is None && active
                == target);
            let missed = (here && shown != Some(target)) || (pending->0.monitor is None && active
                != target);
            &&& arrived ==> final(shell)@.pending_workspace is None && final(shell)@.committing_workspace == pending
            &&& missed ==> final(shell)@.pending_workspace == pending && final(shell)@.committing_workspace == old(shell)@.committing_workspace
        }),
{
    let i = choose|i: int| 0 <= i < changed@.len() && changed@[i] == id;
    assert(shell@.bars.dom().contains(changed@[i]));
}

/// A frame answers the click that awaits it, once.
pub proof fn lemma_a_frame_answers_a_click_once(
    shell: &mut Shell,
    answered: Option<PendingWorkspace>,
)
    requires
        old(shell).wf(),
        call_ensures(Shell::frames_committed, (shell,), answered),
    ensures
        answered == old(shell)@.committing_workspace,
        final(shell)@.committing_workspace is None,
        final(shell)@.pending_workspace == old(shell)@.pending_workspace,
        final(shell)@.bars == old(shell)@.bars,
{
}

/// An output gets a bar exactly once, and it is made of the configuration for that output.
pub proof fn lemma_an_output_gets_its_bar(
    shell: &mut Shell,
    id: OutputId,
    name: &str,
    built: bool,
    resolved: Config,
    other: OutputId,
)
    requires
        old(shell).wf(),
        call_ensures(Shell::add_output, (shell, id, Some(name)), built),
        call_ensures(Config::resolve_for_output, (&old(shell)@.base, Some(name)), resolved),
    ensures
        built <==> !old(shell)@.bars.dom().contains(id),
        final(shell)@.bars.dom().contains(id),
        built ==> final(shell)@.bars[id]@.id == id && final(shell)@.bars[id]@.config == resolved@
            && final(shell)@.bars[id]@.height == resolved@.height && final(shell)@.bars[id]@.monitor == Some(name@),
        old(shell)@.bars.dom().contains(other) ==> final(shell)@.bars[other] == old(shell)@.bars[other],
        final(shell)@.tooltip == old(shell)@.tooltip,
        final(shell)@.menu == old(shell)@.menu,
{
}

/// An output that is gone has no bar, and a menu that hangs from it goes with it; the other
/// bars stay.
pub proof fn lemma_a_menu_goes_with_its_bar(
    shell: &mut Shell,
    id: OutputId,
    removed: bool,
    other: OutputId,
)
    requires
        old(shell).wf(),
        call_ensures(Shell::remove_output, (shell, id), removed),
    ensures
        removed <==> old(shell)@.bars.dom().contains(id),
        !final(shell)@.bars.dom().contains(id),
        other != id && old(shell)@.bars.dom().contains(other) ==> final(shell)@.bars.dom().contains(other) && final(shell)@.bars[other] == old(shell)@.bars[other],
        old(shell)@.menu is Some && old(shell)@.menu->0.output == id ==> final(shell)@.menu is None
            && final(shell)@.pending_menu is None,
        old(shell)@.menu is Some && old(shell)@.menu->0.output != id ==> final(shell)@.menu == old(shell)@.menu && final(shell)@.pending_menu == old(shell)@.pending_menu,
        final(shell)@.tooltip == old(shell)@.tooltip,
{
}

/// Everything ends when the last bar is closed, and not while another one is there.
pub proof fn lemma_the_last_bar_ends_everything(
    shell: &mut Shell,
    id: OutputId,
    other: OutputId,
)
    requires
        old(shell).wf(),
        !old(shell)@.exit,
        call_ensures(Shell::on_closed, (shell, Owner::Bar(id)), ()),
    ensures
        !final(shell)@.bars.dom().contains(id),
        other != id && old(shell)@.bars.dom().contains(other) ==> !final(shell)@.exit && final(shell)@.bars[other] == old(shell)@.bars[other],
        (forall|o: OutputId| #[trigger] old(shell)@.bars.dom().contains(o) ==> o == id) ==> final(shell)@.exit,
{
    let bars = shell@.bars.remove(id);
    if other != id && shell@.bars.dom().contains(other) {
        assert(bars.dom().contains(other));
        assert(!Map::<OutputId, Surface>::empty().dom().contains(other));
    }
    if forall|o: OutputId| #[trigger] shell@.bars.dom().contains(o) ==> o == id {
        assert forall|o: OutputId| !#[trigger] bars.dom().contains(o) by {
            assert(bars.dom().contains(o) ==> shell@.bars.dom().contains(o) && o != id);
        }
        assert(bars =~= Map::<OutputId, Surface>::empty());
    }
}

/// A bar takes the scale it is told, no less than one; the popups that hang from it go when
/// it is another one, and those of other bars stay.
pub proof fn lemma_popups_go_when_their_bar_is_rescaled(
    shell: &mut Shell,
    id: OutputId,
    factor: i32,
)
    requires
        old(shell).wf(),
        old(shell)@.bars.dom().contains(id),
        call_ensures(Shell::on_scale, (shell, Owner::Bar(id), factor), ()),
    ensures
        factor >= 1 ==> final(shell)@.bars[id]@.scale == factor,
        factor < 1 ==> final(shell)@.bars[id]@.scale == 1,
        ({
            let changed = final(shell)@.bars[id]@.scale != old(shell)@.bars[id]@.scale;
            &&& changed && old(shell)@.tooltip is Some && old(shell)@.tooltip->0.output == id
                ==> final(shell)@.tooltip is None
            &&& changed && old(shell)@.menu is Some && old(shell)@.menu->0.output == id ==> final(shell)@.menu is None
            &&& !changed ==> final(shell)@.tooltip == old(shell)@.tooltip && final(shell)@.menu
                == old(shell)@.menu
            &&& old(shell)@.tooltip is Some && old(shell)@.tooltip->0.output != id ==> final(shell)@.tooltip == old(shell)@.tooltip
            &&& old(shell)@.menu is Some && old(shell)@.menu->0.output != id ==> final(shell)@.menu
                == old(shell)@.menu
        }),
{
}

/// A popup that is told another scale than it is painted at goes, and no other one does.
pub proof fn lemma_a_popup_goes_when_it_is_rescaled(shell: &mut Shell, owner: Owner, factor: i32)
    requires
        old(shell).wf(),
        owner == Owner::Menu || owner == Owner::Tooltip,
        factor >= 1,
        call_ensures(Shell::on_scale, (shell, owner, factor), ()),
    ensures
        owner == Owner::Menu ==> final(shell)@.tooltip == old(shell)@.tooltip,
        owner == Owner::Tooltip ==> final(shell)@.menu == old(shell)@.menu,
        owner == Owner::Menu && old(shell)@.menu is Some ==> (final(shell)@.menu is None
            <==> old(shell)@.menu->0.scale@ != factor),
        owner == Owner::Tooltip && old(shell)@.tooltip is Some ==> (final(shell)@.tooltip is None
            <==> old(shell)@.tooltip->0.scale@ != factor),
{
}

/// A new configuration is the one that all outputs share from then on; it closes the popups
/// and keeps the news.
pub proof fn lemma_a_reload_closes_the_popups(
    shell: &mut Shell,
    config: Config,
    names: Vec<(OutputId, Option<String>)>,
    resized: Vec<OutputId>,
    k: int,
    name: &str,
    resolved: Config,
)
    requires
        old(shell).wf(),
        bars::named_once(names@),
        call_ensures(Shell::reload_config, (shell, config, &names), resized),
        0 <= k < names@.len(),
        old(shell)@.bars.dom().contains(names@[k].0),
        names@[k].1 is Some,
        names@[k].1->0@ == name@,
        call_ensures(Config::resolve_for_output, (&config, Some(name)), resolved),
    ensures
        final(shell)@.base == config,
        final(shell)@.tooltip is None,
        final(shell)@.menu is None,
        final(shell)@.pending_menu is None,
        final(shell)@.snapshot == old(shell)@.snapshot,
        final(shell)@.bars[names@[k].0]@.config == resolved@,
        final(shell)@.bars[names@[k].0]@.height == resolved@.height,
        resized@.contains(names@[k].0) <==> old(shell)@.bars[names@[k].0]@.height
            != resolved@.height,
{
}

/// The timer is set anew exactly when the first waiting bar waits for another moment.
pub proof fn lemma_the_timer_follows_the_first_waiting_bar(
    shell: &mut Shell,
    step: WakeStep,
    id: OutputId,
)
    requires
        old(shell).wf(),
        call_ensures(Shell::arm_redraw_wake, (shell,), step),
        old(shell)@.bars.dom().contains(id),
    ensures
        step == WakeStep::Keep <==> final(shell)@.wake_at == old(shell)@.wake_at,
        step matches WakeStep::Replace(at) ==> at == final(shell)@.wake_at,
        ({
            let redraw = old(shell)@.bars[id]@.redraw;
            redraw.cause is Some && redraw.awaiting_frame is Some && redraw.awaiting_frame->0.nanos
                + 1_000_000_000 <= u64::MAX ==> final(shell)@.wake_at is Some && final(shell)@.wake_at->0.nanos <= redraw.awaiting_frame->0.nanos + 1_000_000_000
        }),
        final(shell)@.bars == old(shell)@.bars,
{
    assert(bars::wake_for(shell@.bars, id) == surface::wake_of(shell@.bars[id]@));
}

/// What is hidden is gone, what is shown is there, and neither touches anything else.
pub proof fn lemma_popups_come_and_go_alone(
    hiding: &mut Shell,
    closing: &mut Shell,
    tipping: &mut Shell,
    opening: &mut Shell,
    output: OutputId,
    text: String,
    scale: Scale,
    menu: OpenMenu,
)
    requires
        old(hiding).wf() && old(closing).wf() && old(tipping).wf() && old(opening).wf(),
        call_ensures(Shell::hide_tooltip, (hiding,), ()),
        call_ensures(Shell::hide_tray_menu, (closing,), ()),
        call_ensures(Shell::tooltip_shown, (tipping, output, text, scale), ()),
        call_ensures(Shell::menu_shown, (opening, menu), ()),
    ensures
        final(hiding)@.tooltip is None,
        final(hiding)@.menu == old(hiding)@.menu,
        final(hiding)@.pending_menu == old(hiding)@.pending_menu,
        final(hiding)@.bars == old(hiding)@.bars,
        final(closing)@.menu is None,
        final(closing)@.pending_menu is None,
        final(closing)@.tooltip == old(closing)@.tooltip,
        final(closing)@.bars == old(closing)@.bars,
        final(tipping)@.tooltip matches Some(shown) && shown.output == output && shown.text@
            == text@ && shown.scale@ == scale@,
        final(tipping)@.menu == old(tipping)@.menu,
        final(opening)@.menu == Some(menu),
        final(opening)@.tooltip == old(opening)@.tooltip,
{
}

/// The shape of the pointer is what was set last, and has to be set where it is another one
/// or the pointer just came. A timer that went off is no longer set.
pub proof fn lemma_the_shape_is_what_was_set_last(
    shell: &mut Shell,
    cursor: Cursor,
    after: Shell,
    other: Cursor,
    entered: bool,
    wanted: bool,
    woken: &mut Shell,
)
    requires
        old(shell).wf() && old(woken).wf(),
        call_ensures(Shell::cursor_set, (shell, cursor), ()),
        after == *final(shell),
        call_ensures(Shell::wants_cursor, (&after, other, entered), wanted),
        call_ensures(Shell::wake_cleared, (woken,), ()),
    ensures
        final(shell)@.cursor == cursor,
        wanted <==> entered || other != cursor,
        final(woken)@.wake_at is None,
        final(woken)@.bars == old(woken)@.bars,
{
}

/// What the shell shows and knows is told as it is.
pub proof fn lemma_the_shell_tells_what_it_shows(
    shell: Shell,
    id: OutputId,
    bar: Option<&Surface>,
    ids: Vec<OutputId>,
    tooltip: Option<&ShownTooltip>,
    menu: Option<&OpenMenu>,
    seed: &[Msg],
    exit: bool,
)
    requires
        shell.wf(),
        call_ensures(Shell::bar, (&shell, id), bar),
        call_ensures(Shell::output_ids, (&shell,), ids),
        call_ensures(Shell::tooltip, (&shell,), tooltip),
        call_ensures(Shell::menu, (&shell,), menu),
        call_ensures(Shell::seed, (&shell,), seed),
        call_ensures(Shell::exits, (&shell,), exit),
    ensures
        bar is Some <==> shell@.bars.dom().contains(id),
        bar is Some ==> *bar->0 == shell@.bars[id],
        ids@.contains(id) <==> bar is Some,
        tooltip is Some <==> shell@.tooltip is Some,
        tooltip is Some ==> *tooltip->0 == shell@.tooltip->0,
        menu is Some <==> shell@.menu is Some,
        menu is Some ==> *menu->0 == shell@.menu->0,
        seed@ == shell@.snapshot,
        exit == shell@.exit,
{
    assert(ids@.to_set().contains(id) <==> ids@.contains(id));
}

} // verus!
