//! What the pointer does on the bars and popups: one step for each of its events.

use crate::fixed::Fixed;
use crate::outputs::OutputId;
use crate::pointer::{self, AxisScroll};
use crate::popup::{self, OpenMenu};
use crate::shell::{self, BarClick, Cursor, Owner, Shell, ShellView, TooltipStep};
use crate::surface::SurfaceView;
use crate::text;
use crate::widget::{ClickButton, Command, ScrollDirection};
use vstd::prelude::*;

verus! {

/// What a bar has under the pointer.
#[derive(Debug, PartialEq, Eq)]
pub struct Hover {
    /// The tooltip to show there.
    pub tooltip: Option<String>,
    /// Whether a click there does something.
    pub clickable: bool,
}

/// An event of the pointer on a surface.
#[derive(Debug, PartialEq, Eq)]
pub enum PointerInput {
    /// It moved, or came onto the surface, at this height; a bar has this there.
    Over { entered: bool, y: Fixed, hover: Hover },
    /// It left.
    Left,
    /// A button of this kernel code was pressed; on a bar it asks for this.
    Pressed { code: u32, click: BarClick },
    /// It scrolled.
    Scrolled(AxisScroll),
}

/// What is to be done about an event of the pointer.
#[derive(Debug, PartialEq, Eq)]
pub enum PointerAction {
    /// Nothing more.
    Ignore,
    /// Tell that the pointer came onto a surface that nobody knows.
    Stray,
    /// See to the tooltip, then set the shape of the pointer if there is one to set.
    Point { tooltip: TooltipStep, cursor: Option<Cursor> },
    /// Run the command of an entry of the menu, which is closed.
    Activate(Command),
    /// Run the command of a click on the bar of an output.
    Run { output: OutputId, command: Command },
    /// Scroll on the bar of an output, one step after the other.
    Scroll { output: OutputId, directions: Vec<ScrollDirection> },
}

/// Whether `cursor` is the shape of the pointer at `y` of a menu: a hand over a row
/// that answers a click.
pub open spec fn is_menu_shape(menu: Option<OpenMenu>, y: Fixed, cursor: Cursor) -> bool {
    match menu {
        None => cursor == Cursor::Arrow,
        Some(menu) => {
            let rows = popup::row_views(menu.rows@);
            match cursor {
                Cursor::Hand => y.raw >= 0 && exists|i: int| #[trigger]
                    popup::is_row_at(rows, y.raw / 256, i) && rows[i].answers(),
                Cursor::Arrow => y.raw < 0 || y.raw / 256 >= popup::total_height(rows)
                    || exists|i: int| #[trigger]
                    popup::is_row_at(rows, y.raw / 256, i) && !rows[i].answers(),
            }
        },
    }
}

/// The shape to set, if it is another one than the present, or the pointer just
/// came.
pub open spec fn shape_to_set(present: Cursor, wanted: Cursor, entered: bool) -> Option<Cursor> {
    if entered || present != wanted {
        Some(wanted)
    } else {
        None
    }
}

/// Whether `command` is the entry that a click of the primary button at `y` of the
/// shown menu activates.
pub open spec fn is_activated(
    menu: Option<OpenMenu>,
    button: ClickButton,
    y: Fixed,
    command: Command,
) -> bool {
    &&& button == ClickButton::Left
    &&& menu matches Some(menu) && {
        let rows = popup::row_views(menu.rows@);
        y.raw >= 0 && exists|i: int| #[trigger]
            popup::is_row_at(rows, y.raw / 256, i) && rows[i].answers() && popup::activates(
                command,
                menu.key@,
                rows[i].id,
            )
    }
}

/// Whether a click at `y` of the shown menu activates nothing: it is of the other
/// button, or there is no row there that answers.
pub open spec fn is_idle_click(menu: Option<OpenMenu>, button: ClickButton, y: Fixed) -> bool {
    ||| button == ClickButton::Right
    ||| menu is None
    ||| menu matches Some(menu) && {
        let rows = popup::row_views(menu.rows@);
        y.raw < 0 || y.raw / 256 >= popup::total_height(rows) || exists|i: int| #[trigger]
            popup::is_row_at(rows, y.raw / 256, i) && !rows[i].answers()
    }
}

/// Whether the shell is in the state `after` once the bar of `output` was clicked and
/// `command` came of it: a command that opens a tray menu hides the popups and waits
/// for the menu; a switch of workspaces is remembered until it shows, where times are
/// recorded.
pub open spec fn is_clicked(
    before: ShellView,
    after: ShellView,
    output: OutputId,
    click: BarClick,
    command: Command,
) -> bool {
    let bar = before.bars[output]@;
    &&& pointer::is_positioned(
        click.command->0,
        command,
        pointer::added(click.origin.0 as int, click.local.0.whole_spec()),
        pointer::added(click.origin.1 as int, click.local.1.whole_spec()),
    )
    &&& if command is OpenTrayMenu {
        &&& after == (ShellView {
            pending_menu: after.pending_menu,
            ..before.menuless().untipped()
        })
        &&& after.pending_menu is Some
        &&& shell::is_asked_for(
            after.pending_menu->0,
            command,
            (SurfaceView { id: output, ..bar }),
            click,
        )
    } else if command is SwitchWorkspace && click.started is Some {
        &&& after == (ShellView { pending_workspace: after.pending_workspace, ..before })
        &&& after.pending_workspace is Some
        &&& command == Command::SwitchWorkspace(after.pending_workspace->0.target)
        &&& text::optional(after.pending_workspace->0.monitor) == bar.monitor
        &&& after.pending_workspace->0.started == click.started->0
    } else {
        after == before
    }
}

/// Whether `action` is what is to be done about `input` on a surface of `owner`, and
/// `after` the state of the shell then.
pub open spec fn is_pointer_step(
    before: ShellView,
    after: ShellView,
    owner: Owner,
    input: PointerInput,
    action: PointerAction,
) -> bool {
    match input {
        PointerInput::Over { entered, y, hover } => match owner {
            Owner::Menu => {
                &&& after == before
                &&& action matches PointerAction::Point { tooltip, cursor } && tooltip
                    == TooltipStep::Keep && match cursor {
                    Some(shape) => is_menu_shape(before.menu, y, shape) && (entered || shape
                        != before.cursor),
                    None => is_menu_shape(before.menu, y, before.cursor) && !entered,
                }
            },
            Owner::Bar(output) => action matches PointerAction::Point { tooltip, cursor } && {
                &&& shell::is_tooltip_step(before, output, text::optional(hover.tooltip), tooltip)
                &&& after == if tooltip == TooltipStep::Keep {
                    before
                } else {
                    before.untipped()
                }
                &&& cursor == shape_to_set(
                    before.cursor,
                    if hover.clickable {
                        Cursor::Hand
                    } else {
                        Cursor::Arrow
                    },
                    entered,
                )
            },
            _ => {
                &&& after == before
                &&& action == if entered {
                    PointerAction::Stray
                } else {
                    PointerAction::Ignore
                }
            },
        },
        PointerInput::Left => {
            &&& action == PointerAction::Ignore
            &&& after == match owner {
                Owner::Bar(_) => ShellView { cursor: Cursor::Arrow, ..before.untipped() },
                Owner::Menu => ShellView { cursor: Cursor::Arrow, ..before },
                _ => before,
            }
        },
        PointerInput::Pressed { code, click } => {
            let button = if code == shell::BTN_LEFT {
                Some(ClickButton::Left)
            } else if code == shell::BTN_RIGHT {
                Some(ClickButton::Right)
            } else {
                None
            };
            match action {
                PointerAction::Activate(command) => {
                    &&& owner == Owner::Menu
                    &&& button is Some
                    &&& is_activated(before.menu, button->0, click.local.1, command)
                    &&& after == before.menuless()
                },
                PointerAction::Run { output, command } => {
                    &&& owner == Owner::Bar(output)
                    &&& button is Some
                    &&& click.command is Some
                    &&& before.bars.dom().contains(output)
                    &&& is_clicked(before, after, output, click, command)
                },
                PointerAction::Ignore => {
                    &&& after == before
                    &&& button is Some && owner == Owner::Menu ==> is_idle_click(
                        before.menu,
                        button->0,
                        click.local.1,
                    )
                    &&& button is Some ==> (owner matches Owner::Bar(output)
                        ==> click.command is None || !before.bars.dom().contains(output))
                },
                _ => false,
            }
        },
        PointerInput::Scrolled(vertical) => {
            let total = before.scroll_remainder + vertical.motion();
            let steps = pointer::whole_steps(total);
            &&& after == (ShellView {
                scroll_remainder: (total - steps * pointer::STEP) as i64,
                ..before
            })
            &&& match owner {
                Owner::Bar(bar) => action matches PointerAction::Scroll { output, directions }
                    && output == bar && directions@ == pointer::directions_of(steps),
                _ => action == PointerAction::Ignore,
            }
        },
    }
}

impl Shell {
    /// The pointer did something on a surface of `owner`: what is to be done about it.
    pub fn on_pointer(&mut self, owner: Owner, input: PointerInput) -> (action: PointerAction)
        requires
            old(self).wf(),
        ensures
            final(self).wf(),
            is_pointer_step(old(self)@, final(self)@, owner, input, action),
    {
        match input {
            PointerInput::Over { entered, y, hover } => self.on_motion(owner, entered, y, hover),
            PointerInput::Left => {
                self.on_leave(owner);
                PointerAction::Ignore
            },
            PointerInput::Pressed { code, click } => self.on_press(owner, code, click),
            PointerInput::Scrolled(vertical) => {
                let directions: Vec<ScrollDirection> = self.on_axis(vertical);
                match owner {
                    Owner::Bar(output) => PointerAction::Scroll { output, directions },
                    _ => PointerAction::Ignore,
                }
            },
        }
    }

    fn on_motion(&mut self, owner: Owner, entered: bool, y: Fixed, hover: Hover) -> (action:
        PointerAction)
        requires
            old(self).wf(),
        ensures
            final(self).wf(),
            is_pointer_step(
                old(self)@,
                final(self)@,
                owner,
                PointerInput::Over { entered, y, hover },
                action,
            ),
    {
        match owner {
            Owner::Menu => {
                let shape: Cursor = self.menu_cursor(y);
                assert(is_menu_shape(old(self)@.menu, y, shape));
                PointerAction::Point {
                    tooltip: TooltipStep::Keep,
                    cursor: self.shape_wanted(shape, entered),
                }
            },
            Owner::Bar(output) => {
                let text: Option<&str> = match &hover.tooltip {
                    Some(text) => Some(text.as_str()),
                    None => None,
                };
                let tooltip: TooltipStep = self.update_tooltip(output, text);
                let shape: Cursor = if hover.clickable {
                    Cursor::Hand
                } else {
                    Cursor::Arrow
                };
                PointerAction::Point { tooltip, cursor: self.shape_wanted(shape, entered) }
            },
            _ => if entered {
                PointerAction::Stray
            } else {
                PointerAction::Ignore
            },
        }
    }

    fn shape_wanted(&self, shape: Cursor, entered: bool) -> (wanted: Option<Cursor>)
        ensures
            wanted == shape_to_set(self@.cursor, shape, entered),
    {
        if self.wants_cursor(shape, entered) {
            Some(shape)
        } else {
            None
        }
    }

    fn on_press(&mut self, owner: Owner, code: u32, click: BarClick) -> (action: PointerAction)
        requires
            old(self).wf(),
        ensures
            final(self).wf(),
            is_pointer_step(
                old(self)@,
                final(self)@,
                owner,
                PointerInput::Pressed { code, click },
                action,
            ),
    {
        let button: ClickButton = match shell::click_button(code) {
            Some(button) => button,
            None => {
                return PointerAction::Ignore;
            },
        };
        match owner {
            Owner::Menu => match self.on_menu_click(button, click.local.1) {
                Some(command) => PointerAction::Activate(command),
                None => PointerAction::Ignore,
            },
            Owner::Bar(output) => match self.on_bar_click(output, click) {
                Some(command) => PointerAction::Run { output, command },
                None => PointerAction::Ignore,
            },
            _ => PointerAction::Ignore,
        }
    }
}

/// Over a bar the pointer is a hand where a click does something and plain elsewhere; its
/// shape is set when it changes or the pointer just came.
pub proof fn lemma_the_pointer_shows_what_can_be_clicked(
    shell: &mut Shell,
    output: OutputId,
    entered: bool,
    y: Fixed,
    hover: Hover,
    action: PointerAction,
)
    requires
        old(shell).wf(),
        call_ensures(
            Shell::on_pointer,
            (shell, Owner::Bar(output), PointerInput::Over { entered, y, hover }),
            action,
        ),
    ensures
        action matches PointerAction::Point { tooltip, cursor } && {
            &&& cursor is Some && hover.clickable ==> cursor == Some(Cursor::Hand)
            &&& cursor is Some && !hover.clickable ==> cursor == Some(Cursor::Arrow)
            &&& entered ==> cursor is Some
            &&& cursor is None && hover.clickable ==> old(shell)@.cursor == Cursor::Hand
            &&& cursor is None && !hover.clickable ==> old(shell)@.cursor == Cursor::Arrow
            &&& !entered && cursor is Some ==> cursor->0 != old(shell)@.cursor
            &&& hover.tooltip is None ==> tooltip == TooltipStep::Hide && final(shell)@.tooltip is None
            &&& hover.tooltip is Some && old(shell)@.bars.dom().contains(output) && old(shell)@.tooltip is None ==> tooltip is Show
            &&& tooltip == TooltipStep::Keep ==> final(shell)@ == old(shell)@
        },
        final(shell)@.bars == old(shell)@.bars,
{
}

/// A pointer that leaves a bar takes its tooltip along, and asks for nothing.
pub proof fn lemma_a_pointer_that_leaves_asks_for_nothing(
    shell: &mut Shell,
    owner: Owner,
    action: PointerAction,
)
    requires
        old(shell).wf(),
        call_ensures(Shell::on_pointer, (shell, owner, PointerInput::Left), action),
    ensures
        action == PointerAction::Ignore,
        owner is Bar ==> final(shell)@.tooltip is None && final(shell)@.cursor == Cursor::Arrow,
        owner == Owner::Menu ==> final(shell)@.cursor == Cursor::Arrow && final(shell)@.tooltip
            == old(shell)@.tooltip,
        final(shell)@.menu == old(shell)@.menu,
        final(shell)@.bars == old(shell)@.bars,
{
}

/// A press of a button other than the two is ignored, and so is one where nothing is to be
/// clicked. One on a bar runs what the bar has there.
pub proof fn lemma_a_press_runs_what_is_there(
    shell: &mut Shell,
    output: OutputId,
    code: u32,
    click: BarClick,
    action: PointerAction,
)
    requires
        old(shell).wf(),
        call_ensures(
            Shell::on_pointer,
            (shell, Owner::Bar(output), PointerInput::Pressed { code, click }),
            action,
        ),
        old(shell)@.bars.dom().contains(output),
    ensures
        code != 272 && code != 273 ==> action == PointerAction::Ignore && final(shell)@ == old(shell)@,
        click.command is None ==> action == PointerAction::Ignore && final(shell)@ == old(shell)@,
        (code == 272 || code == 273) && click.command is Some ==> (action matches PointerAction::Run {
            output: bar,
            command,
        } && bar == output && (click.command matches Some(Command::RunProgram(program)) ==> command
            == click.command->0) && (click.command matches Some(Command::SwitchWorkspace(target))
            ==> command == click.command->0)),
{
}

/// A press of the primary button on a row of the menu that can be activated activates it
/// and closes the menu; every other press on the menu is ignored.
pub proof fn lemma_a_press_activates_the_row_it_is_on(
    shell: &mut Shell,
    code: u32,
    click: BarClick,
    action: PointerAction,
    i: int,
)
    requires
        old(shell).wf(),
        call_ensures(
            Shell::on_pointer,
            (shell, Owner::Menu, PointerInput::Pressed { code, click }),
            action,
        ),
        old(shell)@.menu is Some,
        click.local.1.raw >= 0,
        popup::is_row_at(
            popup::row_views(old(shell)@.menu->0.rows@),
            click.local.1.raw / 256,
            i,
        ),
    ensures
        ({
            let menu = old(shell)@.menu->0;
            let row = menu.rows@[i];
            let activated = code == 272 && row.enabled && !row.separator && !row.has_children;
            &&& activated ==> (action matches PointerAction::Activate(command) && (
            command matches Command::ActivateTrayMenuItem { key, id } && key@ == menu.key@ && id
                == row.id)) && final(shell)@.menu is None
            &&& !activated ==> action == PointerAction::Ignore && final(shell)@ == old(shell)@
        }),
{
    let rows = popup::row_views(shell@.menu->0.rows@);
    let y = click.local.1.raw / 256;
    assert forall|j: int| #[trigger] popup::is_row_at(rows, y, j) implies j == i by {
        popup::lemma_rows_do_not_overlap(rows, y, i, j);
    }
    lemma_within(rows, i + 1);
    assert(rows[i] == shell@.menu->0.rows@[i]@);
}

proof fn lemma_within(rows: Seq<popup::RowView>, n: int)
    requires
        0 <= n <= rows.len(),
    ensures
        popup::total_height(rows.take(n)) <= popup::total_height(rows),
    decreases rows.len(),
{
    if n < rows.len() {
        let init = rows.drop_last();
        lemma_within(init, n);
        assert(init.take(n) =~= rows.take(n));
    } else {
        assert(rows.take(n) =~= rows);
    }
}

/// The wheel scrolls the bar under the pointer step by step, down towards less and up
/// towards more, and what is less than a step is kept for the next time.
pub proof fn lemma_the_wheel_scrolls_the_bar(
    shell: &mut Shell,
    owner: Owner,
    vertical: AxisScroll,
    action: PointerAction,
    steps: int,
)
    requires
        old(shell).wf(),
        call_ensures(Shell::on_pointer, (shell, owner, PointerInput::Scrolled(vertical)), action),
        old(shell)@.scroll_remainder == 0,
        vertical.value120 == 120 * steps,
        steps != 0,
    ensures
        owner matches Owner::Bar(bar) ==> (action matches PointerAction::Scroll {
            output,
            directions,
        } && output == bar && (steps > 0 ==> directions@.len() == steps && directions@[0]
            == ScrollDirection::Decrease) && (steps < 0 ==> directions@.len() == -steps
            && directions@[0] == ScrollDirection::Increase)),
        !(owner is Bar) ==> action == PointerAction::Ignore,
        final(shell)@.scroll_remainder == 0,
        final(shell)@.bars == old(shell)@.bars,
{
}

} // verus!
