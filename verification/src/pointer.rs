//! Pointer input: scrolling, and where on the screen a click was.

use crate::fixed::Fixed;
use crate::widget::{Command, ScrollDirection};
use vstd::prelude::*;

verus! {

/// The units of one scroll step. A wheel reports 120ths of a step or whole steps, a
/// touchpad 256ths of a pixel, ten pixels to a step; all of them are whole numbers
/// of this unit.
pub const STEP: i64 = 7680;

/// Vertical scrolling, as a pointer reports it. Only one of the three counts: the
/// first that is not zero.
#[derive(Debug, Clone, Copy, PartialEq, Eq, Structural)]
pub struct AxisScroll {
    /// 120ths of a wheel step.
    pub value120: i32,
    /// Whole wheel steps.
    pub discrete: i32,
    /// The motion in 256ths of a pixel.
    pub absolute: i32,
}

impl AxisScroll {
    /// The motion in units of [`STEP`].
    pub open spec fn motion(self) -> int {
        if self.value120 != 0 {
            self.value120 * 64
        } else if self.discrete != 0 {
            self.discrete * STEP
        } else {
            self.absolute * 3
        }
    }
}

/// How many whole steps `units` are, towards zero.
pub open spec fn whole_steps(units: int) -> int {
    if units >= 0 {
        units / (STEP as int)
    } else {
        -((-units) / (STEP as int))
    }
}

/// The direction of each of `steps` steps: down is less, up is more.
pub open spec fn directions_of(steps: int) -> Seq<ScrollDirection> {
    if steps >= 0 {
        Seq::new(steps as nat, |i: int| ScrollDirection::Decrease)
    } else {
        Seq::new((-steps) as nat, |i: int| ScrollDirection::Increase)
    }
}

/// Turn wheel and touchpad motion into whole steps. What is less than a step is kept
/// in `remainder` for the next time.
pub fn scroll_directions(vertical: AxisScroll, remainder: &mut i64) -> (directions: Vec<
    ScrollDirection,
>)
    requires
        -STEP < *old(remainder) < STEP,
    ensures
        ({
            let total = *old(remainder) + vertical.motion();
            &&& directions@ == directions_of(whole_steps(total))
            &&& *final(remainder) == total - whole_steps(total) * STEP
            &&& -STEP < *final(remainder) < STEP
        }),
{
    let motion: i64 = if vertical.value120 != 0 {
        vertical.value120 as i64 * 64
    } else if vertical.discrete != 0 {
        vertical.discrete as i64 * STEP
    } else {
        vertical.absolute as i64 * 3
    };
    let total: i64 = *remainder + motion;
    let mut directions: Vec<ScrollDirection> = Vec::new();
    let mut rest: i64 = total;
    let ghost mut taken: int = 0;
    while rest >= STEP
        invariant
            taken >= 0,
            total >= 0 || taken == 0,
            rest == total - taken * STEP,
            total >= 0 ==> rest >= 0,
            directions@ == directions_of(taken),
        decreases rest,
    {
        directions.push(ScrollDirection::Decrease);
        rest = rest - STEP;
        proof {
            taken = taken + 1;
            assert(directions@ =~= directions_of(taken));
        }
    }
    while rest <= -STEP
        invariant
            total >= 0 ==> taken >= 0 && 0 <= rest < STEP,
            total < 0 ==> taken <= 0 && rest <= 0,
            rest == total - taken * STEP,
            directions@ == directions_of(taken),
        decreases -rest,
    {
        directions.push(ScrollDirection::Increase);
        rest = rest + STEP;
        proof {
            taken = taken - 1;
            assert(directions@ =~= directions_of(taken));
        }
    }
    *remainder = rest;
    directions
}

/// `a + b` as an `i32`, pinned at its bounds.
pub open spec fn added(a: int, b: int) -> int {
    if a + b > i32::MAX {
        i32::MAX as int
    } else if a + b < i32::MIN {
        i32::MIN as int
    } else {
        a + b
    }
}

/// Whether `after` is `command` with the screen position `(x, y)`: only tray
/// commands carry one.
pub open spec fn is_positioned(command: Command, after: Command, x: int, y: int) -> bool {
    match command {
        Command::ActivateTrayItem { key, .. } => after == Command::ActivateTrayItem {
            key,
            x: x as i32,
            y: y as i32,
        },
        Command::OpenTrayMenu { key, .. } => after == Command::OpenTrayMenu {
            key,
            x: x as i32,
            y: y as i32,
        },
        _ => after == command,
    }
}

/// Put the screen position of a click into a tray command: the place on the bar's
/// surface, moved by where its output lies.
pub fn set_tray_command_position(command: &mut Command, origin: (i32, i32), local: (Fixed, Fixed))
    ensures
        is_positioned(
            *old(command),
            *final(command),
            added(origin.0 as int, local.0.whole_spec()),
            added(origin.1 as int, local.1.whole_spec()),
        ),
{
    let screen_x: i32 = pinned_sum(origin.0, local.0.whole());
    let screen_y: i32 = pinned_sum(origin.1, local.1.whole());
    match command {
        Command::ActivateTrayItem { x, y, .. } => {
            *x = screen_x;
            *y = screen_y;
        },
        Command::OpenTrayMenu { x, y, .. } => {
            *x = screen_x;
            *y = screen_y;
        },
        _ => {},
    }
}

/// `a + b`, pinned at the bounds of `i32`.
fn pinned_sum(a: i32, b: i32) -> (sum: i32)
    ensures
        sum == added(a as int, b as int),
{
    let sum: i64 = a as i64 + b as i64;
    if sum > i32::MAX as i64 {
        i32::MAX
    } else if sum < i32::MIN as i64 {
        i32::MIN
    } else {
        sum as i32
    }
}

/// Steps and what is left over are what came in: nothing of a motion is lost, and what is
/// kept is less than a step and not against it.
pub proof fn lemma_no_motion_is_lost(
    vertical: AxisScroll,
    remainder: &mut i64,
    directions: Vec<ScrollDirection>,
    i: int,
)
    requires
        -7680 < *old(remainder) < 7680,
        call_ensures(scroll_directions, (vertical, remainder), directions),
        0 <= i < directions@.len(),
    ensures
        ({
            let units = if vertical.value120 != 0 {
                64 * vertical.value120
            } else if vertical.discrete != 0 {
                7680 * vertical.discrete
            } else {
                3 * vertical.absolute
            };
            let steps = directions@.len() as int;
            &&& directions@[i] == ScrollDirection::Decrease ==> 7680 * steps + *final(remainder)
                == *old(remainder) + units && *final(remainder) >= 0
            &&& directions@[i] == ScrollDirection::Increase ==> *final(remainder) - 7680 * steps
                == *old(remainder) + units && *final(remainder) <= 0
            &&& -7680 < *final(remainder) < 7680
        }),
{
}

/// A turn of the wheel by some steps is that many steps, down towards less and up towards
/// more, and ten pixels of a touchpad are a step.
pub proof fn lemma_the_wheel_goes_step_by_step(
    vertical: AxisScroll,
    remainder: &mut i64,
    directions: Vec<ScrollDirection>,
    steps: int,
)
    requires
        *old(remainder) == 0,
        call_ensures(scroll_directions, (vertical, remainder), directions),
        vertical.value120 == 120 * steps,
        vertical.value120 == 0 ==> vertical.discrete == steps,
        vertical.value120 == 0 && vertical.discrete == 0 ==> vertical.absolute == 0,
    ensures
        steps >= 0 ==> directions@.len() == steps && forall|i: int|
            0 <= i < steps ==> #[trigger] directions@[i] == ScrollDirection::Decrease,
        steps < 0 ==> directions@.len() == -steps && forall|i: int|
            0 <= i < -steps ==> #[trigger] directions@[i] == ScrollDirection::Increase,
        *final(remainder) == 0,
{
}

/// A turn that is told in whole steps alone is that many, and so are each ten pixels of a
/// touchpad.
pub proof fn lemma_ten_pixels_are_a_step(
    vertical: AxisScroll,
    remainder: &mut i64,
    directions: Vec<ScrollDirection>,
    steps: int,
)
    requires
        *old(remainder) == 0,
        call_ensures(scroll_directions, (vertical, remainder), directions),
        vertical.value120 == 0,
        vertical.discrete == steps || (vertical.discrete == 0 && vertical.absolute == 2560 * steps),
        steps != 0,
    ensures
        steps > 0 ==> directions@.len() == steps && directions@[0] == ScrollDirection::Decrease,
        steps < 0 ==> directions@.len() == -steps && directions@[0] == ScrollDirection::Increase,
        *final(remainder) == 0,
{
}

/// A tray command carries where on the screen the click was: the place on the bar moved by
/// where its output lies. Other commands stay as they are.
pub proof fn lemma_tray_commands_carry_the_place(
    command: &mut Command,
    origin: (i32, i32),
    local: (Fixed, Fixed),
    whole: (i32, i32),
)
    requires
        call_ensures(set_tray_command_position, (command, origin, local), ()),
        call_ensures(Fixed::whole, (local.0,), whole.0),
        call_ensures(Fixed::whole, (local.1,), whole.1),
        i32::MIN <= origin.0 + whole.0 <= i32::MAX,
        i32::MIN <= origin.1 + whole.1 <= i32::MAX,
    ensures
        *old(command) matches Command::ActivateTrayItem { key, .. } ==> *final(command)
            == (Command::ActivateTrayItem {
            key,
            x: (origin.0 + whole.0) as i32,
            y: (origin.1 + whole.1) as i32,
        }),
        *old(command) matches Command::OpenTrayMenu { key, .. } ==> *final(command)
            == (Command::OpenTrayMenu {
            key,
            x: (origin.0 + whole.0) as i32,
            y: (origin.1 + whole.1) as i32,
        }),
        !(*old(command) is ActivateTrayItem) && !(*old(command) is OpenTrayMenu)
            ==> *final(command) == *old(command),
{
}

} // verus!
