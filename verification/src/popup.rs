//! The popups of a bar: tooltips and tray menus, their size and what is painted on
//! them.

use crate::fixed::{self, Fixed};
use crate::outputs::OutputId;
use crate::render::Bounds;
use crate::scale::Scale;
use crate::text;
use crate::tray::{TrayMenu, TrayMenuItem, TrayMenuToggle, TrayMenuToggleKind, TrayMenuToggleState};
use crate::widget::Command;
use vstd::prelude::*;
use vstd::string::StringExecFns;

verus! {

/// The height of a menu row in logical pixels.
pub const MENU_ROW_HEIGHT: u32 = 28;

/// The height of a separator in logical pixels.
pub const MENU_SEPARATOR_HEIGHT: u32 = 8;

/// The space at the left and right of a popup in logical pixels.
pub const POPUP_PADDING_X: u32 = 10;

/// The space at the top and bottom of a popup in logical pixels.
pub const POPUP_PADDING_Y: u32 = 5;

/// The narrowest menu in logical pixels.
pub const MENU_MIN_WIDTH: u32 = 120;

/// The widest menu in logical pixels.
pub const MENU_MAX_WIDTH: u32 = 420;

/// A color: red, green, blue, alpha.
pub type Rgba = (u8, u8, u8, u8);

/// A color at half its brightness.
pub fn dim_color(color: Rgba) -> (dim: Rgba)
    ensures
        dim.0 == color.0 / 2,
        dim.1 == color.1 / 2,
        dim.2 == color.2 / 2,
        dim.3 == color.3,
{
    (color.0 / 2, color.1 / 2, color.2 / 2, color.3)
}

/// A color at half its brightness.
pub open spec fn dimmed(color: Rgba) -> Rgba {
    (color.0 / 2, color.1 / 2, color.2 / 2, color.3)
}

/// The background of a popup of a bar with this background: one that is nearly
/// opaque. A bar that lets the desktop show through gets a dark one.
pub open spec fn popup_background_of(bar: Rgba) -> Rgba {
    if bar.3 < 0xC0 {
        (0x20, 0x22, 0x27, 0xF8)
    } else {
        (
            bar.0,
            bar.1,
            bar.2,
            if bar.3 < 0xF0 {
                0xF0
            } else {
                bar.3
            },
        )
    }
}

/// The background of a popup of a bar with this background.
pub fn popup_background(bar: Rgba) -> (background: Rgba)
    ensures
        background == popup_background_of(bar),
{
    if bar.3 < 0xC0 {
        (0x20, 0x22, 0x27, 0xF8)
    } else {
        (
            bar.0,
            bar.1,
            bar.2,
            if bar.3 < 0xF0 {
                0xF0
            } else {
                bar.3
            },
        )
    }
}

/// A popup is readable over any desktop, whatever the bar's background is.
pub proof fn lemma_popups_are_nearly_opaque(bar: Rgba)
    ensures
        popup_background_of(bar).3 >= 0xF0,
{
}

/// One row of a menu.
#[derive(Debug, PartialEq, Eq)]
pub struct MenuRow {
    /// The id of the entry.
    pub id: i32,
    /// How deep it is nested.
    pub depth: u32,
    /// The label.
    pub label: String,
    /// Whether it can be activated.
    pub enabled: bool,
    /// Whether it is a separator.
    pub separator: bool,
    /// The toggle, if it is one.
    pub toggle: Option<TrayMenuToggle>,
    /// Whether entries are shown below it.
    pub has_children: bool,
}

/// The contents of a [`MenuRow`].
#[verifier::ext_equal]
pub struct RowView {
    /// The id of the entry.
    pub id: i32,
    /// How deep it is nested.
    pub depth: u32,
    /// The label.
    pub label: Seq<char>,
    /// Whether it can be activated.
    pub enabled: bool,
    /// Whether it is a separator.
    pub separator: bool,
    /// The toggle, if it is one.
    pub toggle: Option<TrayMenuToggle>,
    /// Whether entries are shown below it.
    pub has_children: bool,
}

impl View for MenuRow {
    type V = RowView;

    open spec fn view(&self) -> RowView {
        RowView {
            id: self.id,
            depth: self.depth,
            label: self.label@,
            enabled: self.enabled,
            separator: self.separator,
            toggle: self.toggle,
            has_children: self.has_children,
        }
    }
}

/// The contents of each row.
pub open spec fn row_views(rows: Seq<MenuRow>) -> Seq<RowView> {
    rows.map_values(|row: MenuRow| row@)
}

impl RowView {
    /// The height of the row in logical pixels.
    pub open spec fn tall(self) -> int {
        if self.separator {
            MENU_SEPARATOR_HEIGHT as int
        } else {
            MENU_ROW_HEIGHT as int
        }
    }

    /// Whether a click on the row does something: not on a separator, and not on a
    /// row that only holds others.
    pub open spec fn answers(self) -> bool {
        self.enabled && !self.separator && !self.has_children
    }

    /// What stands before the label: how a toggle is set.
    pub open spec fn prefix(self) -> Seq<char> {
        match self.toggle {
            Some(toggle) => match (toggle.kind, toggle.state) {
                (TrayMenuToggleKind::Checkmark, TrayMenuToggleState::On) => "[x] "@,
                (TrayMenuToggleKind::Checkmark, _) => "[ ] "@,
                (TrayMenuToggleKind::Radio, TrayMenuToggleState::On) => "(o) "@,
                (TrayMenuToggleKind::Radio, _) => "( ) "@,
            },
            None => seq![],
        }
    }

    /// What stands behind the label: that entries are shown below it.
    pub open spec fn suffix(self) -> Seq<char> {
        if self.has_children {
            "  >"@
        } else {
            seq![]
        }
    }

    /// The text whose width decides how wide the menu is: blanks stand for what
    /// goes before and behind the label.
    pub open spec fn measured(self) -> Seq<char> {
        let before: Seq<char> = if self.toggle is Some {
            "    "@
        } else {
            seq![]
        };
        let behind: Seq<char> = if self.has_children {
            "   "@
        } else {
            seq![]
        };
        before + self.label + behind
    }

    /// The color of the row's text: emphasized when it is switched on, dim when it
    /// cannot be activated.
    pub open spec fn text_color(self, foreground: Rgba, accent: Rgba) -> Rgba {
        if !self.enabled {
            dimmed(foreground)
        } else if self.toggle matches Some(toggle) && toggle.state == TrayMenuToggleState::On {
            accent
        } else {
            foreground
        }
    }
}

impl MenuRow {
    /// The height of the row in logical pixels.
    pub fn height(&self) -> (height: u32)
        ensures
            height == self@.tall(),
    {
        if self.separator {
            MENU_SEPARATOR_HEIGHT
        } else {
            MENU_ROW_HEIGHT
        }
    }

    /// Whether a click on the row does something.
    pub fn activatable(&self) -> (yes: bool)
        ensures
            yes == self@.answers(),
    {
        self.enabled && !self.separator && !self.has_children
    }

    /// The text whose width decides how wide the menu is.
    pub fn measured_text(&self) -> (text: String)
        ensures
            text@ == self@.measured(),
    {
        let mut text: String = String::new();
        if self.toggle.is_some() {
            text.append("    ");
        }
        text.append(self.label.as_str());
        if self.has_children {
            text.append("   ");
        }
        assert(text@ =~= self@.measured());
        text
    }
}

/// One level deeper.
pub open spec fn deeper(depth: u32) -> u32 {
    if depth == u32::MAX {
        depth
    } else {
        (depth + 1) as u32
    }
}

/// Whether an entry is shown.
pub open spec fn some_visible(items: Seq<TrayMenuItem>) -> bool {
    exists|i: int| 0 <= i < items.len() && (#[trigger] items[i]).visible
}

/// The row of an entry.
pub open spec fn row_of(item: TrayMenuItem, depth: u32) -> RowView {
    RowView {
        id: item.id,
        depth,
        label: item.label@,
        enabled: item.enabled,
        separator: item.separator,
        toggle: item.toggle,
        has_children: some_visible(item.children@),
    }
}

/// The rows of a menu: the visible entries in order, each followed by the rows of
/// the entries below it. What is below a hidden entry is hidden.
pub open spec fn rows_of(items: Seq<TrayMenuItem>, depth: u32) -> Seq<RowView>
    decreases items,
{
    if items.len() == 0 {
        seq![]
    } else {
        rows_of(items.drop_last(), depth) + if items.last().visible {
            seq![row_of(items.last(), depth)] + rows_of(items.last().children@, deeper(depth))
        } else {
            seq![]
        }
    }
}

fn any_visible(items: &Vec<TrayMenuItem>) -> (yes: bool)
    ensures
        yes == some_visible(items@),
{
    let mut i: usize = 0;
    while i < items.len()
        invariant
            i <= items@.len(),
            forall|j: int| 0 <= j < i ==> !(#[trigger] items@[j]).visible,
        decreases items@.len() - i,
    {
        if items[i].visible {
            return true;
        }
        i += 1;
    }
    false
}

/// Add the rows of a menu.
pub fn flatten_menu(items: &Vec<TrayMenuItem>, depth: u32, rows: &mut Vec<MenuRow>)
    ensures
        row_views(final(rows)@) == row_views(old(rows)@) + rows_of(items@, depth),
    decreases *items,
{
    let ghost before = row_views(rows@);
    assert(before + rows_of(items@.take(0), depth) =~= before);
    let mut i: usize = 0;
    while i < items.len()
        invariant
            i <= items@.len(),
            row_views(rows@) == before + rows_of(items@.take(i as int), depth),
        decreases items@.len() - i,
    {
        let ghost part = items@.take(i + 1);
        let ghost so_far = row_views(rows@);
        assert(part.last() == items@[i as int]);
        assert(part.drop_last() =~= items@.take(i as int));
        let item: &TrayMenuItem = &items[i];
        if item.visible {
            let row = MenuRow {
                id: item.id,
                depth,
                label: item.label.clone(),
                enabled: item.enabled,
                separator: item.separator,
                toggle: item.toggle,
                has_children: any_visible(&item.children),
            };
            let ghost shown = row@;
            rows.push(row);
            assert(row_views(rows@) =~= so_far.push(shown));
            assert(decreases_to!(*items => items@[i as int]));
            flatten_menu(&item.children, depth.saturating_add(1), rows);
            assert(row_views(rows@) =~= so_far + (seq![row_of(*item, depth)] + rows_of(
                item.children@,
                deeper(depth),
            )));
        } else {
            assert(so_far + Seq::<RowView>::empty() =~= so_far);
        }
        assert(row_views(rows@) =~= before + rows_of(part, depth));
        i += 1;
    }
    assert(items@.take(i as int) =~= items@);
}

/// The height of some rows in logical pixels.
pub open spec fn total_height(rows: Seq<RowView>) -> int
    decreases rows.len(),
{
    if rows.len() == 0 {
        0
    } else {
        total_height(rows.drop_last()) + rows.last().tall()
    }
}

/// Rows never overlap: the rows before a place are no taller than those before a
/// later one.
proof fn lemma_heights_grow(rows: Seq<RowView>, i: int, j: int)
    requires
        0 <= i <= j <= rows.len(),
    ensures
        total_height(rows.take(i)) <= total_height(rows.take(j)),
    decreases j - i,
{
    if i < j {
        lemma_heights_grow(rows, i, j - 1);
        assert(rows.take(j).drop_last() =~= rows.take(j - 1));
    }
}

/// The height of a menu in logical pixels.
pub fn menu_height(rows: &Vec<MenuRow>) -> (height: u32)
    ensures
        height == fixed::pin(total_height(row_views(rows@))),
{
    let ghost shown = row_views(rows@);
    let mut height: u128 = 0;
    let mut i: usize = 0;
    while i < rows.len()
        invariant
            i <= rows@.len(),
            shown == row_views(rows@),
            height == total_height(shown.take(i as int)),
            height <= 28 * i,
        decreases rows@.len() - i,
    {
        let ghost part = shown.take(i + 1);
        assert(part.last() == shown[i as int]);
        assert(part.drop_last() =~= shown.take(i as int));
        height = height + rows[i].height() as u128;
        i += 1;
    }
    assert(shown.take(i as int) =~= shown);
    fixed::pinned(height)
}

/// Whether `i` is the row at `y` pixels from the top.
pub open spec fn is_row_at(rows: Seq<RowView>, y: int, i: int) -> bool {
    0 <= i < rows.len() && total_height(rows.take(i)) <= y < total_height(rows.take(i + 1))
}

/// The place of the row at `y`.
pub fn row_at(rows: &Vec<MenuRow>, y: Fixed) -> (place: Option<usize>)
    ensures
        match place {
            Some(i) => y.raw >= 0 && is_row_at(row_views(rows@), y.raw / 256, i as int),
            None => y.raw < 0 || y.raw / 256 >= total_height(row_views(rows@)),
        },
{
    let pixel: u32 = match y.logical() {
        Some(pixel) => pixel,
        None => {
            return None;
        },
    };
    let ghost shown = row_views(rows@);
    let mut top: u128 = 0;
    let mut i: usize = 0;
    while i < rows.len()
        invariant
            i <= rows@.len(),
            shown == row_views(rows@),
            top == total_height(shown.take(i as int)),
            top <= 28 * i,
            top <= pixel,
            y.raw >= 0,
            pixel == y.raw / 256,
        decreases rows@.len() - i,
    {
        let ghost part = shown.take(i + 1);
        assert(part.last() == shown[i as int]);
        assert(part.drop_last() =~= shown.take(i as int));
        let bottom: u128 = top + rows[i].height() as u128;
        if (pixel as u128) < bottom {
            return Some(i);
        }
        top = bottom;
        i += 1;
    }
    assert(shown.take(i as int) =~= shown);
    None
}

/// A place in a menu is in one row at most.
pub proof fn lemma_rows_do_not_overlap(rows: Seq<RowView>, y: int, i: int, j: int)
    requires
        is_row_at(rows, y, i),
        is_row_at(rows, y, j),
    ensures
        i == j,
{
    if i < j {
        lemma_heights_grow(rows, i + 1, j);
    } else if j < i {
        lemma_heights_grow(rows, j + 1, i);
    }
}

/// `a / b`, rounded up.
pub open spec fn ceiling(a: int, b: int) -> int {
    (a + b - 1) / b
}

/// `a / b`, rounded up.
pub fn divide_up(a: u32, scale: Scale) -> (quotient: u32)
    ensures
        quotient == ceiling(a as int, scale@),
{
    let b: u64 = scale.get() as u64;
    let quotient: u64 = (a as u64 + b - 1) / b;
    proof {
        assert(quotient <= a) by (nonlinear_arith)
            requires
                b >= 1,
                quotient == (a + b - 1) / (b as int),
                a >= 0,
        ;
    }
    quotient as u32
}

/// The width one row asks for, in device pixels: its text, and the space around it,
/// more of it the deeper it is nested.
pub open spec fn row_width(row: RowView, text_width: int, scale: int) -> int {
    text_width + (32 + row.depth * 16) * scale
}

/// The width of the widest row but separators, in device pixels, and one pixel when
/// there is none.
pub open spec fn widest_row(rows: Seq<RowView>, text_widths: Seq<u32>, scale: int) -> int
    decreases rows.len(),
{
    if rows.len() == 0 {
        1
    } else {
        let rest = widest_row(rows.drop_last(), text_widths, scale);
        let width = row_width(rows.last(), text_widths[rows.len() - 1] as int, scale);
        if rows.last().separator || width < rest {
            rest
        } else {
            width
        }
    }
}

/// A width within what menus may have.
pub open spec fn allowed_width(width: int) -> int {
    if width < MENU_MIN_WIDTH {
        MENU_MIN_WIDTH as int
    } else if width > MENU_MAX_WIDTH {
        MENU_MAX_WIDTH as int
    } else {
        width
    }
}

/// The width of a menu in logical pixels, given how wide the measured text of each
/// row is in device pixels: the widest row, within what menus may have.
pub fn menu_width(rows: &Vec<MenuRow>, text_widths: &Vec<u32>, scale: Scale) -> (width: u32)
    requires
        text_widths@.len() == rows@.len(),
    ensures
        width == allowed_width(
            ceiling(widest_row(row_views(rows@), text_widths@, scale@), scale@),
        ),
{
    let factor: u32 = scale.get();
    let ghost shown = row_views(rows@);
    let mut widest: u128 = 1;
    let mut i: usize = 0;
    while i < rows.len()
        invariant
            i <= rows@.len() == text_widths@.len(),
            shown == row_views(rows@),
            factor == scale@,
            factor >= 1,
            widest == widest_row(shown.take(i as int), text_widths@, scale@),
            1 <= widest <= 0x1_0000_0000 + 0x20_0000_0000 * 0x1_0000_0000,
        decreases rows@.len() - i,
    {
        let ghost part = shown.take(i + 1);
        assert(part.last() == shown[i as int]);
        assert(part.drop_last() =~= shown.take(i as int));
        if !rows[i].separator {
            let space: u128 = 32 + rows[i].depth as u128 * 16;
            proof {
                assert(0 <= space * factor <= 0x20_0000_0000 * 0x1_0000_0000) by (nonlinear_arith)
                    requires
                        0 <= space <= 0x20_0000_0000,
                        0 <= factor <= 0x1_0000_0000,
                ;
            }
            let width: u128 = text_widths[i] as u128 + space * factor as u128;
            if width >= widest {
                widest = width;
            }
        }
        i += 1;
    }
    assert(shown.take(i as int) =~= shown);
    let divisor: u128 = factor as u128;
    let logical: u128 = (widest + divisor - 1) / divisor;
    if logical < MENU_MIN_WIDTH as u128 {
        MENU_MIN_WIDTH
    } else if logical > MENU_MAX_WIDTH as u128 {
        MENU_MAX_WIDTH
    } else {
        logical as u32
    }
}

/// One thing to paint on a popup, in device pixels.
#[derive(Debug, PartialEq, Eq)]
pub enum PaintOp {
    /// The rounded panel behind everything.
    Panel { bounds: Bounds, color: Rgba },
    /// A line.
    Line { bounds: Bounds, color: Rgba },
    /// A text, from the top left of its bounds.
    Text { text: String, bounds: Bounds, color: Rgba },
}

/// The contents of a [`PaintOp`].
#[verifier::ext_equal]
pub enum PaintOpView {
    /// The rounded panel behind everything.
    Panel { bounds: Bounds, color: Rgba },
    /// A line.
    Line { bounds: Bounds, color: Rgba },
    /// A text, from the top left of its bounds.
    Text { text: Seq<char>, bounds: Bounds, color: Rgba },
}

impl View for PaintOp {
    type V = PaintOpView;

    open spec fn view(&self) -> PaintOpView {
        match *self {
            PaintOp::Panel { bounds, color } => PaintOpView::Panel { bounds, color },
            PaintOp::Line { bounds, color } => PaintOpView::Line { bounds, color },
            PaintOp::Text { text, bounds, color } => PaintOpView::Text {
                text: text@,
                bounds,
                color,
            },
        }
    }
}

/// The contents of each thing to paint.
pub open spec fn op_views(ops: Seq<PaintOp>) -> Seq<PaintOpView> {
    ops.map_values(|op: PaintOp| op@)
}

/// What a menu is painted with, in device pixels.
pub struct MenuLook {
    /// The width of the menu.
    pub width: u32,
    /// The height of the menu.
    pub height: u32,
    /// Device pixels per logical pixel.
    pub scale: int,
    /// The color of the panel.
    pub background: Rgba,
    /// The color of text.
    pub foreground: Rgba,
    /// The color of what is switched on.
    pub accent: Rgba,
}

/// What is left of `width` when `used` of it is taken.
pub open spec fn left_over(width: int, used: int) -> u32 {
    if used >= width {
        0
    } else {
        (width - used) as u32
    }
}

/// What is painted for a row whose top is `top` logical pixels down: a line across
/// for a separator, else its label, indented by its depth.
pub open spec fn row_op(row: RowView, top: int, look: MenuLook) -> PaintOpView {
    let scale = look.scale;
    if row.separator {
        PaintOpView::Line {
            bounds: Bounds {
                x: fixed::pin(POPUP_PADDING_X * scale),
                y: fixed::pin(top * scale + row.tall() * scale / 2),
                width: left_over(look.width as int, 2 * POPUP_PADDING_X * scale),
                height: fixed::pin(scale),
            },
            color: dimmed(look.foreground),
        }
    } else {
        let indent = (POPUP_PADDING_X + row.depth * 16) * scale;
        PaintOpView::Text {
            text: row.prefix() + row.label + row.suffix(),
            bounds: Bounds {
                x: fixed::pin(indent),
                y: fixed::pin(top * scale),
                width: left_over(look.width as int, indent + POPUP_PADDING_X * scale),
                height: fixed::pin(row.tall() * scale),
            },
            color: row.text_color(look.foreground, look.accent),
        }
    }
}

/// What is painted for some rows, one below the other.
pub open spec fn row_ops(rows: Seq<RowView>, look: MenuLook) -> Seq<PaintOpView>
    decreases rows.len(),
{
    if rows.len() == 0 {
        seq![]
    } else {
        row_ops(rows.drop_last(), look).push(
            row_op(rows.last(), total_height(rows.drop_last()), look),
        )
    }
}

/// What is painted for a menu: its panel, then its rows.
pub open spec fn menu_ops(rows: Seq<RowView>, look: MenuLook) -> Seq<PaintOpView> {
    seq![
        PaintOpView::Panel {
            bounds: Bounds { x: 0, y: 0, width: look.width, height: look.height },
            color: look.background,
        },
    ] + row_ops(rows, look)
}

/// `n * factor`.
fn times(n: u128, factor: u32) -> (product: u128)
    requires
        n <= 0x1_0000_0000_0000_0000_0000,
    ensures
        product == n * factor,
        product <= 0x1_0000_0000_0000_0000_0000 * 0x1_0000_0000,
{
    proof {
        assert(0 <= n * factor <= 0x1_0000_0000_0000_0000_0000 * 0x1_0000_0000) by (nonlinear_arith)
            requires
                0 <= n <= 0x1_0000_0000_0000_0000_0000,
                0 <= factor <= 0x1_0000_0000,
        ;
    }
    n * factor as u128
}

/// What is left of `width` when `used` of it is taken.
fn rest_of(width: u32, used: u128) -> (rest: u32)
    ensures
        rest == left_over(width as int, used as int),
{
    if used >= width as u128 {
        0
    } else {
        width - used as u32
    }
}

/// The label of a row with what stands around it.
fn row_label(row: &MenuRow) -> (label: String)
    ensures
        label@ == row@.prefix() + row@.label + row@.suffix(),
{
    let mut label: String = String::new();
    match row.toggle {
        Some(toggle) => {
            let on: bool = toggle.state == TrayMenuToggleState::On;
            let prefix: &str = match toggle.kind {
                TrayMenuToggleKind::Checkmark => if on {
                    "[x] "
                } else {
                    "[ ] "
                },
                TrayMenuToggleKind::Radio => if on {
                    "(o) "
                } else {
                    "( ) "
                },
            };
            label.append(prefix);
        },
        None => {},
    }
    label.append(row.label.as_str());
    if row.has_children {
        label.append("  >");
    }
    assert(label@ =~= row@.prefix() + row@.label + row@.suffix());
    label
}

/// What is painted for one row.
fn plan_row(
    row: &MenuRow,
    top: u128,
    width: u32,
    scale: Scale,
    foreground: Rgba,
    accent: Rgba,
    Ghost(look): Ghost<MenuLook>,
) -> (op: PaintOp)
    requires
        top <= 0x1C_0000_0000_0000_0000,
        look.width == width,
        look.scale == scale@,
        look.foreground == foreground,
        look.accent == accent,
    ensures
        op@ == row_op(row@, top as int, look),
{
    let factor: u32 = scale.get();
    let padding: u128 = times(POPUP_PADDING_X as u128, factor);
    let y: u128 = times(top, factor);
    let tall: u128 = times(row.height() as u128, factor);
    if row.separator {
        let bounds = Bounds {
            x: fixed::pinned(padding),
            y: fixed::pinned(y + tall / 2),
            width: rest_of(width, 2 * padding),
            height: factor,
        };
        assert(2 * POPUP_PADDING_X * scale@ == 2 * (POPUP_PADDING_X * scale@)) by (nonlinear_arith)
            requires
                POPUP_PADDING_X == 10,
        ;
        PaintOp::Line { bounds, color: dim_color(foreground) }
    } else {
        let indent: u128 = times(POPUP_PADDING_X as u128 + row.depth as u128 * 16, factor);
        let bounds = Bounds {
            x: fixed::pinned(indent),
            y: fixed::pinned(y),
            width: rest_of(width, indent + padding),
            height: fixed::pinned(tall),
        };
        let on: bool = match row.toggle {
            Some(toggle) => toggle.state == TrayMenuToggleState::On,
            None => false,
        };
        let color: Rgba = if !row.enabled {
            dim_color(foreground)
        } else if on {
            accent
        } else {
            foreground
        };
        PaintOp::Text { text: row_label(row), bounds, color }
    }
}

/// A tray menu that is shown.
#[derive(Debug, PartialEq, Eq)]
pub struct OpenMenu {
    /// The output whose bar it hangs from.
    pub output: OutputId,
    /// The address of the item it belongs to.
    pub key: String,
    /// The revision of the layout.
    pub revision: u32,
    /// The rows.
    pub rows: Vec<MenuRow>,
    /// The width in logical pixels.
    pub width: u32,
    /// The height in logical pixels.
    pub height: u32,
    /// Device pixels per logical pixel.
    pub scale: Scale,
    /// The color of the panel.
    pub background: Rgba,
    /// The color of text.
    pub foreground: Rgba,
    /// The color of what is switched on.
    pub accent: Rgba,
}

/// What becomes of a shown menu when its layout changed.
#[derive(Debug, Clone, Copy, PartialEq, Eq, Structural)]
pub enum MenuStep {
    /// It stays as it is.
    Keep,
    /// It is painted anew.
    Repaint,
    /// It is closed.
    Close,
}

/// Whether a command activates the entry `id` of the menu of the item `key`.
pub open spec fn activates(command: Command, key: Seq<char>, id: i32) -> bool {
    match command {
        Command::ActivateTrayMenuItem { key: of, id: entry } => of@ == key && entry == id,
        _ => false,
    }
}

impl OpenMenu {
    /// What the menu is painted with.
    pub open spec fn look(&self) -> MenuLook {
        MenuLook {
            width: crate::scale::scaled_length(self.scale@, self.width as int) as u32,
            height: crate::scale::scaled_length(self.scale@, self.height as int) as u32,
            scale: self.scale@,
            background: self.background,
            foreground: self.foreground,
            accent: self.accent,
        }
    }

    /// The size of the menu in device pixels.
    pub fn physical_size(&self) -> (size: (u32, u32))
        ensures
            size == (self.look().width, self.look().height),
    {
        self.scale.to_physical_size(self.width, self.height)
    }

    /// The row at `y`.
    pub fn row_at(&self, y: Fixed) -> (row: Option<&MenuRow>)
        ensures
            match row {
                Some(row) => y.raw >= 0 && exists|i: int| #[trigger]
                    is_row_at(row_views(self.rows@), y.raw / 256, i) && *row == self.rows@[i],
                None => y.raw < 0 || y.raw / 256 >= total_height(row_views(self.rows@)),
            },
    {
        match row_at(&self.rows, y) {
            Some(i) => Some(&self.rows[i]),
            None => None,
        }
    }

    /// What a click at `y` asks for: the entry of the row there, if it does
    /// something.
    pub fn command_at(&self, y: Fixed) -> (command: Option<Command>)
        ensures
            match command {
                Some(command) => y.raw >= 0 && exists|i: int| #[trigger]
                    is_row_at(row_views(self.rows@), y.raw / 256, i) && self.rows@[i]@.answers()
                        && activates(command, self.key@, self.rows@[i].id),
                None => y.raw < 0 || y.raw / 256 >= total_height(row_views(self.rows@)) || exists|
                    i: int,
                | #[trigger]
                    is_row_at(row_views(self.rows@), y.raw / 256, i) && !self.rows@[i]@.answers(),
            },
    {
        let row: &MenuRow = match self.row_at(y) {
            Some(row) => row,
            None => {
                return None;
            },
        };
        if row.activatable() {
            Some(Command::ActivateTrayMenuItem { key: self.key.clone(), id: row.id })
        } else {
            None
        }
    }

    /// The layout of the menu changed.
    ///
    /// An older one than is shown is ignored. One that makes the menu taller or
    /// lower closes it, since its popup would have to be placed anew.
    pub fn update(&mut self, menu: &TrayMenu) -> (step: MenuStep)
        ensures
            final(self).output == old(self).output,
            final(self).key == old(self).key,
            final(self).width == old(self).width,
            final(self).height == old(self).height,
            final(self).scale == old(self).scale,
            final(self).background == old(self).background,
            final(self).foreground == old(self).foreground,
            final(self).accent == old(self).accent,
            ({
                let rows = rows_of(menu.items@, 0);
                if menu.revision < old(self).revision {
                    step == MenuStep::Keep && *final(self) == *old(self)
                } else if fixed::pin(total_height(rows)) != old(self).height {
                    step == MenuStep::Close && *final(self) == *old(self)
                } else {
                    &&& step == MenuStep::Repaint
                    &&& final(self).revision == menu.revision
                    &&& row_views(final(self).rows@) == rows
                }
            }),
    {
        if menu.revision < self.revision {
            return MenuStep::Keep;
        }
        let mut rows: Vec<MenuRow> = Vec::new();
        flatten_menu(&menu.items, 0, &mut rows);
        assert(row_views(Seq::empty()) + rows_of(menu.items@, 0) =~= rows_of(menu.items@, 0));
        if menu_height(&rows) != self.height {
            return MenuStep::Close;
        }
        self.revision = menu.revision;
        self.rows = rows;
        MenuStep::Repaint
    }

    /// What is painted for the menu, in order.
    pub fn plan(&self) -> (ops: Vec<PaintOp>)
        ensures
            op_views(ops@) == menu_ops(row_views(self.rows@), self.look()),
    {
        let ghost look = self.look();
        let ghost shown = row_views(self.rows@);
        let (width, height) = self.physical_size();
        let panel = PaintOp::Panel {
            bounds: Bounds { x: 0, y: 0, width, height },
            color: self.background,
        };
        let ghost first = seq![panel@];
        let mut ops: Vec<PaintOp> = Vec::new();
        ops.push(panel);
        let mut top: u128 = 0;
        let mut i: usize = 0;
        assert(op_views(ops@) =~= first + row_ops(shown.take(0), look));
        while i < self.rows.len()
            invariant
                i <= self.rows@.len(),
                shown == row_views(self.rows@),
                look == self.look(),
                width == look.width,
                top == total_height(shown.take(i as int)),
                top <= 28 * i,
                op_views(ops@) == first + row_ops(shown.take(i as int), look),
            decreases self.rows@.len() - i,
        {
            let ghost part = shown.take(i + 1);
            let ghost before = op_views(ops@);
            assert(part.last() == shown[i as int]);
            assert(part.drop_last() =~= shown.take(i as int));
            let op: PaintOp = plan_row(
                &self.rows[i],
                top,
                width,
                self.scale,
                self.foreground,
                self.accent,
                Ghost(look),
            );
            let ghost painted = op@;
            ops.push(op);
            assert(op_views(ops@) =~= before.push(painted));
            assert(op_views(ops@) =~= first + row_ops(part, look));
            top = top + self.rows[i].height() as u128;
            i += 1;
        }
        assert(shown.take(i as int) =~= shown);
        ops
    }
}

/// The widest of some widths.
pub open spec fn widest(widths: Seq<u32>) -> int
    decreases widths.len(),
{
    if widths.len() == 0 {
        0
    } else if widths.last() > widest(widths.drop_last()) {
        widths.last() as int
    } else {
        widest(widths.drop_last())
    }
}

/// `n`, but at least one.
pub open spec fn at_least_one(n: int) -> int {
    if n < 1 {
        1
    } else {
        n
    }
}

/// The size of a tooltip in device pixels, given how wide each of its lines is.
pub open spec fn tooltip_size_of(widths: Seq<u32>, line_height: int, scale: int) -> (u32, u32) {
    (
        fixed::pin(at_least_one(widest(widths) + 2 * POPUP_PADDING_X * scale)),
        fixed::pin(
            at_least_one(
                at_least_one(widths.len() as int) * line_height + 2 * POPUP_PADDING_Y * scale,
            ),
        ),
    )
}

/// The size of a tooltip in device pixels, given how wide each of its lines is: the
/// widest line, one line at least, and the space around.
pub fn tooltip_size(widths: &Vec<u32>, line_height: u32, scale: u32) -> (size: (u32, u32))
    ensures
        size == tooltip_size_of(widths@, line_height as int, scale as int),
{
    let mut wide: u32 = 0;
    let mut i: usize = 0;
    while i < widths.len()
        invariant
            i <= widths@.len(),
            wide == widest(widths@.take(i as int)),
        decreases widths@.len() - i,
    {
        let ghost part = widths@.take(i + 1);
        assert(part.last() == widths@[i as int]);
        assert(part.drop_last() =~= widths@.take(i as int));
        if widths[i] > wide {
            wide = widths[i];
        }
        i += 1;
    }
    assert(widths@.take(i as int) =~= widths@);
    let lines: u128 = if widths.len() == 0 {
        1
    } else {
        widths.len() as u128
    };
    let width: u128 = wide as u128 + 2 * times(POPUP_PADDING_X as u128, scale);
    let height: u128 = times(lines, line_height) + 2 * times(POPUP_PADDING_Y as u128, scale);
    proof {
        assert(2 * POPUP_PADDING_X * scale == 2 * (POPUP_PADDING_X * scale)) by (nonlinear_arith);
        assert(2 * POPUP_PADDING_Y * scale == 2 * (POPUP_PADDING_Y * scale)) by (nonlinear_arith);
    }
    let width: u128 = if width < 1 {
        1
    } else {
        width
    };
    let height: u128 = if height < 1 {
        1
    } else {
        height
    };
    (fixed::pinned(width), fixed::pinned(height))
}

/// What is painted for a tooltip: its panel, then its lines one below the other.
pub open spec fn tooltip_ops(
    lines: Seq<Seq<char>>,
    size: (u32, u32),
    line_height: u32,
    scale: int,
    background: Rgba,
    foreground: Rgba,
) -> Seq<PaintOpView> {
    seq![
        PaintOpView::Panel {
            bounds: Bounds { x: 0, y: 0, width: size.0, height: size.1 },
            color: background,
        },
    ] + Seq::new(
        lines.len(),
        |i: int|
            PaintOpView::Text {
                text: lines[i],
                bounds: Bounds {
                    x: fixed::pin(POPUP_PADDING_X * scale),
                    y: fixed::pin(POPUP_PADDING_Y * scale + i * line_height),
                    width: left_over(size.0 as int, 2 * fixed::pin(POPUP_PADDING_X * scale)),
                    height: line_height,
                },
                color: foreground,
            },
    )
}

/// What is painted for a tooltip of `size` device pixels that holds `text`.
pub fn tooltip_plan(
    text: &str,
    size: (u32, u32),
    line_height: u32,
    scale: u32,
    background: Rgba,
    foreground: Rgba,
) -> (ops: Vec<PaintOp>)
    ensures
        op_views(ops@) == tooltip_ops(
            text::lines_of(text@),
            size,
            line_height,
            scale as int,
            background,
            foreground,
        ),
{
    let lines: Vec<String> = text::lines(text);
    let ghost shown = text::lines_of(text@);
    let ghost whole = tooltip_ops(
        shown,
        size,
        line_height,
        scale as int,
        background,
        foreground,
    );
    let padding_x: u32 = fixed::pinned(times(POPUP_PADDING_X as u128, scale));
    let padding_y: u128 = times(POPUP_PADDING_Y as u128, scale);
    let mut ops: Vec<PaintOp> = Vec::new();
    ops.push(
        PaintOp::Panel {
            bounds: Bounds { x: 0, y: 0, width: size.0, height: size.1 },
            color: background,
        },
    );
    assert(op_views(ops@) =~= whole.take(1));
    let mut i: usize = 0;
    while i < lines.len()
        invariant
            i <= lines@.len(),
            shown == text::list(lines@),
            whole == tooltip_ops(
                shown,
                size,
                line_height,
                scale as int,
                background,
                foreground,
            ),
            padding_x == fixed::pin(POPUP_PADDING_X * scale),
            padding_y == POPUP_PADDING_Y * scale,
            padding_y <= 0x1_0000_0000_0000,
            op_views(ops@) == whole.take(i + 1),
        decreases lines@.len() - i,
    {
        let ghost before = op_views(ops@);
        let op = PaintOp::Text {
            text: lines[i].clone(),
            bounds: Bounds {
                x: padding_x,
                y: fixed::pinned(padding_y + times(i as u128, line_height)),
                width: rest_of(size.0, 2 * padding_x as u128),
                height: line_height,
            },
            color: foreground,
        };
        proof {
            assert(shown[i as int] == lines@[i as int]@);
            assert(op@ =~= whole[i + 1]);
        }
        let ghost painted = op@;
        ops.push(op);
        assert(op_views(ops@) =~= before.push(painted));
        assert(op_views(ops@) =~= whole.take(i + 2));
        i += 1;
    }
    assert(whole.take(i + 1) =~= whole);
    ops
}

/// Where a popup hangs, in logical pixels of its bar.
#[derive(Debug, Clone, Copy, PartialEq, Eq, Structural)]
pub struct PopupPlace {
    /// The width of the popup.
    pub width: u32,
    /// The height of the popup.
    pub height: u32,
    /// What it hangs from: never empty.
    pub anchor: Bounds,
}

/// Where a tooltip hangs: it covers its size, and hangs from the slot of its widget;
/// both are rounded up to whole logical pixels.
pub open spec fn tooltip_place_of(size: (u32, u32), slot: Bounds, scale: int) -> PopupPlace {
    PopupPlace {
        width: ceiling(size.0 as int, scale) as u32,
        height: ceiling(size.1 as int, scale) as u32,
        anchor: Bounds {
            x: (slot.x as int / scale) as u32,
            y: (slot.y as int / scale) as u32,
            width: at_least_one(ceiling(slot.width as int, scale)) as u32,
            height: at_least_one(ceiling(slot.height as int, scale)) as u32,
        },
    }
}

/// Where a tooltip of `size` device pixels hangs from the slot of its widget.
pub fn tooltip_place(size: (u32, u32), slot: Bounds, scale: Scale) -> (place: PopupPlace)
    ensures
        place == tooltip_place_of(size, slot, scale@),
{
    let divisor: u32 = scale.get();
    let width: u32 = divide_up(slot.width, scale);
    let height: u32 = divide_up(slot.height, scale);
    PopupPlace {
        width: divide_up(size.0, scale),
        height: divide_up(size.1, scale),
        anchor: Bounds {
            x: slot.x / divisor,
            y: slot.y / divisor,
            width: if width < 1 {
                1
            } else {
                width
            },
            height: if height < 1 {
                1
            } else {
                height
            },
        },
    }
}

/// A popup has the colors of its bar, no more transparent than it; only that of a bar that
/// lets the desktop show through is a dark gray.
pub proof fn lemma_a_popup_has_the_color_of_its_bar(bar: Rgba, background: Rgba)
    requires
        call_ensures(popup_background, (bar,), background),
    ensures
        background.3 >= bar.3,
        background.3 >= 0xF0,
        bar.3 >= 0xC0 ==> background.0 == bar.0 && background.1 == bar.1 && background.2 == bar.2,
        0xC0 <= bar.3 <= 0xF0 ==> background.3 == 0xF0,
        bar.3 >= 0xF0 ==> background == bar,
        bar.3 < 0xC0 ==> background == (0x20u8, 0x22u8, 0x27u8, 0xF8u8),
{
}

/// A visible entry has its row, behind those of the entries before it and with what it
/// says, and the rows of the entries below it follow one level deeper.
pub proof fn lemma_a_visible_entry_has_its_row(
    items: Vec<TrayMenuItem>,
    depth: u32,
    rows: &mut Vec<MenuRow>,
    i: int,
)
    requires
        call_ensures(flatten_menu, (&items, depth, rows), ()),
        depth < u32::MAX,
        0 <= i < items@.len(),
        items@[i].visible,
    ensures
        ({
            let item = items@[i];
            let p = (old(rows)@.len() + rows_of(items@.take(i), depth).len()) as int;
            let below = rows_of(item.children@, (depth + 1) as u32);
            &&& p + below.len() < final(rows)@.len()
            &&& final(rows)@[p].id == item.id
            &&& final(rows)@[p].depth == depth
            &&& final(rows)@[p].label@ == item.label@
            &&& final(rows)@[p].enabled == item.enabled
            &&& final(rows)@[p].separator == item.separator
            &&& final(rows)@[p].toggle == item.toggle
            &&& final(rows)@[p].has_children <==> exists|j: int|
                0 <= j < item.children@.len() && (#[trigger] item.children@[j]).visible
            &&& forall|k: int|
                0 <= k < below.len() ==> (#[trigger] final(rows)@[p + 1 + k])@ == below[k]
        }),
{
    let item = items@[i];
    let first = rows_of(items@.take(i), depth);
    let below = rows_of(item.children@, (depth + 1) as u32);
    let before = row_views(rows@);
    let after = row_views(final(rows)@);
    let whole = rows_of(items@, depth);
    let p = (rows@.len() + first.len()) as int;
    lemma_rows_lead(items@, depth, i + 1);
    assert(items@.take(i + 1).drop_last() =~= items@.take(i));
    assert(items@.take(i + 1).last() == item);
    let part = rows_of(items@.take(i + 1), depth);
    assert(part == first + (seq![row_of(item, depth)] + below));
    assert(after == before + whole);
    assert(after.len() == final(rows)@.len());
    assert(before.len() == rows@.len());
    assert(part.len() <= whole.len());
    assert(forall|k: int| 0 <= k < part.len() ==> whole[k] == part[k]);
    assert(after[p as int] == part[first.len() as int]);
    assert(after[p as int] == final(rows)@[p as int]@);
    assert forall|k: int| 0 <= k < below.len() implies (#[trigger] final(rows)@[p + 1 + k])@
        == below[k] by {
        assert(after[p + 1 + k] == final(rows)@[p + 1 + k]@);
        assert(after[p + 1 + k] == whole[first.len() + 1 + k]);
        assert(part[first.len() + 1 + k] == below[k]);
    }
}

proof fn lemma_rows_lead(items: Seq<TrayMenuItem>, depth: u32, n: int)
    requires
        0 <= n <= items.len(),
    ensures
        rows_of(items.take(n), depth).len() <= rows_of(items, depth).len(),
        forall|k: int|
            0 <= k < rows_of(items.take(n), depth).len() ==> rows_of(items, depth)[k]
                == #[trigger] rows_of(items.take(n), depth)[k],
    decreases items.len(),
{
    if n < items.len() {
        let init = items.drop_last();
        lemma_rows_lead(init, depth, n);
        assert(init.take(n) =~= items.take(n));
    } else {
        assert(items.take(n) =~= items);
    }
}

/// A hidden entry adds no row, nor do those below it.
pub proof fn lemma_hidden_entries_have_no_rows(
    items: Vec<TrayMenuItem>,
    depth: u32,
    rows: &mut Vec<MenuRow>,
)
    requires
        call_ensures(flatten_menu, (&items, depth, rows), ()),
        forall|i: int| 0 <= i < items@.len() ==> !(#[trigger] items@[i]).visible,
    ensures
        final(rows)@.len() == old(rows)@.len(),
{
    lemma_nothing_shows(items@, depth);
    assert(row_views(final(rows)@).len() == final(rows)@.len());
    assert(row_views(rows@).len() == rows@.len());
}

proof fn lemma_nothing_shows(items: Seq<TrayMenuItem>, depth: u32)
    requires
        forall|i: int| 0 <= i < items.len() ==> !(#[trigger] items[i]).visible,
    ensures
        rows_of(items, depth).len() == 0,
    decreases items.len(),
{
    if items.len() > 0 {
        let init = items.drop_last();
        assert forall|i: int| 0 <= i < init.len() implies !(#[trigger] init[i]).visible by {
            assert(init[i] == items[i]);
        }
        lemma_nothing_shows(init, depth);
        assert(!items[items.len() - 1].visible);
    }
}

/// A row makes its menu taller by its height: 8 pixels for a separator, else 28. A menu
/// without rows has no height.
pub proof fn lemma_each_row_adds_its_height(
    rows: Vec<MenuRow>,
    more: Vec<MenuRow>,
    row: MenuRow,
    height: u32,
    taller: u32,
)
    requires
        call_ensures(menu_height, (&rows,), height),
        call_ensures(menu_height, (&more,), taller),
        more@ == rows@.push(row),
        taller < u32::MAX,
    ensures
        row.separator ==> taller == height + 8,
        !row.separator ==> taller == height + 28,
        rows@.len() == 0 ==> height == 0,
{
    lemma_pushed_height(rows@, row);
    lemma_heights_grow(row_views(rows@), 0, rows@.len() as int);
    assert(row_views(rows@).take(rows@.len() as int) =~= row_views(rows@));
    assert(row_views(rows@).take(0).len() == 0);
}

proof fn lemma_pushed_height(rows: Seq<MenuRow>, row: MenuRow)
    ensures
        total_height(row_views(rows.push(row))) == total_height(row_views(rows))
            + if row.separator {
            8int
        } else {
            28
        },
{
    assert(row_views(rows.push(row)) =~= row_views(rows).push(row@));
    assert(row_views(rows).push(row@).drop_last() =~= row_views(rows));
}

/// Rows without separators lie 28 pixels apart: a place is in the row that many times
/// from the top.
pub proof fn lemma_rows_lie_28_pixels_apart(rows: Vec<MenuRow>, y: Fixed, place: Option<usize>)
    requires
        call_ensures(row_at, (&rows, y), place),
        forall|i: int| 0 <= i < rows@.len() ==> !(#[trigger] rows@[i]).separator,
    ensures
        place is Some <==> 0 <= y.raw < 256 * 28 * rows@.len(),
        place is Some ==> 28 * place->0 <= y.raw / 256 < 28 * (place->0 + 1),
{
    let shown = row_views(rows@);
    assert forall|i: int| 0 <= i < shown.len() implies !(#[trigger] shown[i]).separator by {
        assert(shown[i] == rows@[i]@);
    }
    lemma_even_heights(shown, shown.len() as int);
    assert(shown.take(shown.len() as int) =~= shown);
    assert(shown.len() == rows@.len());
    assert(total_height(shown) == 28 * rows@.len());
    if place is Some {
        assert(is_row_at(shown, y.raw / 256, place->0 as int));
        lemma_even_heights(shown, place->0 as int);
        lemma_even_heights(shown, place->0 + 1);
        assert(y.raw / 256 < 28 * rows@.len());
    }
    let raw = y.raw as int;
    let n = rows@.len() as int;
    assert(256 * 28 * n == 256 * (28 * n)) by (nonlinear_arith);
    assert(raw >= 0 ==> (raw / 256 < 28 * n <==> raw < 256 * (28 * n)));
}

proof fn lemma_even_heights(rows: Seq<RowView>, n: int)
    requires
        0 <= n <= rows.len(),
        forall|i: int| 0 <= i < rows.len() ==> !(#[trigger] rows[i]).separator,
    ensures
        total_height(rows.take(n)) == 28 * n,
    decreases n,
{
    if n > 0 {
        lemma_even_heights(rows, n - 1);
        assert(rows.take(n).drop_last() =~= rows.take(n - 1));
        assert(rows.take(n).last() == rows[n - 1]);
    } else {
        assert(rows.take(0).len() == 0);
    }
}

/// A click activates the entry of the row that it is on, where that one can be activated,
/// and nothing on a separator, on a row that only holds others or on one that is disabled.
pub proof fn lemma_a_click_activates_the_row_it_is_on(
    menu: OpenMenu,
    y: Fixed,
    command: Option<Command>,
    i: int,
)
    requires
        call_ensures(OpenMenu::command_at, (&menu, y), command),
        y.raw >= 0,
        is_row_at(row_views(menu.rows@), y.raw / 256, i),
    ensures
        ({
            let row = menu.rows@[i];
            &&& command is Some <==> row.enabled && !row.separator && !row.has_children
            &&& command is Some ==> (command->0 matches Command::ActivateTrayMenuItem { key, id }
                && key@ == menu.key@ && id == row.id)
        }),
{
    let shown = row_views(menu.rows@);
    assert(shown[i] == menu.rows@[i]@);
    assert forall|j: int| #[trigger] is_row_at(shown, y.raw / 256, j) implies j == i by {
        lemma_rows_do_not_overlap(shown, y.raw / 256, i, j);
    }
    lemma_heights_grow(shown, i + 1, shown.len() as int);
    assert(shown.take(shown.len() as int) =~= shown);
}

/// A click outside the rows does nothing.
pub proof fn lemma_a_click_beside_the_rows_does_nothing(
    menu: OpenMenu,
    y: Fixed,
    command: Option<Command>,
)
    requires
        call_ensures(OpenMenu::command_at, (&menu, y), command),
        y.raw < 0 || y.raw / 256 >= total_height(row_views(menu.rows@)),
    ensures
        command is None,
{
    let shown = row_views(menu.rows@);
    assert forall|j: int| #[trigger] is_row_at(shown, y.raw / 256, j) implies y.raw < 0 by {
        lemma_heights_grow(shown, j + 1, shown.len() as int);
        assert(shown.take(shown.len() as int) =~= shown);
    }
}

/// A shown menu takes over a layout that is not older than its own and as tall as it; an
/// older one it ignores, and one of another height closes it. Neither of these changes it.
pub proof fn lemma_a_shown_menu_follows_its_layout(
    menu: &mut OpenMenu,
    layout: TrayMenu,
    step: MenuStep,
    rows: Vec<MenuRow>,
    height: u32,
)
    requires
        call_ensures(OpenMenu::update, (menu, &layout), step),
        row_views(rows@) == rows_of(layout.items@, 0),
        call_ensures(menu_height, (&rows,), height),
    ensures
        step == MenuStep::Keep <==> layout.revision < old(menu).revision,
        step == MenuStep::Close <==> layout.revision >= old(menu).revision && height
            != old(menu).height,
        step == MenuStep::Repaint ==> final(menu).revision == layout.revision && row_views(
            final(menu).rows@,
        ) == row_views(rows@),
        step != MenuStep::Repaint ==> *final(menu) == *old(menu),
        final(menu).key@ == old(menu).key@,
        final(menu).height == old(menu).height,
{
}

/// A menu is painted on a panel of its whole size; each row has one thing painted, below
/// those of the rows before it: a dim line for a separator, else its label. The label is
/// dim where the row is disabled, emphasized where it is switched on, and plain elsewhere.
pub proof fn lemma_each_row_is_painted_in_its_place(menu: OpenMenu, ops: Vec<PaintOp>, i: int)
    requires
        call_ensures(OpenMenu::plan, (&menu,), ops),
        0 <= i < menu.rows@.len(),
    ensures
        ops@.len() == menu.rows@.len() + 1,
        ops@[0] matches PaintOp::Panel { bounds, color } && color == menu.background && bounds.x
            == 0 && bounds.y == 0 && bounds.width == menu.look().width && bounds.height
            == menu.look().height,
        ({
            let row = menu.rows@[i];
            let top = total_height(row_views(menu.rows@).take(i)) * menu.scale@;
            let dim = (
                menu.foreground.0 / 2,
                menu.foreground.1 / 2,
                menu.foreground.2 / 2,
                menu.foreground.3,
            );
            &&& row.separator ==> (ops@[i + 1] matches PaintOp::Line { bounds, color } && color
                == dim && bounds.x == fixed::pin(10 * menu.scale@) && bounds.y == fixed::pin(
                top + 8 * menu.scale@ / 2,
            ))
            &&& !row.separator ==> (ops@[i + 1] matches PaintOp::Text { text, bounds, color }
                && bounds.y == fixed::pin(top) && bounds.height == fixed::pin(28 * menu.scale@)
                && bounds.x == fixed::pin((10 + 16 * row.depth) * menu.scale@) && (!row.enabled
                ==> color == dim) && (row.enabled && row.toggle is None ==> color
                == menu.foreground) && (row.enabled && row.toggle is Some
                && row.toggle->0.state == TrayMenuToggleState::On ==> color == menu.accent) && (
            row.enabled && row.toggle is Some && row.toggle->0.state != TrayMenuToggleState::On
                ==> color == menu.foreground))
        }),
{
    let shown = row_views(menu.rows@);
    let look = menu.look();
    let painted = op_views(ops@);
    lemma_row_op_at(shown, look, i);
    assert(shown[i] == menu.rows@[i]@);
    assert(painted.len() == ops@.len());
    assert(painted[0] == ops@[0]@);
    assert(painted[i + 1] == ops@[i + 1]@);
    assert(painted[i + 1] == row_ops(shown, look)[i]);
    assert((10 + menu.rows@[i].depth * 16) * menu.scale@ == (10 + 16 * menu.rows@[i].depth)
        * menu.scale@);
}

proof fn lemma_row_op_at(rows: Seq<RowView>, look: MenuLook, i: int)
    requires
        0 <= i < rows.len(),
    ensures
        row_ops(rows, look).len() == rows.len(),
        row_ops(rows, look)[i] == row_op(rows[i], total_height(rows.take(i)), look),
    decreases rows.len(),
{
    let init = rows.drop_last();
    if i < init.len() {
        lemma_row_op_at(init, look, i);
        assert(init.take(i) =~= rows.take(i));
    } else {
        if init.len() > 0 {
            lemma_row_op_at(init, look, 0);
        } else {
            assert(row_ops(init, look).len() == 0);
        }
        assert(init =~= rows.take(i));
    }
}

/// The label of a row stands behind how it is set, and before a mark where entries are
/// shown below it. What is painted is as long as what was measured.
pub proof fn lemma_labels_are_measured_with_what_is_around_them(
    menu: OpenMenu,
    ops: Vec<PaintOp>,
    i: int,
    row: MenuRow,
    label: String,
    measured: String,
)
    requires
        call_ensures(OpenMenu::plan, (&menu,), ops),
        0 <= i < menu.rows@.len(),
        row == menu.rows@[i],
        ops@[i + 1] matches PaintOp::Text { text, bounds, color } && text == label,
        call_ensures(MenuRow::measured_text, (&row,), measured),
    ensures
        label@.len() == measured@.len(),
        ({
            let before = if row.toggle is Some {
                4int
            } else {
                0
            };
            let behind = if row.has_children {
                3int
            } else {
                0
            };
            &&& label@.len() == before + row.label@.len() + behind
            &&& label@.subrange(before, before + row.label@.len()) == row.label@
            &&& row.has_children ==> label@.last() == '>'
            &&& row.toggle is Some ==> {
                let on = row.toggle->0.state == TrayMenuToggleState::On;
                &&& row.toggle->0.kind == TrayMenuToggleKind::Checkmark ==> label@[0] == '['
                    && label@[2] == ']' && label@[1] == if on {
                    'x'
                } else {
                    ' '
                }
                &&& row.toggle->0.kind == TrayMenuToggleKind::Radio ==> label@[0] == '('
                    && label@[2] == ')' && label@[1] == if on {
                    'o'
                } else {
                    ' '
                }
            }
        }),
{
    reveal_strlit("[x] ");
    reveal_strlit("[ ] ");
    reveal_strlit("(o) ");
    reveal_strlit("( ) ");
    reveal_strlit("  >");
    reveal_strlit("    ");
    reveal_strlit("   ");
    let before = if row.toggle is Some {
        4int
    } else {
        0
    };
    let shown = row_views(menu.rows@);
    let painted = op_views(ops@);
    lemma_row_op_at(shown, menu.look(), i);
    assert(shown[i] == row@);
    assert(painted.len() == ops@.len());
    assert(painted[i + 1] == ops@[i + 1]@);
    assert(painted[i + 1] == row_ops(shown, menu.look())[i]);
    assert(label@ == row@.prefix() + row@.label + row@.suffix());
    assert(row@.prefix().len() == before);
    assert(label@.subrange(before, before + row.label@.len()) =~= row.label@);
}

/// A menu is wide enough for each of its rows with the space around it, and no wider than
/// it has to be, within the 120 to 420 pixels that menus may have.
pub proof fn lemma_a_menu_is_as_wide_as_it_has_to_be(
    rows: Vec<MenuRow>,
    widths: Vec<u32>,
    scale: Scale,
    width: u32,
    i: int,
)
    requires
        call_ensures(menu_width, (&rows, &widths, scale), width),
        widths@.len() == rows@.len(),
        scale@ >= 1,
        0 <= i < rows@.len(),
        !rows@[i].separator,
    ensures
        120 <= width <= 420,
        width < 420 ==> width * scale@ >= widths@[i] + (32 + 16 * rows@[i].depth) * scale@,
        (forall|j: int|
            0 <= j < rows@.len() && !(#[trigger] rows@[j]).separator ==> widths@[j] + (32 + 16
                * rows@[j].depth) * scale@ <= (width - 1) * scale@) ==> width == 120,
{
    let shown = row_views(rows@);
    let widest = widest_row(shown, widths@, scale@);
    let s = scale@;
    assert(shown[i] == rows@[i]@);
    lemma_widest_row(shown, widths@, s, i);
    assert(rows@[i].depth * 16 == 16 * rows@[i].depth);
    assert(row_width(shown[i], widths@[i] as int, s) == widths@[i] + (32 + 16 * rows@[i].depth)
        * s);
    let c = ceiling(widest, s);
    assert(c * s >= widest && (c - 1) * s < widest) by (nonlinear_arith)
        requires
            c == (widest + s - 1) / s,
            s >= 1,
    ;
    if width < 420 {
        assert(width >= c);
        assert(width * s >= c * s) by (nonlinear_arith)
            requires
                width >= c,
                s >= 1,
        ;
    }
    if forall|j: int|
        0 <= j < rows@.len() && !(#[trigger] rows@[j]).separator ==> widths@[j] + (32 + 16
            * rows@[j].depth) * s <= (width - 1) * s {
        let k = lemma_some_row_is_widest(shown, widths@, s);
        assert((width - 1) * s >= 119) by (nonlinear_arith)
            requires
                width >= 120,
                s >= 1,
        ;
        if 0 <= k {
            assert(shown[k] == rows@[k]@);
            assert(rows@[k].depth * 16 == 16 * rows@[k].depth);
            assert(!rows@[k].separator);
        }
        assert(widest <= (width - 1) * s);
        assert(c - 1 < width - 1) by (nonlinear_arith)
            requires
                (c - 1) * s < widest,
                widest <= (width - 1) * s,
                s >= 1,
        ;
    }
}

proof fn lemma_widest_row(rows: Seq<RowView>, widths: Seq<u32>, scale: int, i: int)
    requires
        0 <= i < rows.len(),
        !rows[i].separator,
    ensures
        widest_row(rows, widths, scale) >= row_width(rows[i], widths[i] as int, scale),
    decreases rows.len(),
{
    let init = rows.drop_last();
    if i < init.len() {
        lemma_widest_row(init, widths, scale, i);
    }
}

proof fn lemma_some_row_is_widest(rows: Seq<RowView>, widths: Seq<u32>, scale: int) -> (k: int)
    ensures
        -1 <= k < rows.len(),
        k < 0 ==> widest_row(rows, widths, scale) == 1,
        0 <= k ==> !rows[k].separator && widest_row(rows, widths, scale) == row_width(
            rows[k],
            widths[k] as int,
            scale,
        ),
    decreases rows.len(),
{
    if rows.len() == 0 {
        -1
    } else {
        let init = rows.drop_last();
        let k = lemma_some_row_is_widest(init, widths, scale);
        let rest = widest_row(init, widths, scale);
        let width = row_width(rows.last(), widths[rows.len() - 1] as int, scale);
        if rows.last().separator || width < rest {
            k
        } else {
            rows.len() - 1
        }
    }
}

/// A tooltip is wide enough for each of its lines and tall enough for all of them, with
/// the space around them, as far as pixels can be counted.
pub proof fn lemma_a_tooltip_holds_its_lines(
    widths: Vec<u32>,
    line_height: u32,
    scale: u32,
    size: (u32, u32),
    i: int,
)
    requires
        call_ensures(tooltip_size, (&widths, line_height, scale), size),
        0 <= i < widths@.len(),
        size.0 < u32::MAX,
        size.1 < u32::MAX,
    ensures
        size.0 >= widths@[i] + 20 * scale,
        size.0 > 1 ==> exists|j: int|
            0 <= j < widths@.len() && size.0 == (#[trigger] widths@[j]) + 20 * scale,
        size.1 > 1 ==> size.1 == widths@.len() * line_height + 10 * scale,
{
    lemma_widest(widths@, i);
    let n = widths@.len() as int;
    assert(2 * POPUP_PADDING_X * scale == 20 * scale) by (nonlinear_arith)
        requires
            POPUP_PADDING_X == 10,
    ;
    assert(2 * POPUP_PADDING_Y * scale == 10 * scale) by (nonlinear_arith)
        requires
            POPUP_PADDING_Y == 5,
    ;
    let j = choose|j: int| 0 <= j < widths@.len() && #[trigger] widths@[j] == widest(widths@);
    assert(widths@[j] == widest(widths@));
    assert(n * line_height >= 0) by (nonlinear_arith)
        requires
            n >= 0,
            line_height >= 0,
    ;
}

proof fn lemma_widest(widths: Seq<u32>, i: int)
    requires
        0 <= i < widths.len(),
    ensures
        widest(widths) >= widths[i],
        exists|j: int| 0 <= j < widths.len() && #[trigger] widths[j] == widest(widths),
    decreases widths.len(),
{
    let init = widths.drop_last();
    if init.len() > 0 {
        lemma_widest(
            init,
            if i < init.len() {
                i
            } else {
                0
            },
        );
        let j = choose|j: int| 0 <= j < init.len() && #[trigger] init[j] == widest(init);
        assert(widths[j] == init[j]);
    } else {
        assert(widest(init) == 0);
    }
    assert(widths[widths.len() - 1] == widths.last());
}

/// A tooltip is painted on a panel of its whole size, and its lines one below the other,
/// each with the space around it.
pub proof fn lemma_lines_are_painted_one_below_the_other(
    text: &str,
    size: (u32, u32),
    line_height: u32,
    scale: u32,
    background: Rgba,
    foreground: Rgba,
    ops: Vec<PaintOp>,
    i: int,
)
    requires
        call_ensures(tooltip_plan, (text, size, line_height, scale, background, foreground), ops),
        0 <= i < text::lines_of(text@).len(),
    ensures
        ops@.len() == text::lines_of(text@).len() + 1,
        ops@[0] matches PaintOp::Panel { bounds, color } && color == background && bounds.x == 0
            && bounds.y == 0 && bounds.width == size.0 && bounds.height == size.1,
        ops@[i + 1] matches PaintOp::Text { text: line, bounds, color } && line@
            == text::lines_of(text@)[i] && color == foreground && bounds.height == line_height
            && bounds.x == fixed::pin(10 * scale) && bounds.y == fixed::pin(
            5 * scale + i * line_height,
        ) && (bounds.width > 0 ==> bounds.x + bounds.width + bounds.x == size.0),
{
    let painted = op_views(ops@);
    assert(painted.len() == ops@.len());
    assert(painted[0] == ops@[0]@);
    assert(painted[i + 1] == ops@[i + 1]@);
}

/// A tooltip covers its size in whole logical pixels with less than one to spare, and
/// hangs from a place that begins in the pixel where the slot of its widget begins and is
/// never empty.
pub proof fn lemma_a_tooltip_covers_its_size(
    size: (u32, u32),
    slot: Bounds,
    scale: Scale,
    place: PopupPlace,
)
    requires
        call_ensures(tooltip_place, (size, slot, scale), place),
        scale@ >= 1,
    ensures
        place.width * scale@ >= size.0 > (place.width - 1) * scale@,
        place.height * scale@ >= size.1 > (place.height - 1) * scale@,
        place.anchor.x * scale@ <= slot.x < (place.anchor.x + 1) * scale@,
        place.anchor.y * scale@ <= slot.y < (place.anchor.y + 1) * scale@,
        place.anchor.width >= 1,
        place.anchor.height >= 1,
        place.anchor.width * scale@ >= slot.width,
        place.anchor.height * scale@ >= slot.height,
        slot.width >= 1 ==> (place.anchor.width - 1) * scale@ < slot.width,
        slot.height >= 1 ==> (place.anchor.height - 1) * scale@ < slot.height,
{
    let s = scale@;
    lemma_ceiling(size.0 as int, s);
    lemma_ceiling(size.1 as int, s);
    lemma_ceiling(slot.width as int, s);
    lemma_ceiling(slot.height as int, s);
    lemma_floor(slot.x as int, s);
    lemma_floor(slot.y as int, s);
}

proof fn lemma_ceiling(a: int, s: int)
    requires
        0 <= a <= u32::MAX,
        s >= 1,
    ensures
        0 <= ceiling(a, s) <= a,
        ceiling(a, s) * s >= a > (ceiling(a, s) - 1) * s,
        ceiling(a, s) == 0 ==> a == 0,
        1 * s >= 1,
        0 * s == 0,
{
    let c = ceiling(a, s);
    assert(c * s >= a && (c - 1) * s < a && 0 <= c <= a) by (nonlinear_arith)
        requires
            c == (a + s - 1) / s,
            s >= 1,
            a >= 0,
    ;
}

proof fn lemma_floor(a: int, s: int)
    requires
        0 <= a <= u32::MAX,
        s >= 1,
    ensures
        0 <= a / s <= a,
        (a / s) * s <= a < (a / s + 1) * s,
{
    let q = a / s;
    assert(q * s <= a && a < (q + 1) * s && 0 <= q <= a) by (nonlinear_arith)
        requires
            q == a / s,
            s >= 1,
            a >= 0,
    ;
}

/// A row can be activated exactly when it is enabled, is no separator and holds no others,
/// and is 8 pixels tall as a separator and 28 otherwise.
pub proof fn lemma_a_row_is_what_it_can_do(row: MenuRow, active: bool, height: u32)
    requires
        call_ensures(MenuRow::activatable, (&row,), active),
        call_ensures(MenuRow::height, (&row,), height),
    ensures
        active <==> row.enabled && !row.separator && !row.has_children,
        row.separator ==> height == 8,
        !row.separator ==> height == 28,
{
}

/// A menu is painted at its own size times the scale of its output.
pub proof fn lemma_a_menu_is_painted_at_its_scale(menu: OpenMenu, size: (u32, u32))
    requires
        call_ensures(OpenMenu::physical_size, (&menu,), size),
        menu.scale@ >= 1,
        menu.width * menu.scale@ <= u32::MAX,
        menu.height * menu.scale@ <= u32::MAX,
    ensures
        size.0 == menu.width * menu.scale@,
        size.1 == menu.height * menu.scale@,
{
    let s = menu.scale@;
    assert(menu.width * s >= 0 && menu.height * s >= 0) by (nonlinear_arith)
        requires
            menu.width >= 0,
            menu.height >= 0,
            s >= 1,
    ;
}

} // verus!
