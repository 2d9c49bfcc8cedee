//! The row of a bar: where the pieces of its widgets stand, what is under the
//! pointer, and what has to be painted anew.

use crate::config::WidgetKind;
use crate::face::{self, Glyph, Piece, PieceView};
use crate::fixed;
use crate::message::Msg;
use crate::render::{self, Bounds};
use crate::surface::Damage;
use crate::text;
use crate::widget::{
    ClickButton, Command, Dashboard, Notifications, ScrollDirection, StateColors, Widget,
};
use vstd::prelude::*;

verus! {

/// A part of a bar.
#[derive(Debug, Clone, Copy, PartialEq, Eq, Structural)]
pub enum Zone {
    /// What is packed against the left edge.
    Left,
    /// What stands in the middle.
    Center,
    /// What is packed against the right edge.
    Right,
}

/// A length in logical pixels, in device pixels.
pub fn scaled(length: u32, scale: u32) -> (physical: u32)
    ensures
        physical == fixed::pin(length * scale),
{
    assert(0 <= length * scale <= 0xFFFF_FFFF * 0xFFFF_FFFF) by (nonlinear_arith)
        requires
            0 <= length <= 0xFFFF_FFFF,
            0 <= scale <= 0xFFFF_FFFF,
    ;
    fixed::pinned(length as u128 * scale as u128)
}

/// How wide a piece is: its content, with the padding on both sides.
pub fn piece_width(content: u32, padding: u32) -> (width: u32)
    ensures
        width == fixed::pin(content + 2 * padding),
{
    fixed::pinned(content as u128 + 2 * padding as u128)
}

/// The room that some pieces take up, with a gap behind each.
pub open spec fn run(widths: Seq<u32>, gap: int) -> int
    decreases widths.len(),
{
    if widths.len() == 0 {
        0
    } else {
        run(widths.drop_last(), gap) + widths.last() + gap
    }
}

/// The room that some pieces take up, with a gap between each two.
pub open spec fn room(widths: Seq<u32>, gap: int) -> int {
    if widths.len() == 0 {
        0
    } else {
        run(widths, gap) - gap
    }
}

/// Where the first piece of a zone stands, in a bar of this width whose row is set in
/// by a margin, if the pieces take up `taken`.
pub open spec fn start_of(zone: Zone, width: int, margin: int, taken: int) -> int {
    match zone {
        Zone::Left => margin,
        Zone::Center => if taken >= width {
            0
        } else {
            (width - taken) / 2
        },
        Zone::Right => if taken + margin >= width {
            0
        } else {
            width - taken - margin
        },
    }
}

/// Where the piece `i` of a zone stands.
pub open spec fn stands_at(
    zone: Zone,
    widths: Seq<u32>,
    gap: u32,
    margin: u32,
    width: u32,
    i: int,
) -> u32 {
    fixed::pin(
        start_of(zone, width as int, margin as int, room(widths, gap as int)) + run(
            widths.take(i),
            gap as int,
        ),
    )
}

/// The height of a row in a bar of this height that is set in by a margin.
pub open spec fn row_height(height: u32, margin: u32) -> u32 {
    if 2 * margin >= height {
        0
    } else {
        (height - 2 * margin) as u32
    }
}

fn measure(widths: &Vec<u32>, gap: u32) -> (taken: u128)
    ensures
        taken == room(widths@, gap as int),
        taken <= widths@.len() * 0x1_FFFF_FFFE,
{
    let mut taken: u128 = 0;
    let mut i: usize = 0;
    while i < widths.len()
        invariant
            i <= widths@.len(),
            taken == run(widths@.take(i as int), gap as int),
            i == 0 ==> taken == 0,
            i > 0 ==> taken >= gap,
            taken <= i * 0x1_FFFF_FFFE,
        decreases widths@.len() - i,
    {
        assert(widths@.take(i + 1).drop_last() =~= widths@.take(i as int));
        taken += widths[i] as u128 + gap as u128;
        i += 1;
    }
    assert(widths@.take(i as int) =~= widths@);
    if i == 0 {
        0
    } else {
        taken - gap as u128
    }
}

/// Where the pieces of a zone stand, given how wide each of them is, in a bar of this
/// size.
pub fn place_zone(
    zone: Zone,
    widths: &Vec<u32>,
    gap: u32,
    margin: u32,
    width: u32,
    height: u32,
) -> (places: Vec<Bounds>)
    ensures
        places@ == Seq::new(
            widths@.len(),
            |i: int|
                Bounds {
                    x: stands_at(zone, widths@, gap, margin, width, i),
                    y: margin,
                    width: widths@[i],
                    height: row_height(height, margin),
                },
        ),
{
    let taken: u128 = measure(widths, gap);
    let n: usize = widths.len();
    assert(n * 0x1_FFFF_FFFE <= 0xFFFF_FFFF_FFFF_FFFF * 0x1_FFFF_FFFE);
    let wide: u128 = width as u128;
    let start: u128 = match zone {
        Zone::Left => margin as u128,
        Zone::Center => if taken >= wide {
            0
        } else {
            (wide - taken) / 2
        },
        Zone::Right => if taken + margin as u128 >= wide {
            0
        } else {
            wide - taken - margin as u128
        },
    };
    let tall: u32 = if 2 * margin as u64 >= height as u64 {
        0
    } else {
        height - 2 * margin
    };
    let mut places: Vec<Bounds> = Vec::new();
    let mut x: u128 = start;
    let mut i: usize = 0;
    assert(widths@.take(0) =~= seq![]);
    while i < widths.len()
        invariant
            i <= widths@.len(),
            start <= 0xFFFF_FFFF,
            start == start_of(zone, width as int, margin as int, room(widths@, gap as int)),
            tall == row_height(height, margin),
            x == start + run(widths@.take(i as int), gap as int),
            x <= 0xFFFF_FFFF + i * 0x1_FFFF_FFFE,
            places@.len() == i,
            forall|k: int|
                0 <= k < i ==> (#[trigger] places@[k]) == (Bounds {
                    x: stands_at(zone, widths@, gap, margin, width, k),
                    y: margin,
                    width: widths@[k],
                    height: row_height(height, margin),
                }),
        decreases widths@.len() - i,
    {
        assert(widths@.take(i + 1).drop_last() =~= widths@.take(i as int));
        places.push(Bounds::new(fixed::pinned(x), margin, widths[i], tall));
        x += widths[i] as u128 + gap as u128;
        i += 1;
    }
    assert(places@ =~= Seq::new(
        widths@.len(),
        |i: int|
            Bounds {
                x: stands_at(zone, widths@, gap, margin, width, i),
                y: margin,
                width: widths@[i],
                height: row_height(height, margin),
            },
    ));
    places
}

proof fn lemma_run_grows(widths: Seq<u32>, gap: int, i: int, j: int)
    requires
        0 <= i < j <= widths.len(),
        gap >= 0,
    ensures
        run(widths.take(i), gap) >= 0,
        run(widths.take(i), gap) + widths[i] + gap <= run(widths.take(j), gap),
    decreases j,
{
    assert(widths.take(j).drop_last() =~= widths.take(j - 1));
    lemma_run_is_positive(widths.take(i), gap);
    if i < j - 1 {
        lemma_run_grows(widths, gap, i, j - 1);
    }
}

proof fn lemma_run_is_positive(widths: Seq<u32>, gap: int)
    requires
        gap >= 0,
    ensures
        run(widths, gap) >= 0,
    decreases widths.len(),
{
    if widths.len() > 0 {
        lemma_run_is_positive(widths.drop_last(), gap);
    }
}

/// The pieces of a zone stand side by side, with the gap between each two, as long as
/// the row is no longer than the coordinates reach.
pub proof fn lemma_pieces_do_not_overlap(
    zone: Zone,
    widths: Seq<u32>,
    gap: u32,
    margin: u32,
    width: u32,
    i: int,
    j: int,
)
    requires
        0 <= i < j < widths.len(),
        start_of(zone, width as int, margin as int, room(widths, gap as int)) + run(
            widths,
            gap as int,
        ) <= u32::MAX,
    ensures
        stands_at(zone, widths, gap, margin, width, i) + widths[i] + gap <= stands_at(
            zone,
            widths,
            gap,
            margin,
            width,
            j,
        ),
{
    let g = gap as int;
    lemma_run_grows(widths, g, i, j);
    lemma_run_grows(widths, g, j, widths.len() as int);
    assert(widths.take(widths.len() as int) =~= widths);
    lemma_run_is_positive(widths.take(i), g);
    lemma_run_is_positive(widths.take(j), g);
}

/// A middle that fits has the same room on both sides, or a pixel more on the right;
/// a right zone that fits ends at the margin.
pub proof fn lemma_zones_keep_to_their_side(width: int, margin: int, taken: int)
    requires
        0 <= taken,
        0 <= margin,
    ensures
        taken <= width ==> {
            let left = start_of(Zone::Center, width, margin, taken);
            let right = width - taken - left;
            left <= right <= left + 1
        },
        taken + margin <= width ==> start_of(Zone::Right, width, margin, taken) + taken == width
            - margin,
        start_of(Zone::Left, width, margin, taken) == margin,
{
}

/// A piece, and where it stands.
#[derive(Debug, PartialEq, Eq)]
pub struct Slot {
    /// Where it stands.
    pub bounds: Bounds,
    /// The piece.
    pub piece: Piece,
}

impl Slot {
    /// Whether a click does something.
    pub fn clickable(&self) -> (clickable: bool)
        ensures
            clickable == (self.piece.left is Some || self.piece.right is Some),
    {
        self.piece.left.is_some() || self.piece.right.is_some()
    }

    /// What a click asks for.
    pub fn on_click(&self, button: ClickButton) -> (command: Option<&Command>)
        ensures
            match command {
                Some(command) => Some(*command) == match button {
                    ClickButton::Left => self.piece.left,
                    ClickButton::Right => self.piece.right,
                },
                None => match button {
                    ClickButton::Left => self.piece.left is None,
                    ClickButton::Right => self.piece.right is None,
                },
            },
    {
        match button {
            ClickButton::Left => self.piece.left.as_ref(),
            ClickButton::Right => self.piece.right.as_ref(),
        }
    }

    /// What a step of scrolling asks for.
    pub fn on_scroll(&self, direction: ScrollDirection) -> (command: Option<&Command>)
        ensures
            match command {
                Some(command) => Some(*command) == match direction {
                    ScrollDirection::Increase => self.piece.increase,
                    ScrollDirection::Decrease => self.piece.decrease,
                },
                None => match direction {
                    ScrollDirection::Increase => self.piece.increase is None,
                    ScrollDirection::Decrease => self.piece.decrease is None,
                },
            },
    {
        match direction {
            ScrollDirection::Increase => self.piece.increase.as_ref(),
            ScrollDirection::Decrease => self.piece.decrease.as_ref(),
        }
    }
}

/// Find the first slot that claims a pixel.
pub fn slot_at(slots: &Vec<Slot>, x: u32, y: u32) -> (place: Option<usize>)
    ensures
        match place {
            Some(i) => {
                &&& i < slots@.len()
                &&& slots@[i as int].bounds.claims(x as int, y as int)
                &&& forall|j: int|
                    0 <= j < i ==> !(#[trigger] slots@[j]).bounds.claims(x as int, y as int)
            },
            None => forall|j: int|
                0 <= j < slots@.len() ==> !(#[trigger] slots@[j]).bounds.claims(
                    x as int,
                    y as int,
                ),
        },
{
    let mut i: usize = 0;
    while i < slots.len()
        invariant
            i <= slots@.len(),
            forall|j: int|
                0 <= j < i ==> !(#[trigger] slots@[j]).bounds.claims(x as int, y as int),
        decreases slots@.len() - i,
    {
        if slots[i].bounds.contains(x, y) {
            return Some(i);
        }
        i += 1;
    }
    None
}

/// What is to be seen of a piece.
#[verifier::ext_equal]
pub struct Look {
    /// The text before the glyph.
    pub lead: Seq<char>,
    /// The glyph.
    pub glyph: face::GlyphView,
    /// The text behind the glyph.
    pub tail: Seq<char>,
    /// Whether the glyph has a dot in its corner.
    pub dot: bool,
    /// The colors.
    pub colors: StateColors,
}

/// What is to be seen of a piece.
pub open spec fn look_of(piece: PieceView) -> Look {
    Look {
        lead: piece.lead,
        glyph: piece.glyph,
        tail: piece.tail,
        dot: piece.dot,
        colors: piece.colors,
    }
}

/// What is to be seen of each piece.
pub open spec fn looks(pieces: Seq<PieceView>) -> Seq<Look> {
    pieces.map_values(|p: PieceView| look_of(p))
}

fn same_color(a: (u8, u8, u8, u8), b: (u8, u8, u8, u8)) -> (equal: bool)
    ensures
        equal == (a == b),
{
    a.0 == b.0 && a.1 == b.1 && a.2 == b.2 && a.3 == b.3
}

fn same_paint(a: Option<(u8, u8, u8, u8)>, b: Option<(u8, u8, u8, u8)>) -> (equal: bool)
    ensures
        equal == (a == b),
{
    match (a, b) {
        (Some(a), Some(b)) => same_color(a, b),
        (None, None) => true,
        _ => false,
    }
}

fn same_glyph(a: &Glyph, b: &Glyph) -> (equal: bool)
    ensures
        equal == (a@ == b@),
{
    match (a, b) {
        (Glyph::Hidden, Glyph::Hidden) => true,
        (Glyph::Art(a), Glyph::Art(b)) => *a == *b,
        (Glyph::Word(a), Glyph::Word(b)) => text::same(a.as_str(), b.as_str()),
        (Glyph::Item(a), Glyph::Item(b)) => *a == *b,
        _ => false,
    }
}

/// Whether two pieces look the same.
pub fn same_look(a: &Piece, b: &Piece) -> (equal: bool)
    ensures
        equal == (look_of(a@) == look_of(b@)),
{
    text::same(a.lead.as_str(), b.lead.as_str()) && same_glyph(&a.glyph, &b.glyph) && text::same(
        a.tail.as_str(),
        b.tail.as_str(),
    ) && a.dot == b.dot && same_paint(a.colors.background, b.colors.background) && same_color(
        a.colors.foreground,
        b.colors.foreground,
    ) && same_paint(a.colors.border, b.colors.border)
}

/// The pieces of some widgets, in order.
pub open spec fn zone_faces(widgets: Seq<Widget>, news: Seq<&Msg>) -> Seq<PieceView>
    decreases widgets.len(),
{
    if widgets.len() == 0 {
        seq![]
    } else {
        zone_faces(widgets.drop_last(), news) + face::face_of(widgets.last(), news)
    }
}

/// The pieces of some widgets, in order.
pub fn zone_pieces(widgets: &Vec<Widget>, news: &[&Msg]) -> (pieces: Vec<Piece>)
    ensures
        face::piece_views(pieces@) == zone_faces(widgets@, news@),
{
    let mut pieces: Vec<Piece> = Vec::new();
    let mut i: usize = 0;
    assert(face::piece_views(pieces@) =~= seq![]);
    while i < widgets.len()
        invariant
            i <= widgets@.len(),
            face::piece_views(pieces@) == zone_faces(widgets@.take(i as int), news@),
        decreases widgets@.len() - i,
    {
        assert(widgets@.take(i + 1).drop_last() =~= widgets@.take(i as int));
        let ghost before = pieces@;
        let mut more: Vec<Piece> = face::face(&widgets[i], news);
        let ghost shown = more@;
        pieces.append(&mut more);
        assert(face::piece_views(pieces@) =~= face::piece_views(before) + face::piece_views(shown));
        i += 1;
    }
    assert(widgets@.take(i as int) =~= widgets@);
    pieces
}

fn same_looks(a: &Vec<Piece>, b: &Vec<Piece>) -> (equal: bool)
    ensures
        equal == (looks(face::piece_views(a@)) == looks(face::piece_views(b@))),
{
    let ghost of_a = looks(face::piece_views(a@));
    let ghost of_b = looks(face::piece_views(b@));
    if a.len() != b.len() {
        assert(of_a.len() != of_b.len());
        return false;
    }
    let mut i: usize = 0;
    while i < a.len()
        invariant
            i <= a@.len() == b@.len(),
            of_a == looks(face::piece_views(a@)),
            of_b == looks(face::piece_views(b@)),
            forall|k: int| 0 <= k < i ==> #[trigger] of_a[k] == of_b[k],
        decreases a@.len() - i,
    {
        assert(of_a[i as int] == look_of(a@[i as int]@));
        assert(of_b[i as int] == look_of(b@[i as int]@));
        if !same_look(&a[i], &b[i]) {
            return false;
        }
        i += 1;
    }
    assert(of_a =~= of_b);
    true
}

/// Whether some widgets look different with other news.
pub open spec fn zone_changes(widgets: Seq<Widget>, before: Seq<&Msg>, after: Seq<&Msg>) -> bool {
    looks(zone_faces(widgets, before)) != looks(zone_faces(widgets, after))
}

fn zone_differs(widgets: &Vec<Widget>, before: &[&Msg], after: &[&Msg]) -> (differs: bool)
    ensures
        differs == zone_changes(widgets@, before@, after@),
{
    !same_looks(&zone_pieces(widgets, before), &zone_pieces(widgets, after))
}

/// Whether the tray is among some widgets.
pub open spec fn has_tray(widgets: Seq<Widget>) -> bool {
    exists|i: int| 0 <= i < widgets.len() && (#[trigger] widgets[i]).kind == WidgetKind::Tray
}

fn shows_tray(widgets: &Vec<Widget>) -> (shown: bool)
    ensures
        shown == has_tray(widgets@),
{
    let mut i: usize = 0;
    while i < widgets.len()
        invariant
            i <= widgets@.len(),
            forall|k: int| 0 <= k < i ==> (#[trigger] widgets@[k]).kind != WidgetKind::Tray,
        decreases widgets@.len() - i,
    {
        if widgets[i].kind == WidgetKind::Tray {
            return true;
        }
        i += 1;
    }
    false
}

/// Whether news has to be painted in a zone: something looks different, or it is the
/// tray, whose icons may differ where their places do not.
pub open spec fn zone_shows(
    widgets: Seq<Widget>,
    before: Seq<&Msg>,
    after: Seq<&Msg>,
    msg: Msg,
) -> bool {
    zone_changes(widgets, before, after) || (msg is Tray && has_tray(widgets))
}

fn zone_is_affected(
    widgets: &Vec<Widget>,
    before: &[&Msg],
    after: &[&Msg],
    msg: &Msg,
) -> (affected: bool)
    ensures
        affected == zone_shows(widgets@, before@, after@, *msg),
{
    let of_tray: bool = match msg {
        Msg::Tray(_) => shows_tray(widgets),
        _ => false,
    };
    of_tray || zone_differs(widgets, before, after)
}

/// Whether a bar has to be painted for `msg`, which made the news `before` the news
/// `after`.
pub fn is_affected(
    dashboard: &Dashboard,
    before: &[&Msg],
    after: &[&Msg],
    msg: &Msg,
) -> (affected: bool)
    ensures
        affected == (zone_shows(dashboard.left@, before@, after@, *msg) || zone_shows(
            dashboard.center@,
            before@,
            after@,
            *msg,
        ) || zone_shows(dashboard.right@, before@, after@, *msg)),
{
    zone_is_affected(&dashboard.left, before, after, msg) || zone_is_affected(
        &dashboard.center,
        before,
        after,
        msg,
    ) || zone_is_affected(&dashboard.right, before, after, msg)
}

/// News that a widget shows nothing of changes nothing on it.
pub proof fn lemma_other_news_changes_nothing(widget: Widget, news: Seq<&Msg>, msg: &Msg)
    requires
        face::subject_of(widget) != Some(msg.subject()),
    ensures
        face::face_of(widget, news.push(msg)) == face::face_of(widget, news),
{
    assert(news.push(msg).drop_last() =~= news);
}

/// The smallest rectangle that covers `b`, and `a` if there is one.
pub open spec fn covering(a: Option<Bounds>, b: Bounds) -> Bounds {
    match a {
        None => b,
        Some(a) => {
            let x = render::least(a.x as int, b.x as int);
            let y = render::least(a.y as int, b.y as int);
            Bounds {
                x: x as u32,
                y: y as u32,
                width: (render::greatest(a.x + a.width, b.x + b.width) - x) as u32,
                height: (render::greatest(a.y + a.height, b.y + b.height) - y) as u32,
            }
        },
    }
}

/// Whether a slot lies within what coordinates can tell.
pub open spec fn is_on_grid(bounds: Bounds) -> bool {
    bounds.x + bounds.width <= u32::MAX && bounds.y + bounds.height <= u32::MAX
}

/// Whether a slot is to be painted anew.
pub open spec fn slot_changes(before: Slot, after: Slot) -> bool {
    before.bounds != after.bounds || look_of(before.piece@) != look_of(after.piece@)
}

/// The smallest rectangle that covers the slots that are to be painted anew, where
/// they were and where they are.
pub open spec fn changed_part(before: Seq<Slot>, after: Seq<Slot>) -> Option<Bounds>
    decreases before.len(),
{
    if before.len() == 0 || before.len() != after.len() {
        None
    } else {
        let rest = changed_part(before.drop_last(), after.drop_last());
        if slot_changes(before.last(), after.last()) {
            Some(covering(Some(covering(rest, before.last().bounds)), after.last().bounds))
        } else {
            rest
        }
    }
}

/// Whether the slots to be painted anew all lie within what coordinates can tell.
pub open spec fn are_on_grid(before: Seq<Slot>, after: Seq<Slot>) -> bool {
    forall|i: int|
        0 <= i < before.len() && slot_changes(#[trigger] before[i], after[i]) ==> is_on_grid(
            before[i].bounds,
        ) && is_on_grid(after[i].bounds)
}

/// The part of the frame that changes when the slots of a row do: all of it when
/// there are more or fewer of them.
pub fn changed_region(before: &Vec<Slot>, after: &Vec<Slot>) -> (damage: Damage)
    ensures
        damage == if before@.len() != after@.len() || !are_on_grid(before@, after@) {
            Damage::Full
        } else {
            match changed_part(before@, after@) {
                Some(part) => Damage::Region(part),
                None => Damage::Full,
            }
        },
{
    if before.len() != after.len() {
        return Damage::Full;
    }
    let mut hull: Option<Bounds> = None;
    let mut i: usize = 0;
    while i < before.len()
        invariant
            i <= before@.len() == after@.len(),
            hull == changed_part(before@.take(i as int), after@.take(i as int)),
            hull matches Some(part) ==> is_on_grid(part),
            are_on_grid(before@.take(i as int), after@.take(i as int)),
        decreases before@.len() - i,
    {
        let ghost b = before@.take(i + 1);
        let ghost a = after@.take(i + 1);
        assert(b.drop_last() =~= before@.take(i as int));
        assert(a.drop_last() =~= after@.take(i as int));
        let was: Bounds = before[i].bounds;
        let is: Bounds = after[i].bounds;
        if was != is || !same_look(&before[i].piece, &after[i].piece) {
            if !on_grid(was) || !on_grid(is) {
                assert(slot_changes(before@[i as int], after@[i as int]));
                return Damage::Full;
            }
            hull = Some(cover(Some(cover(hull, was)), is));
        }
        assert(are_on_grid(b, a)) by {
            assert forall|k: int| 0 <= k < b.len() && slot_changes(#[trigger] b[k], a[k]) implies
                is_on_grid(b[k].bounds) && is_on_grid(a[k].bounds) by {
                if k < i {
                    assert(before@.take(i as int)[k] == b[k]);
                }
            }
        }
        i += 1;
    }
    assert(before@.take(i as int) =~= before@);
    assert(after@.take(i as int) =~= after@);
    match hull {
        Some(part) => Damage::Region(part),
        None => Damage::Full,
    }
}

fn on_grid(bounds: Bounds) -> (inside: bool)
    ensures
        inside == is_on_grid(bounds),
{
    bounds.width <= u32::MAX - bounds.x && bounds.height <= u32::MAX - bounds.y
}

fn cover(a: Option<Bounds>, b: Bounds) -> (hull: Bounds)
    requires
        a matches Some(a) ==> is_on_grid(a),
        is_on_grid(b),
    ensures
        hull == covering(a, b),
        is_on_grid(hull),
{
    match a {
        Some(a) => a.union(&b),
        None => b,
    }
}

/// The part that is painted anew covers every slot that changes, where it was and
/// where it is.
pub proof fn lemma_changed_slots_are_covered(before: Seq<Slot>, after: Seq<Slot>, i: int)
    requires
        before.len() == after.len(),
        are_on_grid(before, after),
        0 <= i < before.len(),
        slot_changes(before[i], after[i]),
    ensures
        changed_part(before, after) matches Some(part) && is_on_grid(part) && covers(
            part,
            before[i].bounds,
        ) && covers(part, after[i].bounds),
    decreases before.len(),
{
    let b = before.drop_last();
    let a = after.drop_last();
    lemma_part_is_on_grid(before, after);
    lemma_part_is_on_grid(b, a);
    assert(are_on_grid(b, a)) by {
        assert forall|k: int| 0 <= k < b.len() && slot_changes(#[trigger] b[k], a[k]) implies
            is_on_grid(b[k].bounds) && is_on_grid(a[k].bounds) by {
            assert(before[k] == b[k]);
        }
    }
    if i < b.len() {
        assert(b[i] == before[i] && a[i] == after[i]);
        lemma_changed_slots_are_covered(b, a, i);
    }
}

/// Whether `part` covers `bounds`.
pub open spec fn covers(part: Bounds, bounds: Bounds) -> bool {
    &&& part.x <= bounds.x
    &&& part.y <= bounds.y
    &&& bounds.x + bounds.width <= part.x + part.width
    &&& bounds.y + bounds.height <= part.y + part.height
}

proof fn lemma_part_is_on_grid(before: Seq<Slot>, after: Seq<Slot>)
    requires
        before.len() == after.len(),
        are_on_grid(before, after),
    ensures
        changed_part(before, after) matches Some(part) ==> is_on_grid(part),
    decreases before.len(),
{
    if before.len() > 0 {
        let b = before.drop_last();
        let a = after.drop_last();
        assert forall|k: int| 0 <= k < b.len() && slot_changes(#[trigger] b[k], a[k]) implies
            is_on_grid(b[k].bounds) && is_on_grid(a[k].bounds) by {
            assert(before[k] == b[k]);
        }
        lemma_part_is_on_grid(b, a);
        if slot_changes(before.last(), after.last()) {
            assert(before[before.len() - 1] == before.last());
        }
    }
}

/// Whether two pieces are painted alike: the same texts, glyph, dot and colors.
pub open spec fn are_painted_alike(a: Piece, b: Piece) -> bool {
    &&& a.lead@ == b.lead@
    &&& a.tail@ == b.tail@
    &&& a.dot == b.dot
    &&& a.colors.background == b.colors.background
    &&& a.colors.foreground == b.colors.foreground
    &&& a.colors.border == b.colors.border
    &&& match (a.glyph, b.glyph) {
        (Glyph::Hidden, Glyph::Hidden) => true,
        (Glyph::Art(a), Glyph::Art(b)) => a == b,
        (Glyph::Word(a), Glyph::Word(b)) => a@ == b@,
        (Glyph::Item(a), Glyph::Item(b)) => a == b,
        _ => false,
    }
}

/// Pieces that count as looking the same are painted alike, and only those do.
pub proof fn lemma_what_looks_the_same_is_painted_alike(a: Piece, b: Piece, equal: bool)
    requires
        call_ensures(same_look, (&a, &b), equal),
    ensures
        equal <==> are_painted_alike(a, b),
{
    lemma_look(a, b);
}

proof fn lemma_look(a: Piece, b: Piece)
    ensures
        look_of(a@) == look_of(b@) <==> are_painted_alike(a, b),
{
    if are_painted_alike(a, b) {
        assert(a.glyph@ == b.glyph@);
        assert(a.colors == b.colors);
    }
}

/// How many pieces the first `n` of some widgets show.
spec fn shown_before(widgets: Seq<Widget>, news: Seq<&Msg>, n: int) -> int
    decreases n,
{
    if n <= 0 {
        0
    } else {
        shown_before(widgets, news, n - 1) + face::face_of(widgets[n - 1], news).len()
    }
}

proof fn lemma_zone_faces(widgets: Seq<Widget>, news: Seq<&Msg>, n: int, w: int, k: int)
    requires
        0 <= w < n <= widgets.len(),
        0 <= k < face::face_of(widgets[w], news).len(),
    ensures
        0 <= shown_before(widgets, news, w) + k < shown_before(widgets, news, n),
        zone_faces(widgets.take(n), news).len() == shown_before(widgets, news, n),
        zone_faces(widgets.take(n), news)[shown_before(widgets, news, w) + k] == face::face_of(
            widgets[w],
            news,
        )[k],
    decreases n,
{
    assert(widgets.take(n).drop_last() =~= widgets.take(n - 1));
    assert(widgets.take(n).last() == widgets[n - 1]);
    lemma_zone_len(widgets, news, n - 1);
    if w < n - 1 {
        lemma_zone_faces(widgets, news, n - 1, w, k);
    }
}

proof fn lemma_zone_len(widgets: Seq<Widget>, news: Seq<&Msg>, n: int)
    requires
        0 <= n <= widgets.len(),
    ensures
        0 <= shown_before(widgets, news, n),
        zone_faces(widgets.take(n), news).len() == shown_before(widgets, news, n),
    decreases n,
{
    if n > 0 {
        assert(widgets.take(n).drop_last() =~= widgets.take(n - 1));
        assert(widgets.take(n).last() == widgets[n - 1]);
        lemma_zone_len(widgets, news, n - 1);
    }
}

proof fn lemma_shown_alike(widgets: Seq<Widget>, before: Seq<&Msg>, after: Seq<&Msg>, n: int)
    requires
        0 <= n <= widgets.len(),
        forall|w: int|
            0 <= w < n ==> face::face_of(#[trigger] widgets[w], before).len() == face::face_of(
                widgets[w],
                after,
            ).len(),
    ensures
        shown_before(widgets, before, n) == shown_before(widgets, after, n),
    decreases n,
{
    if n > 0 {
        lemma_shown_alike(widgets, before, after, n - 1);
        assert(face::face_of(widgets[n - 1], before).len() == face::face_of(
            widgets[n - 1],
            after,
        ).len());
    }
}

/// News that changes what is painted of a piece affects the bar: where every widget of a
/// zone shows as many pieces as before, and one of them shows a piece that is painted
/// otherwise, the bar is painted anew.
pub proof fn lemma_a_change_that_shows_is_painted(
    dashboard: &Dashboard,
    before: &[&Msg],
    after: &[&Msg],
    msg: &Msg,
    affected: bool,
    widgets: Seq<Widget>,
    w: int,
    was: Vec<Piece>,
    is: Vec<Piece>,
    k: int,
)
    requires
        call_ensures(is_affected, (dashboard, before, after, msg), affected),
        widgets == dashboard.left@ || widgets == dashboard.center@ || widgets == dashboard.right@,
        forall|v: int|
            0 <= v < widgets.len() ==> face::face_of(#[trigger] widgets[v], before@).len()
                == face::face_of(widgets[v], after@).len(),
        0 <= w < widgets.len(),
        call_ensures(face::face, (&widgets[w], before), was),
        call_ensures(face::face, (&widgets[w], after), is),
        0 <= k < was@.len(),
        0 <= k < is@.len(),
        !are_painted_alike(was@[k], is@[k]),
    ensures
        affected,
{
    let n = widgets.len() as int;
    assert(widgets.take(n) =~= widgets);
    assert(face::piece_views(was@)[k] == was@[k]@);
    assert(face::piece_views(is@)[k] == is@[k]@);
    lemma_zone_faces(widgets, before@, n, w, k);
    lemma_zone_faces(widgets, after@, n, w, k);
    lemma_shown_alike(widgets, before@, after@, w);
    lemma_look(was@[k], is@[k]);
    let at = shown_before(widgets, before@, w) + k;
    let a = looks(zone_faces(widgets, before@));
    let b = looks(zone_faces(widgets, after@));
    assert(a[at] == look_of(was@[k]@));
    assert(b[at] == look_of(is@[k]@));
}

/// When a widget comes to show more or fewer pieces while the others show as many as
/// before, the bar is painted anew.
pub proof fn lemma_a_piece_that_comes_or_goes_is_painted(
    dashboard: &Dashboard,
    before: &[&Msg],
    after: &[&Msg],
    msg: &Msg,
    affected: bool,
    widgets: Seq<Widget>,
    w: int,
)
    requires
        call_ensures(is_affected, (dashboard, before, after, msg), affected),
        widgets == dashboard.left@ || widgets == dashboard.center@ || widgets == dashboard.right@,
        0 <= w < widgets.len(),
        forall|v: int|
            0 <= v < widgets.len() && v != w ==> face::face_of(#[trigger] widgets[v], before@).len()
                == face::face_of(widgets[v], after@).len(),
        face::face_of(widgets[w], before@).len() != face::face_of(widgets[w], after@).len(),
    ensures
        affected,
{
    let n = widgets.len() as int;
    assert(widgets.take(n) =~= widgets);
    lemma_zone_len(widgets, before@, n);
    lemma_zone_len(widgets, after@, n);
    lemma_shown_otherwise(widgets, before@, after@, w, n);
    assert(looks(zone_faces(widgets, before@)).len() != looks(zone_faces(widgets, after@)).len());
}

proof fn lemma_shown_otherwise(
    widgets: Seq<Widget>,
    before: Seq<&Msg>,
    after: Seq<&Msg>,
    w: int,
    n: int,
)
    requires
        0 <= w < n <= widgets.len(),
        forall|v: int|
            0 <= v < widgets.len() && v != w ==> face::face_of(#[trigger] widgets[v], before).len()
                == face::face_of(widgets[v], after).len(),
        face::face_of(widgets[w], before).len() != face::face_of(widgets[w], after).len(),
    ensures
        shown_before(widgets, before, n) != shown_before(widgets, after, n),
        shown_before(widgets, before, n) - shown_before(widgets, after, n) == face::face_of(
            widgets[w],
            before,
        ).len() - face::face_of(widgets[w], after).len(),
    decreases n,
{
    if w < n - 1 {
        lemma_shown_otherwise(widgets, before, after, w, n - 1);
        assert(face::face_of(widgets[n - 1], before).len() == face::face_of(
            widgets[n - 1],
            after,
        ).len());
    } else {
        assert forall|v: int| 0 <= v < w implies face::face_of(#[trigger] widgets[v], before).len()
            == face::face_of(widgets[v], after).len() by {}
        lemma_shown_alike(widgets, before, after, w);
    }
}

/// News on notifications that makes some pending, or leaves none pending, affects every
/// bar with a bell that is to be seen.
pub proof fn lemma_pending_notifications_are_painted(
    dashboard: &Dashboard,
    before: &[&Msg],
    after: &[&Msg],
    msg: &Msg,
    affected: bool,
    widgets: Seq<Widget>,
    w: int,
    i: int,
    was: Notifications,
    is: Notifications,
    old_count: u32,
    new_count: u32,
    old_dnd: bool,
    new_dnd: bool,
    earlier: Vec<Piece>,
    later: Vec<Piece>,
)
    requires
        call_ensures(is_affected, (dashboard, before, after, msg), affected),
        after@ == before@.push(msg),
        *msg == Msg::Notifications(Some(is)),
        widgets == dashboard.left@ || widgets == dashboard.center@ || widgets == dashboard.right@,
        0 <= w < widgets.len(),
        widgets[w].kind == WidgetKind::Notifications,
        !(widgets[w].style.icon is Hidden),
        face::tells(widgets[w], before@, i),
        *before@[i] == Msg::Notifications(Some(was)),
        call_ensures(Notifications::count, (&was,), old_count),
        call_ensures(Notifications::count, (&is,), new_count),
        call_ensures(Notifications::dnd, (&was,), old_dnd),
        call_ensures(Notifications::dnd, (&is,), new_dnd),
        old_count > 0 <==> new_count == 0,
        call_ensures(face::face, (&widgets[w], before), earlier),
        call_ensures(face::face, (&widgets[w], after), later),
    ensures
        affected,
{
    let at = before@.len() as int;
    assert(after@[at] == msg);
    assert(face::tells(widgets[w], after@, at));
    face::lemma_the_bell_tells_what_is_pending(
        widgets[w],
        before,
        earlier,
        i,
        was,
        old_count,
        old_dnd,
    );
    face::lemma_the_bell_tells_what_is_pending(
        widgets[w],
        after,
        later,
        at,
        is,
        new_count,
        new_dnd,
    );
    assert forall|v: int| 0 <= v < widgets.len() implies face::face_of(
        #[trigger] widgets[v],
        before@,
    ).len() == face::face_of(widgets[v], after@).len() by {
        lemma_bells(widgets[v], before@, i, was, msg, is);
    }
    lemma_a_change_that_shows_is_painted(
        dashboard,
        before,
        after,
        msg,
        affected,
        widgets,
        w,
        earlier,
        later,
        0,
    );
}

proof fn lemma_bells(
    widget: Widget,
    before: Seq<&Msg>,
    i: int,
    was: Notifications,
    msg: &Msg,
    is: Notifications,
)
    requires
        *msg == Msg::Notifications(Some(is)),
        0 <= i < before.len(),
        *before[i] == Msg::Notifications(Some(was)),
        forall|j: int| i < j < before.len() ==> !(*(#[trigger] before[j]) is Notifications),
    ensures
        face::face_of(widget, before).len() == face::face_of(widget, before.push(msg)).len(),
{
    face::lemma_about(widget, *msg);
    let after = before.push(msg);
    if widget.kind == WidgetKind::Notifications {
        let at = before.len() as int;
        assert forall|j: int| i < j < before.len() implies !face::is_about(
            widget,
            *(#[trigger] before[j]),
        ) by {}
        assert(face::tells(widget, before, i));
        assert(face::tells(widget, after, at));
        face::lemma_bell_is_one_piece(widget, before, i, was);
        face::lemma_bell_is_one_piece(widget, after, at, is);
    } else {
        lemma_other_news_changes_nothing(widget, before, msg);
    }
}

/// Where nothing that is painted changes, a bar is not painted anew, unless the news is
/// of the tray, whose icons may change in their places.
pub proof fn lemma_what_looks_the_same_is_not_painted(
    dashboard: &Dashboard,
    before: &[&Msg],
    after: &[&Msg],
    msg: &Msg,
    affected: bool,
)
    requires
        call_ensures(is_affected, (dashboard, before, after, msg), affected),
        !(*msg is Tray),
        forall|w: int|
            0 <= w < dashboard.left@.len() ==> face::face_of(#[trigger] dashboard.left@[w], before@)
                == face::face_of(dashboard.left@[w], after@),
        forall|w: int|
            0 <= w < dashboard.center@.len() ==> face::face_of(
                #[trigger] dashboard.center@[w],
                before@,
            ) == face::face_of(dashboard.center@[w], after@),
        forall|w: int|
            0 <= w < dashboard.right@.len() ==> face::face_of(
                #[trigger] dashboard.right@[w],
                before@,
            ) == face::face_of(dashboard.right@[w], after@),
    ensures
        !affected,
{
    lemma_same_zone(dashboard.left@, before@, after@);
    lemma_same_zone(dashboard.center@, before@, after@);
    lemma_same_zone(dashboard.right@, before@, after@);
}

proof fn lemma_same_zone(widgets: Seq<Widget>, before: Seq<&Msg>, after: Seq<&Msg>)
    requires
        forall|w: int|
            0 <= w < widgets.len() ==> face::face_of(#[trigger] widgets[w], before)
                == face::face_of(widgets[w], after),
    ensures
        zone_faces(widgets, before) == zone_faces(widgets, after),
    decreases widgets.len(),
{
    if widgets.len() > 0 {
        let init = widgets.drop_last();
        assert forall|w: int| 0 <= w < init.len() implies face::face_of(#[trigger] init[w], before)
            == face::face_of(init[w], after) by {
            assert(init[w] == widgets[w]);
        }
        lemma_same_zone(init, before, after);
        assert(widgets.last() == widgets[widgets.len() - 1]);
    }
}

/// News of the tray is painted on every bar that has one.
pub proof fn lemma_tray_news_is_painted(
    dashboard: &Dashboard,
    before: &[&Msg],
    after: &[&Msg],
    msg: &Msg,
    affected: bool,
    widgets: Seq<Widget>,
    w: int,
)
    requires
        call_ensures(is_affected, (dashboard, before, after, msg), affected),
        *msg is Tray,
        widgets == dashboard.left@ || widgets == dashboard.center@ || widgets == dashboard.right@,
        0 <= w < widgets.len(),
        widgets[w].kind == WidgetKind::Tray,
    ensures
        affected,
{
}

/// A click asks for what its own button asks for, and a step of scrolling for what its
/// own direction does.
pub proof fn lemma_each_button_and_step_has_its_own_command(
    slot: Slot,
    left: Option<&Command>,
    right: Option<&Command>,
    more: Option<&Command>,
    less: Option<&Command>,
    clickable: bool,
)
    requires
        call_ensures(Slot::on_click, (&slot, ClickButton::Left), left),
        call_ensures(Slot::on_click, (&slot, ClickButton::Right), right),
        call_ensures(Slot::on_scroll, (&slot, ScrollDirection::Increase), more),
        call_ensures(Slot::on_scroll, (&slot, ScrollDirection::Decrease), less),
        call_ensures(Slot::clickable, (&slot,), clickable),
    ensures
        left is Some == slot.piece.left is Some && (left is Some ==> *left->0 == slot.piece.left->0),
        right is Some == slot.piece.right is Some && (right is Some ==> *right->0
            == slot.piece.right->0),
        more is Some == slot.piece.increase is Some && (more is Some ==> *more->0
            == slot.piece.increase->0),
        less is Some == slot.piece.decrease is Some && (less is Some ==> *less->0
            == slot.piece.decrease->0),
        clickable <==> left is Some || right is Some,
{
}

/// A pixel belongs to the slot whose bounds hold it, and to none where no bounds do.
pub proof fn lemma_a_pixel_belongs_to_the_slot_around_it(
    slots: Vec<Slot>,
    x: u32,
    y: u32,
    place: Option<usize>,
)
    requires
        call_ensures(slot_at, (&slots, x, y), place),
    ensures
        match place {
            Some(i) => {
                let bounds = slots@[i as int].bounds;
                &&& i < slots@.len()
                &&& bounds.x <= x < bounds.x + bounds.width
                &&& bounds.y <= y < bounds.y + bounds.height
            },
            None => forall|j: int|
                0 <= j < slots@.len() ==> {
                    let bounds = (#[trigger] slots@[j]).bounds;
                    x < bounds.x || bounds.x + bounds.width <= x || y < bounds.y || bounds.y
                        + bounds.height <= y
                },
        },
{
}

/// Pieces of a zone stand side by side with just the gap between them, each as wide as it
/// is, below the margin and above the one at the bottom. A left zone begins at the margin,
/// a right one ends at it, and a middle one has the same room on both sides, but for a
/// pixel.
pub proof fn lemma_a_zone_is_packed(
    zone: Zone,
    widths: Vec<u32>,
    gap: u32,
    margin: u32,
    width: u32,
    height: u32,
    places: Vec<Bounds>,
    i: int,
)
    requires
        call_ensures(place_zone, (zone, &widths, gap, margin, width, height), places),
        0 <= i < widths@.len(),
        2 * margin <= height,
        margin + run(widths@, gap as int) <= width,
    ensures
        places@.len() == widths@.len(),
        places@[i].y == margin,
        places@[i].height + 2 * margin == height,
        places@[i].width == widths@[i],
        i + 1 < widths@.len() ==> places@[i + 1].x == places@[i].x + places@[i].width + gap,
        ({
            let last = places@[places@.len() - 1];
            let left = places@[0].x;
            let right = width - (last.x + last.width);
            match zone {
                Zone::Left => left == margin,
                Zone::Right => right == margin,
                Zone::Center => left <= right <= left + 1,
            }
        }),
{
    let g = gap as int;
    let n = widths@.len() as int;
    assert(widths@.take(n) =~= widths@);
    assert(widths@.take(0) =~= seq![]);
    assert(widths@.take(n).drop_last() =~= widths@.take(n - 1));
    assert(widths@.take(n).last() == widths@[n - 1]);
    lemma_run_is_positive(widths@.take(n - 1), g);
    lemma_run_is_positive(widths@.take(i), g);
    lemma_run_grows(widths@, g, i, n);
    if i + 1 < n {
        assert(widths@.take(i + 1).drop_last() =~= widths@.take(i));
        assert(widths@.take(i + 1).last() == widths@[i]);
        lemma_run_grows(widths@, g, i + 1, n);
    }
}

/// A piece is as wide as its content and the padding on either side of it, and a length
/// is as many times longer on a scaled output, as far as coordinates reach.
pub proof fn lemma_lengths_add_up(
    content: u32,
    padding: u32,
    width: u32,
    length: u32,
    scale: u32,
    physical: u32,
)
    requires
        call_ensures(piece_width, (content, padding), width),
        call_ensures(scaled, (length, scale), physical),
    ensures
        padding + content + padding <= u32::MAX ==> width == padding + content + padding,
        padding + content + padding > u32::MAX ==> width == u32::MAX,
        length * scale <= u32::MAX ==> physical == length * scale,
        length * scale > u32::MAX ==> physical == u32::MAX,
{
}

/// Every slot that is painted otherwise or stands elsewhere lies in the part that is
/// painted anew, both where it was and where it is.
pub proof fn lemma_every_change_is_painted(
    before: Vec<Slot>,
    after: Vec<Slot>,
    damage: Damage,
    part: Bounds,
    i: int,
)
    requires
        call_ensures(changed_region, (&before, &after), damage),
        damage == Damage::Region(part),
        0 <= i < before@.len(),
        before@[i].bounds != after@[i].bounds || !are_painted_alike(
            before@[i].piece,
            after@[i].piece,
        ),
    ensures
        before@.len() == after@.len(),
        part.x <= before@[i].bounds.x && before@[i].bounds.x + before@[i].bounds.width <= part.x
            + part.width,
        part.y <= before@[i].bounds.y && before@[i].bounds.y + before@[i].bounds.height <= part.y
            + part.height,
        part.x <= after@[i].bounds.x && after@[i].bounds.x + after@[i].bounds.width <= part.x
            + part.width,
        part.y <= after@[i].bounds.y && after@[i].bounds.y + after@[i].bounds.height <= part.y
            + part.height,
{
    lemma_look(before@[i].piece, after@[i].piece);
    lemma_changed_slots_are_covered(before@, after@, i);
}

/// No more is painted anew than has to be: a rectangle that covers every slot that
/// changes, where it was and where it is, covers all that is painted.
pub proof fn lemma_only_changes_are_painted(
    before: Vec<Slot>,
    after: Vec<Slot>,
    damage: Damage,
    part: Bounds,
    other: Bounds,
)
    requires
        call_ensures(changed_region, (&before, &after), damage),
        damage == Damage::Region(part),
        before@.len() == after@.len(),
        forall|i: int|
            0 <= i < before@.len() && ((#[trigger] before@[i]).bounds != after@[i].bounds
                || !are_painted_alike(before@[i].piece, after@[i].piece)) ==> covers(
                other,
                before@[i].bounds,
            ) && covers(other, after@[i].bounds),
    ensures
        other.x <= part.x && part.x + part.width <= other.x + other.width,
        other.y <= part.y && part.y + part.height <= other.y + other.height,
{
    assert forall|i: int| 0 <= i < before@.len() && slot_changes(#[trigger] before@[i], after@[i]) implies covers(
        other,
        before@[i].bounds,
    ) && covers(other, after@[i].bounds) by {
        lemma_look(before@[i].piece, after@[i].piece);
    }
    lemma_part_is_smallest(before@, after@, other);
}

proof fn lemma_part_is_smallest(before: Seq<Slot>, after: Seq<Slot>, other: Bounds)
    requires
        before.len() == after.len(),
        are_on_grid(before, after),
        forall|i: int|
            0 <= i < before.len() && slot_changes(#[trigger] before[i], after[i]) ==> covers(
                other,
                before[i].bounds,
            ) && covers(other, after[i].bounds),
    ensures
        changed_part(before, after) matches Some(part) ==> covers(other, part) && is_on_grid(part),
    decreases before.len(),
{
    if before.len() > 0 {
        let b = before.drop_last();
        let a = after.drop_last();
        assert forall|k: int| 0 <= k < b.len() && slot_changes(#[trigger] b[k], a[k]) implies
            is_on_grid(b[k].bounds) && is_on_grid(a[k].bounds) && covers(other, b[k].bounds)
                && covers(other, a[k].bounds) by {
            assert(before[k] == b[k]);
        }
        lemma_part_is_smallest(b, a, other);
        if slot_changes(before.last(), after.last()) {
            assert(before[before.len() - 1] == before.last());
        }
    }
}

/// When a row gains or loses a piece, all of it is painted anew.
pub proof fn lemma_another_number_of_pieces_is_painted_whole(
    before: Vec<Slot>,
    after: Vec<Slot>,
    damage: Damage,
)
    requires
        call_ensures(changed_region, (&before, &after), damage),
        before@.len() != after@.len(),
    ensures
        damage == Damage::Full,
{
}

/// A zone that does not fit begins at the left edge of the bar, but for the left one, which
/// keeps its margin; a bar that is too low for its margins has no room for its row.
pub proof fn lemma_a_zone_that_does_not_fit_begins_at_the_edge(
    zone: Zone,
    widths: Vec<u32>,
    gap: u32,
    margin: u32,
    width: u32,
    height: u32,
    places: Vec<Bounds>,
)
    requires
        call_ensures(place_zone, (zone, &widths, gap, margin, width, height), places),
        widths@.len() > 0,
    ensures
        places@.len() == widths@.len(),
        zone == Zone::Left ==> places@[0].x == margin,
        zone != Zone::Left && widths@[0] >= width ==> places@[0].x == 0,
        2 * margin >= height ==> places@[0].height == 0,
        places@[0].width == widths@[0],
        places@[0].y == margin,
{
    let n = widths@.len() as int;
    let g = gap as int;
    assert(widths@.take(0) =~= seq![]);
    assert(widths@.take(n) =~= widths@);
    assert(widths@.take(1).drop_last() =~= widths@.take(0));
    assert(widths@.take(1).last() == widths@[0]);
    if n > 1 {
        lemma_run_grows(widths@, g, 0, n);
        lemma_run_grows(widths@, g, 1, n);
    }
}

/// Where slots overlap, a pixel belongs to the first one around it.
pub proof fn lemma_a_pixel_belongs_to_the_first_slot_around_it(
    slots: Vec<Slot>,
    x: u32,
    y: u32,
    place: Option<usize>,
    j: int,
)
    requires
        call_ensures(slot_at, (&slots, x, y), place),
        0 <= j < slots@.len(),
        slots@[j].bounds.x <= x < slots@[j].bounds.x + slots@[j].bounds.width,
        slots@[j].bounds.y <= y < slots@[j].bounds.y + slots@[j].bounds.height,
    ensures
        place is Some,
        place->0 <= j,
{
}

/// A zone shows the pieces of its widgets one widget after the other: those of a last widget
/// come behind the pieces of the others, and nothing else is shown.
pub proof fn lemma_a_zone_shows_its_widgets_in_order(
    widgets: Vec<Widget>,
    others: Vec<Widget>,
    last: Widget,
    news: &[&Msg],
    pieces: Vec<Piece>,
    before: Vec<Piece>,
    own: Vec<Piece>,
    i: int,
)
    requires
        widgets@ == others@.push(last),
        call_ensures(zone_pieces, (&widgets, news), pieces),
        call_ensures(zone_pieces, (&others, news), before),
        call_ensures(face::face, (&last, news), own),
    ensures
        pieces@.len() == before@.len() + own@.len(),
        0 <= i < before@.len() ==> pieces@[i]@ == before@[i]@,
        0 <= i < own@.len() ==> pieces@[before@.len() + i]@ == own@[i]@,
        others@.len() == 0 ==> before@.len() == 0,
{
    let all = face::piece_views(pieces@);
    let first = face::piece_views(before@);
    let rest = face::piece_views(own@);
    assert(widgets@.drop_last() =~= others@);
    assert(all == first + rest);
    assert(all.len() == pieces@.len() && first.len() == before@.len() && rest.len() == own@.len());
    if 0 <= i < before@.len() {
        assert(all[i] == pieces@[i]@ && first[i] == before@[i]@);
    }
    if 0 <= i < own@.len() {
        assert(all[before@.len() + i] == pieces@[before@.len() + i]@ && rest[i] == own@[i]@);
    }
}

} // verus!
