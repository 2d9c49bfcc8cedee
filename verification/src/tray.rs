//! Tray items and their menus, as the bar shows them.

use crate::render::blend;
use crate::text;
use vstd::prelude::*;
use vstd::string::StrSliceExecFns;

verus! {

/// A decoded icon: its size and its pixels, four bytes each in the order red,
/// green, blue, alpha, the colors multiplied by the alpha.
#[derive(Debug, PartialEq, Eq)]
pub struct TrayIcon {
    width: u32,
    height: u32,
    rgba: Vec<u8>,
}

/// The contents of a [`TrayIcon`].
#[verifier::ext_equal]
pub struct TrayIconView {
    /// Width in pixels.
    pub width: u32,
    /// Height in pixels.
    pub height: u32,
    /// The pixels.
    pub rgba: Seq<u8>,
}

impl View for TrayIcon {
    type V = TrayIconView;

    closed spec fn view(&self) -> TrayIconView {
        TrayIconView { width: self.width, height: self.height, rgba: self.rgba@ }
    }
}

/// Whether `len` bytes are exactly the pixels of an image of this size, and there
/// is one.
pub open spec fn is_image(width: int, height: int, len: int) -> bool {
    width > 0 && height > 0 && len == 4 * (width * height)
}

/// Straight pixels in the order alpha, red, green, blue, put in the order red, green,
/// blue, alpha, each color multiplied by the alpha to the nearest step.
pub open spec fn premultiplied(argb: Seq<u8>) -> Seq<u8> {
    Seq::new(
        argb.len(),
        |i: int|
            if i % 4 == 3 {
                argb[i - 3]
            } else {
                blend::rounded_255th(argb[i + 1] * argb[i - i % 4]) as u8
            },
    )
}

/// Whether `len` bytes are exactly the pixels of an image of this size, and there
/// is one.
fn fits(width: u32, height: u32, len: usize) -> (yes: bool)
    ensures
        yes == is_image(width as int, height as int, len as int),
{
    assert(0 <= width * height <= 0xFFFF_FFFF * 0xFFFF_FFFF) by (nonlinear_arith)
        requires
            0 <= width <= 0xFFFF_FFFF,
            0 <= height <= 0xFFFF_FFFF,
    ;
    let pixels: u128 = width as u128 * height as u128;
    width > 0 && height > 0 && len as u128 == 4 * pixels
}

/// Whether no color of a pixel exceeds its alpha.
pub open spec fn is_premultiplied(rgba: Seq<u8>) -> bool {
    forall|i: int| 0 <= i < rgba.len() ==> #[trigger] rgba[i] <= rgba[i - i % 4 + 3]
}

/// The pixels that are decoded of straight ones are premultiplied, and opaque ones keep
/// their colors.
pub proof fn lemma_decoded_pixels_are_premultiplied(argb: Seq<u8>)
    requires
        argb.len() % 4 == 0,
    ensures
        is_premultiplied(premultiplied(argb)),
        forall|i: int|
            0 <= i < argb.len() && i % 4 != 3 && argb[i - i % 4] == 0xFF ==> (
            #[trigger] premultiplied(argb)[i]) == argb[i + 1],
{
    let rgba = premultiplied(argb);
    assert forall|i: int| 0 <= i < rgba.len() implies #[trigger] rgba[i] <= rgba[i - i % 4 + 3] by {
        if i % 4 != 3 {
            let channel = argb[i + 1];
            let alpha = argb[i - i % 4];
            assert(0 <= channel * alpha <= 255 * alpha) by (nonlinear_arith)
                requires
                    0 <= channel <= 255,
                    0 <= alpha,
            ;
        }
    }
}

fn multiplied(channel: u8, alpha: u8) -> (product: u8)
    ensures
        product == blend::rounded_255th(channel * alpha) as u8,
{
    assert(0 <= channel * alpha <= 255 * 255) by (nonlinear_arith)
        requires
            0 <= channel <= 255,
            0 <= alpha <= 255,
    ;
    blend::div255(channel as u32 * alpha as u32) as u8
}

/// The image that PNG data holds: its width, its height and its pixels.
pub uninterp spec fn png_image(bytes: Seq<u8>) -> Option<(u32, u32, Seq<u8>)>;

/// `tiny_skia::Pixmap::decode_png`, and the size and bytes of what it gives: the image
/// of PNG data, and nothing when the data holds none that can be decoded. An image has
/// pixels, four bytes each, and no color of a pixel exceeds its alpha. The memory for
/// the pixels has to be there.
#[verifier::external_body]
fn decoded_png(bytes: &[u8]) -> (image: Option<(u32, u32, Vec<u8>)>)
    ensures
        match image {
            Some((width, height, pixels)) => {
                &&& png_image(bytes@) == Some((width, height, pixels@))
                &&& is_image(width as int, height as int, pixels@.len() as int)
                &&& is_premultiplied(pixels@)
            },
            None => png_image(bytes@) is None,
        },
{
    match tiny_skia::Pixmap::decode_png(bytes) {
        Ok(image) => Some((image.width(), image.height(), image.data().to_vec())),
        Err(_) => None,
    }
}

impl TrayIcon {
    /// Decode PNG data: the icon is the image it holds. Data that holds none gives no
    /// icon.
    pub fn from_png_bytes(bytes: &[u8]) -> (icon: Option<TrayIcon>)
        ensures
            match icon {
                Some(icon) => {
                    &&& png_image(bytes@) == Some((icon@.width, icon@.height, icon@.rgba))
                    &&& is_image(
                        icon@.width as int,
                        icon@.height as int,
                        icon@.rgba.len() as int,
                    )
                    &&& is_premultiplied(icon@.rgba)
                },
                None => png_image(bytes@) is None,
            },
    {
        match decoded_png(bytes) {
            Some((width, height, pixels)) => TrayIcon::from_rgba(width, height, pixels),
            None => None,
        }
    }

    /// Decode straight pixels in the order alpha, red, green, blue. There is no icon
    /// when the size is zero or the number of bytes does not match it.
    pub fn from_argb32(width: u32, height: u32, argb: &[u8]) -> (icon: Option<TrayIcon>)
        ensures
            match icon {
                Some(icon) => is_image(width as int, height as int, argb@.len() as int) && icon@
                    == (TrayIconView { width, height, rgba: premultiplied(argb@) }),
                None => !is_image(width as int, height as int, argb@.len() as int),
            },
    {
        let len: usize = argb.len();
        if !fits(width, height, len) {
            return None;
        }
        let ghost whole = premultiplied(argb@);
        let mut rgba: Vec<u8> = Vec::new();
        let mut i: usize = 0;
        while i < len
            invariant
                len == argb@.len(),
                len % 4 == 0,
                i % 4 == 0,
                i <= len,
                whole == premultiplied(argb@),
                rgba@ == whole.take(i as int),
            decreases len - i,
        {
            let alpha: u8 = argb[i];
            rgba.push(multiplied(argb[i + 1], alpha));
            rgba.push(multiplied(argb[i + 2], alpha));
            rgba.push(multiplied(argb[i + 3], alpha));
            rgba.push(alpha);
            assert(rgba@ =~= whole.take(i + 4));
            i += 4;
        }
        assert(whole.take(i as int) =~= whole);
        Some(TrayIcon { width, height, rgba })
    }

    /// An icon of pixels in the order red, green, blue, alpha, the colors multiplied
    /// by the alpha.
    pub fn from_rgba(width: u32, height: u32, rgba: Vec<u8>) -> (icon: Option<TrayIcon>)
        ensures
            match icon {
                Some(icon) => is_image(width as int, height as int, rgba@.len() as int) && icon@
                    == (TrayIconView { width, height, rgba: rgba@ }),
                None => !is_image(width as int, height as int, rgba@.len() as int),
            },
    {
        if fits(width, height, rgba.len()) {
            Some(TrayIcon { width, height, rgba })
        } else {
            None
        }
    }

    /// Width in pixels.
    pub fn width(&self) -> (width: u32)
        ensures
            width == self@.width,
    {
        self.width
    }

    /// Height in pixels.
    pub fn height(&self) -> (height: u32)
        ensures
            height == self@.height,
    {
        self.height
    }

    /// The pixels, in the order red, green, blue, alpha.
    pub fn rgba(&self) -> (rgba: &[u8])
        ensures
            rgba@ == self@.rgba,
    {
        self.rgba.as_slice()
    }
}

/// Copy bytes.
fn copy_bytes(bytes: &Vec<u8>) -> (copy: Vec<u8>)
    ensures
        copy@ == bytes@,
{
    let mut copy: Vec<u8> = Vec::new();
    let mut i: usize = 0;
    while i < bytes.len()
        invariant
            i <= bytes@.len(),
            copy@ == bytes@.take(i as int),
        decreases bytes@.len() - i,
    {
        copy.push(bytes[i]);
        i += 1;
    }
    copy
}

impl Clone for TrayIcon {
    fn clone(&self) -> (copy: Self)
        ensures
            copy@ == self@,
    {
        TrayIcon { width: self.width, height: self.height, rgba: copy_bytes(&self.rgba) }
    }
}

/// The contents of an optional icon.
pub open spec fn icon_view(icon: Option<TrayIcon>) -> Option<TrayIconView> {
    match icon {
        Some(icon) => Some(icon@),
        None => None,
    }
}

/// How urgent a tray item is.
#[derive(Debug, Clone, Copy, PartialEq, Eq, Structural)]
pub enum TrayStatus {
    /// Of no interest at the moment.
    Passive,
    /// Active.
    Active,
    /// Asks for attention.
    NeedsAttention,
}

impl TrayStatus {
    /// The status a word stands for; an unknown word counts as passive.
    pub open spec fn of_word(word: Seq<char>) -> TrayStatus {
        if word == "Active"@ {
            TrayStatus::Active
        } else if word == "NeedsAttention"@ {
            TrayStatus::NeedsAttention
        } else {
            TrayStatus::Passive
        }
    }

    /// The status a word stands for; an unknown word counts as passive.
    pub fn from_sni(word: &str) -> (status: TrayStatus)
        ensures
            status == TrayStatus::of_word(word@),
    {
        if text::same(word, "Active") {
            TrayStatus::Active
        } else if text::same(word, "NeedsAttention") {
            TrayStatus::NeedsAttention
        } else {
            TrayStatus::Passive
        }
    }
}

/// Whether a tray item has a menu, and which button opens it.
#[derive(Debug, Clone, Copy, PartialEq, Eq, Structural)]
pub enum TrayMenuMode {
    /// It has no menu.
    Absent,
    /// The primary button opens it.
    Primary,
    /// The secondary button opens it.
    Secondary,
}

/// One tray item.
#[derive(Debug, PartialEq, Eq)]
pub struct TrayItem {
    key: String,
    title: String,
    status: TrayStatus,
    icon: Option<TrayIcon>,
    menu: TrayMenuMode,
}

/// The contents of a [`TrayItem`].
#[verifier::ext_equal]
pub struct TrayItemView {
    /// The address the item is registered under.
    pub key: Seq<char>,
    /// The title to show.
    pub title: Seq<char>,
    /// How urgent the item is.
    pub status: TrayStatus,
    /// The icon.
    pub icon: Option<TrayIconView>,
    /// Whether there is a menu, and which button opens it.
    pub menu: TrayMenuMode,
}

impl View for TrayItem {
    type V = TrayItemView;

    closed spec fn view(&self) -> TrayItemView {
        TrayItemView {
            key: self.key@,
            title: self.title@,
            status: self.status,
            icon: icon_view(self.icon),
            menu: self.menu,
        }
    }
}

/// `c` in upper case if it is an ASCII letter.
pub open spec fn raised(c: char) -> char {
    if 'a' <= c <= 'z' {
        (c as u8 - 32) as u8 as char
    } else {
        c
    }
}

impl TrayItemView {
    /// What stands for the item without an icon: the initial of its title, and a
    /// question mark when it has none.
    pub open spec fn initial(self) -> Seq<char> {
        let title = text::trimmed_start(self.title);
        if title.len() == 0 {
            seq!['?']
        } else {
            seq![raised(title[0])]
        }
    }
}

impl TrayItem {
    /// An item without a menu.
    pub fn new(key: &str, title: &str, status: TrayStatus, icon: Option<TrayIcon>) -> (item: Self)
        ensures
            item@ == (TrayItemView {
                key: key@,
                title: title@,
                status,
                icon: icon_view(icon),
                menu: TrayMenuMode::Absent,
            }),
    {
        TrayItem {
            key: key.to_owned(),
            title: title.to_owned(),
            status,
            icon,
            menu: TrayMenuMode::Absent,
        }
    }

    /// The item with a menu, or without one.
    pub fn with_menu(self, menu: TrayMenuMode) -> (item: Self)
        ensures
            item@ == (TrayItemView { menu, ..self@ }),
    {
        TrayItem { key: self.key, title: self.title, status: self.status, icon: self.icon, menu }
    }

    /// The address the item is registered under.
    pub fn key(&self) -> (key: &str)
        ensures
            key@ == self@.key,
    {
        self.key.as_str()
    }

    /// The title to show.
    pub fn title(&self) -> (title: &str)
        ensures
            title@ == self@.title,
    {
        self.title.as_str()
    }

    /// How urgent the item is.
    pub fn status(&self) -> (status: TrayStatus)
        ensures
            status == self@.status,
    {
        self.status
    }

    /// The icon, if there is one.
    pub fn icon(&self) -> (icon: Option<&TrayIcon>)
        ensures
            match icon {
                Some(icon) => self@.icon == Some(icon@),
                None => self@.icon is None,
            },
    {
        match &self.icon {
            Some(icon) => Some(icon),
            None => None,
        }
    }

    /// Whether there is a menu, and which button opens it.
    pub fn menu(&self) -> (menu: TrayMenuMode)
        ensures
            menu == self@.menu,
    {
        self.menu
    }

    /// What stands for the item without an icon: the initial of its title, and a
    /// question mark when it has none.
    pub fn fallback_label(&self) -> (label: String)
        ensures
            label@ == self@.initial(),
    {
        let title: &str = text::trim_start(self.title.as_str());
        let mut label: String = String::new();
        if title.unicode_len() == 0 {
            label.push('?');
        } else {
            label.push(raise(title.get_char(0)));
        }
        assert(label@ =~= self@.initial());
        label
    }
}

/// `c` in upper case if it is an ASCII letter.
fn raise(c: char) -> (upper: char)
    ensures
        upper == raised(c),
{
    if 'a' <= c && c <= 'z' {
        (c as u8 - 32) as char
    } else {
        c
    }
}

impl Clone for TrayItem {
    fn clone(&self) -> (copy: Self)
        ensures
            copy@ == self@,
    {
        TrayItem {
            key: self.key.clone(),
            title: self.title.clone(),
            status: self.status,
            icon: match &self.icon {
                Some(icon) => Some(icon.clone()),
                None => None,
            },
            menu: self.menu,
        }
    }
}

/// The contents of each item.
pub open spec fn item_views(items: Seq<TrayItem>) -> Seq<TrayItemView> {
    items.map_values(|item: TrayItem| item@)
}

/// Whether the items come in the order of their keys, and no key comes twice.
pub open spec fn in_key_order(items: Seq<TrayItemView>) -> bool {
    forall|i: int, j: int|
        0 <= i < j < items.len() ==> text::precedes(
            (#[trigger] items[i]).key,
            (#[trigger] items[j]).key,
        )
}

/// The items of the tray, in the order of their keys.
#[derive(Debug, PartialEq, Eq)]
pub struct TrayState {
    items: Vec<TrayItem>,
}

impl View for TrayState {
    type V = Seq<TrayItemView>;

    closed spec fn view(&self) -> Seq<TrayItemView> {
        item_views(self.items@)
    }
}

/// Whether `kept` are the items of `items` in key order, the first listed one of
/// each key.
pub open spec fn is_tray_of(kept: Seq<TrayItemView>, items: Seq<TrayItemView>) -> bool {
    &&& in_key_order(kept)
    &&& forall|i: int| 0 <= i < kept.len() ==> #[trigger] is_first_of_key(items, kept[i])
    &&& forall|i: int| 0 <= i < items.len() ==> #[trigger] has_item(kept, items[i].key)
}

/// Whether an item is listed under `key`.
pub open spec fn has_item(items: Seq<TrayItemView>, key: Seq<char>) -> bool {
    exists|i: int| 0 <= i < items.len() && (#[trigger] items[i]).key == key
}

/// Whether `item` is the first listed one of its key.
pub open spec fn is_first_of_key(items: Seq<TrayItemView>, item: TrayItemView) -> bool {
    exists|i: int|
        0 <= i < items.len() && #[trigger] items[i] == item && forall|j: int|
            0 <= j < i ==> (#[trigger] items[j]).key != item.key
}

impl TrayState {
    /// The tray of some items: in the order of their keys, the first listed one of
    /// each key.
    pub fn new(items: Vec<TrayItem>) -> (tray: Self)
        ensures
            is_tray_of(tray@, item_views(items@)),
    {
        let ghost given = item_views(items@);
        let mut kept: Vec<TrayItem> = Vec::new();
        let mut n: usize = 0;
        while n < items.len()
            invariant
                given == item_views(items@),
                n <= items@.len(),
                is_tray_of(item_views(kept@), given.take(n as int)),
            decreases items@.len() - n,
        {
            let item: &TrayItem = &items[n];
            let ghost before = item_views(kept@);
            let mut p: usize = 0;
            while p < kept.len() && text::is_before(kept[p].key(), item.key())
                invariant
                    p <= kept@.len(),
                    before == item_views(kept@),
                    forall|j: int|
                        0 <= j < p ==> text::precedes((#[trigger] before[j]).key, item@.key),
                decreases kept@.len() - p,
            {
                assert(before[p as int].key == kept@[p as int]@.key);
                p += 1;
            }
            proof {
                assert(p < kept@.len() ==> before[p as int] == kept@[p as int]@);
            }
            let known: bool = p < kept.len() && text::same(kept[p].key(), item.key());
            proof {
                assert(given[n as int] == item@);
                lemma_tray_grows(before, given, n as int, p as int);
            }
            if !known {
                kept.insert(p, item.clone());
                assert(item_views(kept@) =~= before.insert(p as int, item@));
            }
            n += 1;
        }
        assert(given.take(n as int) =~= given);
        TrayState { items: kept }
    }

    /// The items, in the order of their keys.
    pub fn items(&self) -> (items: &Vec<TrayItem>)
        ensures
            item_views(items@) == self@,
    {
        &self.items
    }
}

/// Taking in one more item keeps the tray in order.
proof fn lemma_tray_grows(kept: Seq<TrayItemView>, given: Seq<TrayItemView>, n: int, p: int)
    requires
        0 <= n < given.len(),
        0 <= p <= kept.len(),
        is_tray_of(kept, given.take(n)),
        forall|j: int| 0 <= j < p ==> text::precedes((#[trigger] kept[j]).key, given[n].key),
        p < kept.len() ==> !text::precedes(kept[p].key, given[n].key),
    ensures
        p < kept.len() && kept[p].key == given[n].key ==> is_tray_of(kept, given.take(n + 1)),
        !(p < kept.len() && kept[p].key == given[n].key) ==> is_tray_of(
            kept.insert(p, given[n]),
            given.take(n + 1),
        ),
{
    let item = given[n];
    let seen = given.take(n);
    let more = given.take(n + 1);
    assert(more =~= seen.push(item));
    assert forall|k: TrayItemView| #[trigger] is_first_of_key(seen, k) implies is_first_of_key(
        more,
        k,
    ) by {
        let i = choose|i: int|
            0 <= i < seen.len() && #[trigger] seen[i] == k && forall|j: int|
                0 <= j < i ==> (#[trigger] seen[j]).key != k.key;
        assert(more[i] == k);
        assert forall|j: int| 0 <= j < i implies (#[trigger] more[j]).key != k.key by {
            assert(more[j] == seen[j]);
        }
    }
    assert forall|i: int| 0 <= i < kept.len() implies #[trigger] is_first_of_key(more, kept[i]) by {
        assert(is_first_of_key(seen, kept[i]));
    }
    if p < kept.len() && kept[p].key == item.key {
        assert forall|i: int| 0 <= i < more.len() implies #[trigger] has_item(kept, more[i].key) by {
            if i < n {
                assert(more[i] == seen[i]);
                assert(has_item(kept, seen[i].key));
            } else {
                assert(kept[p].key == more[i].key);
            }
        }
    } else {
        let after = kept.insert(p, item);
        assert forall|i: int| p <= i < kept.len() implies text::precedes(
            item.key,
            (#[trigger] kept[i]).key,
        ) by {
            text::lemma_precedes_total(item.key, kept[p].key);
            assert(text::precedes(item.key, kept[p].key));
            if p < i {
                assert(text::precedes(kept[p].key, kept[i].key));
                text::lemma_precedes_transitive(item.key, kept[p].key, kept[i].key);
            }
        }
        assert forall|i: int, j: int| 0 <= i < j < after.len() implies text::precedes(
            (#[trigger] after[i]).key,
            (#[trigger] after[j]).key,
        ) by {
            let a = if i < p {
                i
            } else {
                i - 1
            };
            let b = if j < p {
                j
            } else {
                j - 1
            };
            if i != p {
                assert(after[i] == kept[a]);
            }
            if j != p {
                assert(after[j] == kept[b]);
            }
        }
        assert forall|j: int| 0 <= j < seen.len() implies (#[trigger] seen[j]).key != item.key by {
            assert(has_item(kept, seen[j].key));
            let k = choose|k: int| 0 <= k < kept.len() && (#[trigger] kept[k]).key == seen[j].key;
            text::lemma_precedes_irreflexive(item.key);
            if k < p {
                assert(text::precedes(kept[k].key, item.key));
            } else {
                assert(text::precedes(item.key, kept[k].key));
            }
        }
        assert(is_first_of_key(more, item)) by {
            assert(more[n] == item);
            assert forall|j: int| 0 <= j < n implies (#[trigger] more[j]).key != item.key by {
                assert(more[j] == seen[j]);
            }
        }
        assert forall|i: int| 0 <= i < after.len() implies #[trigger] is_first_of_key(
            more,
            after[i],
        ) by {
            if i < p {
                assert(after[i] == kept[i]);
            } else if i > p {
                assert(after[i] == kept[i - 1]);
            }
        }
        assert forall|i: int| 0 <= i < more.len() implies #[trigger] has_item(
            after,
            more[i].key,
        ) by {
            if i < n {
                assert(more[i] == seen[i]);
                assert(has_item(kept, seen[i].key));
                let k = choose|k: int|
                    0 <= k < kept.len() && (#[trigger] kept[k]).key == seen[i].key;
                if k < p {
                    assert(after[k].key == more[i].key);
                } else {
                    assert(after[k + 1].key == more[i].key);
                }
            } else {
                assert(after[p].key == more[i].key);
            }
        }
    }
}

/// The tray of some items does not depend on the order in which they are listed, as
/// long as no two share a key.
pub proof fn lemma_tray_ignores_order(
    a: Seq<TrayItemView>,
    b: Seq<TrayItemView>,
    from_a: Seq<TrayItemView>,
    from_b: Seq<TrayItemView>,
)
    requires
        forall|i: int| 0 <= i < a.len() ==> b.contains(#[trigger] a[i]),
        forall|i: int| 0 <= i < b.len() ==> a.contains(#[trigger] b[i]),
        forall|i: int, j: int|
            0 <= i < j < a.len() ==> (#[trigger] a[i]).key != (#[trigger] a[j]).key,
        is_tray_of(from_a, a),
        is_tray_of(from_b, b),
    ensures
        from_a == from_b,
{
    assert forall|i: int, j: int|
        0 <= i < a.len() && 0 <= j < a.len() && (#[trigger] a[i]).key == (
        #[trigger] a[j]).key implies a[i] == a[j] by {
        if i < j {
            assert(a[i].key != a[j].key);
        } else if j < i {
            assert(a[j].key != a[i].key);
        }
    }
    assert forall|i: int, j: int|
        0 <= i < b.len() && 0 <= j < b.len() && (#[trigger] b[i]).key == (
        #[trigger] b[j]).key implies b[i] == b[j] by {
        assert(a.contains(b[i]) && a.contains(b[j]));
        let k = choose|k: int| 0 <= k < a.len() && a[k] == b[i];
        let l = choose|l: int| 0 <= l < a.len() && a[l] == b[j];
        assert(a[k].key == a[l].key);
    }
    assert forall|x: TrayItemView| #[trigger] from_a.contains(x) == from_b.contains(x) by {
        if from_a.contains(x) {
            lemma_same_member(a, b, from_a, from_b, x);
        }
        if from_b.contains(x) {
            lemma_same_member(b, a, from_b, from_a, x);
        }
    }
    lemma_key_order_is_unique(from_a, from_b);
}

proof fn lemma_same_member(
    a: Seq<TrayItemView>,
    b: Seq<TrayItemView>,
    from_a: Seq<TrayItemView>,
    from_b: Seq<TrayItemView>,
    x: TrayItemView,
)
    requires
        forall|i: int| 0 <= i < a.len() ==> b.contains(#[trigger] a[i]),
        forall|i: int, j: int|
            0 <= i < b.len() && 0 <= j < b.len() && (#[trigger] b[i]).key == (
            #[trigger] b[j]).key ==> b[i] == b[j],
        is_tray_of(from_a, a),
        is_tray_of(from_b, b),
        from_a.contains(x),
    ensures
        from_b.contains(x),
{
    let p = choose|p: int| 0 <= p < from_a.len() && from_a[p] == x;
    assert(is_first_of_key(a, from_a[p]));
    let i = choose|i: int|
        0 <= i < a.len() && #[trigger] a[i] == x && forall|j: int|
            0 <= j < i ==> (#[trigger] a[j]).key != x.key;
    assert(b.contains(a[i]));
    let k = choose|k: int| 0 <= k < b.len() && b[k] == x;
    assert(has_item(from_b, b[k].key));
    let q = choose|q: int| 0 <= q < from_b.len() && (#[trigger] from_b[q]).key == b[k].key;
    assert(is_first_of_key(b, from_b[q]));
    let l = choose|l: int|
        0 <= l < b.len() && #[trigger] b[l] == from_b[q] && forall|j: int|
            0 <= j < l ==> (#[trigger] b[j]).key != from_b[q].key;
    assert(b[l] == b[k]);
    assert(from_b[q] == x);
}

proof fn lemma_key_order_is_unique(a: Seq<TrayItemView>, b: Seq<TrayItemView>)
    requires
        in_key_order(a),
        in_key_order(b),
        forall|x: TrayItemView| #[trigger] a.contains(x) == b.contains(x),
    ensures
        a == b,
    decreases a.len(),
{
    if a.len() == 0 {
        if b.len() > 0 {
            assert(b.contains(b[0]));
            assert(a.contains(b[0]));
        }
        assert(a =~= b);
    } else {
        assert(a.contains(a.last()));
        assert(b.contains(a.last()));
        let p = choose|p: int| 0 <= p < b.len() && b[p] == a.last();
        assert(b.contains(b.last()));
        assert(a.contains(b.last()));
        let q = choose|q: int| 0 <= q < a.len() && a[q] == b.last();
        if p < b.len() - 1 {
            assert(text::precedes(b[p].key, b[b.len() - 1].key));
            if q < a.len() - 1 {
                assert(text::precedes(a[q].key, a[a.len() - 1].key));
                text::lemma_precedes_transitive(a.last().key, b.last().key, a.last().key);
            }
            text::lemma_precedes_irreflexive(a.last().key);
        }
        assert(a.last() == b.last());
        let a_rest = a.drop_last();
        let b_rest = b.drop_last();
        assert forall|x: TrayItemView| #[trigger] a_rest.contains(x) == b_rest.contains(x) by {
            if a_rest.contains(x) {
                let i = choose|i: int| 0 <= i < a_rest.len() && a_rest[i] == x;
                assert(a[i] == x);
                assert(a.contains(x));
                let j = choose|j: int| 0 <= j < b.len() && b[j] == x;
                assert(text::precedes(a[i].key, a[a.len() - 1].key));
                text::lemma_precedes_irreflexive(x.key);
                assert(b[b.len() - 1] == a[a.len() - 1]);
                assert(j < b.len() - 1);
                assert(b_rest[j] == x);
            }
            if b_rest.contains(x) {
                let j = choose|j: int| 0 <= j < b_rest.len() && b_rest[j] == x;
                assert(b[j] == x);
                assert(b.contains(x));
                assert(a.contains(x));
                let i = choose|i: int| 0 <= i < a.len() && a[i] == x;
                assert(text::precedes(b[j].key, b[b.len() - 1].key));
                text::lemma_precedes_irreflexive(x.key);
                assert(b[b.len() - 1] == a[a.len() - 1]);
                assert(i < a.len() - 1);
                assert(a_rest[i] == x);
            }
        }
        lemma_key_order_is_unique(a_rest, b_rest);
        assert(a =~= a_rest.push(a.last()));
        assert(b =~= b_rest.push(b.last()));
    }
}

/// What kind of toggle a menu entry is.
#[derive(Debug, Clone, Copy, PartialEq, Eq, Structural)]
pub enum TrayMenuToggleKind {
    /// One that stands on its own.
    Checkmark,
    /// One of a group.
    Radio,
}

/// How a toggle is set.
#[derive(Debug, Clone, Copy, PartialEq, Eq, Structural)]
pub enum TrayMenuToggleState {
    /// Off.
    Off,
    /// On.
    On,
    /// Neither.
    Indeterminate,
}

/// The toggle of a menu entry.
#[derive(Debug, Clone, Copy, PartialEq, Eq, Structural)]
pub struct TrayMenuToggle {
    /// What kind of toggle it is.
    pub kind: TrayMenuToggleKind,
    /// How it is set.
    pub state: TrayMenuToggleState,
}

/// One entry of a menu, with the entries below it.
#[derive(Debug, PartialEq, Eq)]
pub struct TrayMenuItem {
    /// The id that activates the entry.
    pub id: i32,
    /// The label.
    pub label: String,
    /// Whether the entry can be activated.
    pub enabled: bool,
    /// Whether the entry is shown.
    pub visible: bool,
    /// Whether the entry is a separator.
    pub separator: bool,
    /// The toggle, if the entry is one.
    pub toggle: Option<TrayMenuToggle>,
    /// The entries below this one.
    pub children: Vec<TrayMenuItem>,
}

/// The menu of a tray item.
#[derive(Debug, PartialEq, Eq)]
pub struct TrayMenu {
    /// The address of the item.
    pub key: String,
    /// The revision of the layout.
    pub revision: u32,
    /// The top-level entries.
    pub items: Vec<TrayMenuItem>,
}

/// An icon of straight pixels has their size and their colors: opaque pixels keep theirs,
/// others fade with their alpha, to the nearest step, and each pixel keeps its alpha.
pub proof fn lemma_pixels_keep_their_colors(
    width: u32,
    height: u32,
    argb: &[u8],
    icon: Option<TrayIcon>,
    pixel: int,
    channel: int,
)
    requires
        call_ensures(TrayIcon::from_argb32, (width, height, argb), icon),
        0 <= 4 * pixel,
        4 * pixel + 3 < argb@.len(),
        0 <= channel < 3,
    ensures
        icon is Some <==> width > 0 && height > 0 && argb@.len() == 4 * (width * height),
        icon is Some ==> {
            let rgba = icon->0@.rgba;
            let alpha = argb@[4 * pixel];
            let straight = argb@[4 * pixel + 1 + channel];
            &&& icon->0@.width == width
            &&& icon->0@.height == height
            &&& rgba.len() == argb@.len()
            &&& rgba[4 * pixel + 3] == alpha
            &&& alpha == 255 ==> rgba[4 * pixel + channel] == straight
            &&& alpha == 0 ==> rgba[4 * pixel + channel] == 0
            &&& -255 <= 2 * (255 * rgba[4 * pixel + channel] - straight * alpha) <= 255
        },
{
    if icon is Some {
        let i = 4 * pixel + channel;
        let alpha = argb@[4 * pixel];
        let straight = argb@[4 * pixel + 1 + channel];
        assert(i % 4 == channel && i - i % 4 == 4 * pixel);
        assert((4 * pixel + 3) % 4 == 3);
        assert(0 <= straight * alpha <= 255 * 255) by (nonlinear_arith)
            requires
                0 <= straight <= 255,
                0 <= alpha <= 255,
        ;
        assert(alpha == 255 ==> straight * alpha == 255 * straight) by (nonlinear_arith);
        assert(alpha == 0 ==> straight * alpha == 0) by (nonlinear_arith);
        assert(icon->0@.rgba[i] == blend::rounded_255th(straight * alpha) as u8);
    }
}

/// An icon of given pixels has those and their size.
pub proof fn lemma_an_icon_is_its_pixels(
    width: u32,
    height: u32,
    rgba: Vec<u8>,
    icon: TrayIcon,
    wide: u32,
    tall: u32,
    pixels: &[u8],
)
    requires
        call_ensures(TrayIcon::from_rgba, (width, height, rgba), Some(icon)),
        call_ensures(TrayIcon::width, (&icon,), wide),
        call_ensures(TrayIcon::height, (&icon,), tall),
        call_ensures(TrayIcon::rgba, (&icon,), pixels),
    ensures
        wide == width,
        tall == height,
        pixels@ == rgba@,
        rgba@.len() == 4 * (width * height),
{
}

/// Each word stands for the status of its name, and every other word for no interest.
pub proof fn lemma_words_name_the_status(word: &str, status: TrayStatus)
    requires
        call_ensures(TrayStatus::from_sni, (word,), status),
    ensures
        status == TrayStatus::Active <==> word@ == "Active"@,
        status == TrayStatus::NeedsAttention <==> word@ == "NeedsAttention"@,
{
    reveal_strlit("Active");
    reveal_strlit("NeedsAttention");
    assert("Active"@.len() == 6 && "NeedsAttention"@.len() == 14);
}

/// An item tells what it was made of, and no more than its menu is set by giving it one.
pub proof fn lemma_an_item_tells_what_it_is_made_of(
    key: &str,
    title: &str,
    status: TrayStatus,
    icon: Option<TrayIcon>,
    menu: TrayMenuMode,
    item: TrayItem,
    with: TrayItem,
    told: (&str, &str, TrayStatus, TrayMenuMode),
)
    requires
        call_ensures(TrayItem::new, (key, title, status, icon), item),
        call_ensures(TrayItem::with_menu, (item, menu), with),
        call_ensures(TrayItem::key, (&with,), told.0),
        call_ensures(TrayItem::title, (&with,), told.1),
        call_ensures(TrayItem::status, (&with,), told.2),
        call_ensures(TrayItem::menu, (&with,), told.3),
    ensures
        item@.menu == TrayMenuMode::Absent,
        told.0@ == key@,
        told.1@ == title@,
        told.2 == status,
        told.3 == menu,
        with@.icon is Some <==> icon is Some,
        icon is Some ==> with@.icon == Some(icon->0@),
{
}

/// Without an icon an item shows the first character of its title that is no white space,
/// a letter from a to z as a capital, and a question mark where there is none.
pub proof fn lemma_the_initial_is_a_capital(item: TrayItem, label: String, i: int)
    requires
        call_ensures(TrayItem::fallback_label, (&item,), label),
    ensures
        label@.len() == 1,
        (forall|j: int|
            0 <= j < item@.title.len() ==> text::is_white_space(#[trigger] item@.title[j]))
            ==> label@[0] == '?',
        0 <= i < item@.title.len() && !text::is_white_space(item@.title[i]) && (forall|j: int|
            0 <= j < i ==> text::is_white_space(#[trigger] item@.title[j])) ==> {
            let first = item@.title[i];
            &&& 'a' <= first <= 'z' ==> label@[0] as int == first as int - 32
            &&& !('a' <= first <= 'z') ==> label@[0] == first
        },
{
    let title = item@.title;
    if forall|j: int| 0 <= j < title.len() ==> text::is_white_space(#[trigger] title[j]) {
        lemma_leading(title, title.len() as int);
    }
    if 0 <= i < title.len() && !text::is_white_space(title[i]) && (forall|j: int|
        0 <= j < i ==> text::is_white_space(#[trigger] title[j])) {
        lemma_leading(title, i);
        let first = title[i];
        if 'a' <= first <= 'z' {
            assert(97 <= first as int <= 122);
            assert((first as u8 - 32) as u8 as char as int == first as int - 32);
        }
    }
}

proof fn lemma_leading(title: Seq<char>, i: int)
    requires
        0 <= i <= title.len(),
        forall|j: int| 0 <= j < i ==> text::is_white_space(#[trigger] title[j]),
        i < title.len() ==> !text::is_white_space(title[i]),
    ensures
        text::trimmed_start(title) == title.skip(i),
    decreases i,
{
    if i > 0 {
        assert(text::is_white_space(title[0]));
        let rest = title.skip(1);
        assert forall|j: int| 0 <= j < i - 1 implies text::is_white_space(#[trigger] rest[j]) by {
            assert(rest[j] == title[j + 1]);
        }
        if i < title.len() {
            assert(rest[i - 1] == title[i]);
        }
        lemma_leading(rest, i - 1);
        assert(rest.skip(i - 1) =~= title.skip(i));
    } else {
        assert(title.skip(0) =~= title);
    }
}

/// A tray holds an item for every key it was given, the first one listed under it, and
/// none besides, in the order of their keys.
pub proof fn lemma_a_tray_holds_what_it_was_given(
    items: Vec<TrayItem>,
    tray: TrayState,
    i: int,
    j: int,
)
    requires
        call_ensures(TrayState::new, (items,), tray),
        0 <= i < items@.len(),
        forall|k: int| 0 <= k < i ==> (#[trigger] items@[k])@.key != items@[i]@.key,
        0 <= j < tray@.len(),
    ensures
        tray@.contains(items@[i]@),
        exists|k: int| 0 <= k < items@.len() && (#[trigger] items@[k])@ == tray@[j],
        j > 0 ==> text::precedes(tray@[j - 1].key, tray@[j].key),
{
    let given = item_views(items@);
    let kept = tray@;
    assert(given[i] == items@[i]@);
    assert(has_item(kept, given[i].key));
    let p = choose|p: int| 0 <= p < kept.len() && (#[trigger] kept[p]).key == given[i].key;
    assert(is_first_of_key(given, kept[p]));
    let q = choose|q: int|
        0 <= q < given.len() && #[trigger] given[q] == kept[p] && forall|r: int|
            0 <= r < q ==> (#[trigger] given[r]).key != kept[p].key;
    if q < i {
        assert(items@[q]@.key != items@[i]@.key);
    }
    assert(q == i);
    assert(kept[p] == items@[i]@);
    assert(is_first_of_key(given, kept[j]));
    let k = choose|k: int|
        0 <= k < given.len() && #[trigger] given[k] == kept[j] && forall|r: int|
            0 <= r < k ==> (#[trigger] given[r]).key != kept[j].key;
    assert(items@[k]@ == kept[j]);
}

} // verus!
