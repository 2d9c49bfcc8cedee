//! The system tray: which items are registered, what each of them shows, and when
//! the tray is read again.
//!
//! Applications register tray items with a watcher; the bar hosts one itself when
//! no other process does. Reading an item may fail while it starts up or shuts
//! down: the watcher's list decides which items there are, and an item that cannot
//! be read keeps what was last read of it.

use crate::command;
use crate::config::path;
use crate::order;
use crate::probe;
use crate::table::{self, Table};
use crate::text;
use crate::time::SECOND;
use crate::tray::{
    self, TrayIcon, TrayIconView, TrayItem, TrayItemView, TrayMenu, TrayMenuItem, TrayMenuMode,
    TrayMenuToggle, TrayMenuToggleKind, TrayMenuToggleState, TrayState, TrayStatus,
};
use vstd::prelude::*;
use vstd::string::StrSliceExecFns;

verus! {

/// The longest wait for an item's answer, in nanoseconds.
pub const CALL_TIMEOUT: u64 = 2 * SECOND;

/// How long to wait before trying again what failed, in nanoseconds.
pub const RETRY_DELAY: u64 = 1 * SECOND;

/// How often the watcher's list is read again without being asked to, in
/// nanoseconds.
pub const RECONCILE_INTERVAL: u64 = 5 * SECOND;

/// A value inside a menu layout, as far as menus tell values apart.
#[derive(Debug, PartialEq, Eq)]
pub enum MenuValue {
    /// A text.
    Text(String),
    /// A truth value.
    Flag(bool),
    /// A whole number.
    Number(i32),
    /// A layout node.
    Layout(MenuLayout),
    /// Anything else.
    Other,
}

/// A node of a menu layout.
#[derive(Debug, PartialEq, Eq)]
pub struct MenuLayout {
    /// The node's id.
    pub id: i32,
    /// Its properties, each name once.
    pub properties: Vec<(String, MenuValue)>,
    /// The nodes below it.
    pub children: Vec<MenuValue>,
}

/// The place of the property `name`.
pub open spec fn property_place(
    properties: Seq<(String, MenuValue)>,
    name: Seq<char>,
) -> Option<int>
    decreases properties.len(),
{
    if properties.len() == 0 {
        None
    } else if properties.last().0@ == name {
        Some(properties.len() - 1)
    } else {
        property_place(properties.drop_last(), name)
    }
}

/// The text of a property: empty when it is missing or no text.
pub open spec fn text_of(properties: Seq<(String, MenuValue)>, name: Seq<char>) -> Seq<char> {
    match property_place(properties, name) {
        Some(i) => match properties[i].1 {
            MenuValue::Text(text) => text@,
            _ => seq![],
        },
        None => seq![],
    }
}

/// The truth value of a property: `default` when it is missing or no truth value.
pub open spec fn flag_of(
    properties: Seq<(String, MenuValue)>,
    name: Seq<char>,
    default: bool,
) -> bool {
    match property_place(properties, name) {
        Some(i) => match properties[i].1 {
            MenuValue::Flag(flag) => flag,
            _ => default,
        },
        None => default,
    }
}

/// How the toggle of a node is set: zero is off, one is on, and anything else, also
/// nothing, is neither.
pub open spec fn toggle_state_of(properties: Seq<(String, MenuValue)>) -> TrayMenuToggleState {
    match property_place(properties, "toggle-state"@) {
        Some(i) => match properties[i].1 {
            MenuValue::Number(0) => TrayMenuToggleState::Off,
            MenuValue::Number(1) => TrayMenuToggleState::On,
            _ => TrayMenuToggleState::Indeterminate,
        },
        None => TrayMenuToggleState::Indeterminate,
    }
}

/// The toggle of a node, if it is one.
pub open spec fn toggle_of(properties: Seq<(String, MenuValue)>) -> Option<TrayMenuToggle> {
    let kind = text_of(properties, "toggle-type"@);
    if kind == "checkmark"@ {
        Some(
            TrayMenuToggle {
                kind: TrayMenuToggleKind::Checkmark,
                state: toggle_state_of(properties),
            },
        )
    } else if kind == "radio"@ {
        Some(
            TrayMenuToggle { kind: TrayMenuToggleKind::Radio, state: toggle_state_of(properties) },
        )
    } else {
        None
    }
}

/// Whether `item` is the entry that `layout` describes, with the entries of the
/// nodes below it.
pub open spec fn describes(layout: MenuLayout, item: TrayMenuItem) -> bool
    decreases layout,
{
    let properties = layout.properties@;
    &&& item.id == layout.id
    &&& item.label@ == text_of(properties, "label"@)
    &&& item.enabled == flag_of(properties, "enabled"@, true)
    &&& item.visible == flag_of(properties, "visible"@, true)
    &&& item.separator == (text_of(properties, "type"@) == "separator"@)
    &&& item.toggle == toggle_of(properties)
    &&& all_described(layout.children@, item.children@)
}

/// Whether `items` are the entries that the nodes among `values` describe, in order.
/// Values that are no nodes count for nothing.
pub open spec fn all_described(values: Seq<MenuValue>, items: Seq<TrayMenuItem>) -> bool
    decreases values,
{
    if values.len() == 0 {
        items.len() == 0
    } else {
        match values.last() {
            MenuValue::Layout(layout) => {
                &&& items.len() > 0
                &&& describes(layout, items.last())
                &&& all_described(values.drop_last(), items.drop_last())
            },
            _ => all_described(values.drop_last(), items),
        }
    }
}

/// The value of the property `name`.
fn property<'a>(properties: &'a Vec<(String, MenuValue)>, name: &str) -> (value: Option<
    &'a MenuValue,
>)
    ensures
        match value {
            Some(value) => property_place(properties@, name@) is Some && *value == properties@[
                property_place(properties@, name@)->0
            ].1,
            None => property_place(properties@, name@) is None,
        },
{
    let mut n: usize = properties.len();
    assert(properties@.take(n as int) =~= properties@);
    while n > 0
        invariant
            n <= properties@.len(),
            property_place(properties@, name@) == property_place(properties@.take(n as int), name@),
        decreases n,
    {
        let ghost part = properties@.take(n as int);
        assert(part.last() == properties@[n - 1]);
        assert(part.drop_last() =~= properties@.take(n - 1));
        if text::same(properties[n - 1].0.as_str(), name) {
            return Some(&properties[n - 1].1);
        }
        n -= 1;
    }
    None
}

/// The text of a property: empty when it is missing or no text.
fn string_property(properties: &Vec<(String, MenuValue)>, name: &str) -> (text: String)
    ensures
        text@ == text_of(properties@, name@),
{
    match property(properties, name) {
        Some(MenuValue::Text(text)) => text.clone(),
        _ => {
            let text: String = String::new();
            assert(text@ =~= seq![]);
            text
        },
    }
}

/// The truth value of a property: `default` when it is missing or no truth value.
fn bool_property(properties: &Vec<(String, MenuValue)>, name: &str, default: bool) -> (flag: bool)
    ensures
        flag == flag_of(properties@, name@, default),
{
    match property(properties, name) {
        Some(MenuValue::Flag(flag)) => *flag,
        _ => default,
    }
}

/// How the toggle of a node is set.
fn toggle_state(properties: &Vec<(String, MenuValue)>) -> (state: TrayMenuToggleState)
    ensures
        state == toggle_state_of(properties@),
{
    let number: i32 = match property(properties, "toggle-state") {
        Some(MenuValue::Number(number)) => *number,
        _ => -1,
    };
    if number == 0 {
        TrayMenuToggleState::Off
    } else if number == 1 {
        TrayMenuToggleState::On
    } else {
        TrayMenuToggleState::Indeterminate
    }
}

/// Normalize a value that is to be a layout node: the entry it describes, and
/// nothing when it is no node.
pub fn parse_menu_layout(value: MenuValue) -> (item: Option<TrayMenuItem>)
    ensures
        match value {
            MenuValue::Layout(layout) => item is Some && describes(layout, item->0),
            _ => item is None,
        },
{
    match &value {
        MenuValue::Layout(layout) => Some(parse_raw_menu_layout(layout)),
        _ => None,
    }
}

/// Normalize one layout node and the nodes below it.
pub fn parse_raw_menu_layout(layout: &MenuLayout) -> (item: TrayMenuItem)
    ensures
        describes(*layout, item),
    decreases *layout,
{
    let properties: &Vec<(String, MenuValue)> = &layout.properties;
    let kind: String = string_property(properties, "toggle-type");
    let toggle: Option<TrayMenuToggle> = if text::same(kind.as_str(), "checkmark") {
        Some(
            TrayMenuToggle { kind: TrayMenuToggleKind::Checkmark, state: toggle_state(properties) },
        )
    } else if text::same(kind.as_str(), "radio") {
        Some(TrayMenuToggle { kind: TrayMenuToggleKind::Radio, state: toggle_state(properties) })
    } else {
        None
    };
    let category: String = string_property(properties, "type");
    let mut children: Vec<TrayMenuItem> = Vec::new();
    let mut i: usize = 0;
    while i < layout.children.len()
        invariant
            i <= layout.children@.len(),
            all_described(layout.children@.take(i as int), children@),
        decreases layout.children@.len() - i,
    {
        let ghost before = children@;
        let ghost part = layout.children@.take(i + 1);
        assert(part.last() == layout.children@[i as int]);
        assert(part.drop_last() =~= layout.children@.take(i as int));
        match &layout.children[i] {
            MenuValue::Layout(child) => {
                assert(decreases_to!(*layout => layout.children@[i as int]));
                children.push(parse_raw_menu_layout(child));
                assert(children@.drop_last() =~= before);
            },
            _ => {},
        }
        i += 1;
    }
    assert(layout.children@.take(i as int) =~= layout.children@);
    TrayMenuItem {
        id: layout.id,
        label: string_property(properties, "label"),
        enabled: bool_property(properties, "enabled", true),
        visible: bool_property(properties, "visible", true),
        separator: text::same(category.as_str(), "separator"),
        toggle,
        children,
    }
}

/// The bus name and the object path of a registration address, white space around
/// it cut off. The address is a bus name alone, which stands for the default path,
/// or a bus name with the path behind it. Without a bus name it leads nowhere.
pub open spec fn address_parts(address: Seq<char>) -> Option<(Seq<char>, Seq<char>)> {
    let address = text::trimmed(address);
    match text::before_first(address, '/') {
        None => if address.len() == 0 {
            None
        } else {
            Some((address, "/StatusNotifierItem"@))
        },
        Some(name) => if name.len() == 0 {
            None
        } else {
            Some((name, address.skip(name.len() as int)))
        },
    }
}

/// Split a watcher registration address into its bus name and object path.
///
/// There are none for an empty address or a path without a bus name, so that a
/// malformed registration is skipped rather than trusted.
pub fn parse_item_address(address: &str) -> (parts: Option<(String, String)>)
    ensures
        match parts {
            Some((name, path)) => address_parts(address@) == Some((name@, path@)),
            None => address_parts(address@) is None,
        },
{
    let address: &str = text::trim(address);
    let len: usize = address.unicode_len();
    if len == 0 {
        return None;
    }
    match text::split_at_first(address, '/') {
        Some((name, _)) => {
            let n: usize = name.unicode_len();
            if n == 0 {
                return None;
            }
            proof {
                text::lemma_before_first(address@, '/');
            }
            let path: &str = address.substring_char(n, len);
            assert(path@ =~= address@.skip(n as int));
            Some((name.to_owned(), path.to_owned()))
        },
        None => Some((address.to_owned(), "/StatusNotifierItem".to_owned())),
    }
}

/// A bus name and a path, put together, come apart into the two again, unless white
/// space stands at an end or the name holds a slash.
pub proof fn lemma_address_round_trip(name: Seq<char>, path: Seq<char>)
    requires
        name.len() > 0,
        !name.contains('/'),
        path.len() > 0,
        path[0] == '/',
        !text::is_white_space(name[0]),
        !text::is_white_space(path.last()),
    ensures
        address_parts(name + path) == Some((name, path)),
{
    let address = name + path;
    assert(address[0] == name[0]);
    assert(address.last() == path.last());
    assert(text::trimmed(address) == address);
    assert(address.take(name.len() as int) =~= name);
    assert(address[name.len() as int] == '/');
    text::lemma_around_first(address, '/', name.len() as int);
    assert(address.skip(name.len() as int) =~= path);
}

/// A raw icon: its size, and its pixels in the order alpha, red, green, blue.
pub type RawPixmap = (i32, i32, Vec<u8>);

/// Whether a raw icon has pixels, and as many bytes as they take.
pub open spec fn is_usable(pixmap: RawPixmap) -> bool {
    tray::is_image(pixmap.0 as int, pixmap.1 as int, pixmap.2@.len() as int)
}

/// The number of pixels of a raw icon.
pub open spec fn area(pixmap: RawPixmap) -> int {
    pixmap.0 * pixmap.1
}

/// Whether `i` is the place of the largest usable raw icon, the last listed one
/// where several are as large.
pub open spec fn is_largest(pixmaps: Seq<RawPixmap>, i: int) -> bool {
    &&& 0 <= i < pixmaps.len()
    &&& is_usable(pixmaps[i])
    &&& forall|j: int|
        0 <= j < pixmaps.len() && is_usable(#[trigger] pixmaps[j]) ==> area(pixmaps[j]) <= area(
            pixmaps[i],
        ) && (area(pixmaps[j]) == area(pixmaps[i]) ==> j <= i)
}

/// Choose the best raw icon and decode it.
///
/// Items often ship the same icon at several sizes; the largest is picked so that
/// the bar scales down rather than up. Entries without pixels, or with the wrong
/// number of bytes, are ignored.
pub fn select_pixmap(pixmaps: &[RawPixmap]) -> (icon: Option<TrayIcon>)
    ensures
        match icon {
            Some(icon) => exists|i: int| #[trigger]
                is_largest(pixmaps@, i) && icon@ == (TrayIconView {
                    width: pixmaps@[i].0 as u32,
                    height: pixmaps@[i].1 as u32,
                    rgba: tray::premultiplied(pixmaps@[i].2@),
                }),
            None => forall|i: int| 0 <= i < pixmaps@.len() ==> !is_usable(#[trigger] pixmaps@[i]),
        },
{
    let mut best: Option<usize> = None;
    let mut best_area: i64 = 0;
    let mut i: usize = 0;
    while i < pixmaps.len()
        invariant
            i <= pixmaps@.len(),
            match best {
                Some(b) => is_largest(pixmaps@.take(i as int), b as int) && best_area == area(
                    pixmaps@[b as int],
                ),
                None => forall|j: int| 0 <= j < i ==> !is_usable(#[trigger] pixmaps@[j]),
            },
        decreases pixmaps@.len() - i,
    {
        let ghost seen = pixmaps@.take(i as int);
        let ghost more = pixmaps@.take(i + 1);
        proof {
            assert forall|j: int| 0 <= j < i implies more[j] == #[trigger] seen[j] by {}
            assert(more[i as int] == pixmaps@[i as int]);
        }
        let width: i32 = pixmaps[i].0;
        let height: i32 = pixmaps[i].1;
        if width > 0 && height > 0 {
            proof {
                lemma_area_fits(width, height);
            }
            let pixels: i64 = width as i64 * height as i64;
            let bytes: usize = pixmaps[i].2.len();
            if bytes as i128 == 4 * (pixels as i128) {
                let larger: bool = match best {
                    Some(_) => pixels >= best_area,
                    None => true,
                };
                if larger {
                    proof {
                        assert(is_usable(more[i as int]));
                        assert(is_largest(more, i as int)) by {
                            assert forall|j: int|
                                0 <= j < more.len() && is_usable(#[trigger] more[j]) implies area(
                                more[j],
                            ) <= area(more[i as int]) && (area(more[j]) == area(more[i as int])
                                ==> j <= i) by {
                                if j < i {
                                    assert(more[j] == seen[j]);
                                    assert(seen[j] == pixmaps@[j]);
                                }
                            }
                        }
                    }
                    best = Some(i);
                    best_area = pixels;
                } else {
                    assert(is_largest(more, best->0 as int));
                }
            } else {
                assert(best is Some ==> is_largest(more, best->0 as int));
            }
        } else {
            assert(best is Some ==> is_largest(more, best->0 as int));
        }
        i += 1;
    }
    assert(pixmaps@.take(i as int) =~= pixmaps@);
    match best {
        Some(b) => {
            let (width, height, bytes) = &pixmaps[b];
            TrayIcon::from_argb32(*width as u32, *height as u32, bytes.as_slice())
        },
        None => None,
    }
}

proof fn lemma_area_fits(width: i32, height: i32)
    requires
        width > 0,
        height > 0,
    ensures
        0 < width * height <= 0x7FFF_FFFF * 0x7FFF_FFFF,
{
    assert(0 < width * height <= 0x7FFF_FFFF * 0x7FFF_FFFF) by (nonlinear_arith)
        requires
            0 < width <= 0x7FFF_FFFF,
            0 < height <= 0x7FFF_FFFF,
    ;
}

/// Where the file `name` is, asked for in `dir`: a name that starts at the root
/// stands for itself.
pub open spec fn path_in(dir: Seq<char>, name: Seq<char>) -> Seq<char> {
    if name.len() > 0 && name[0] == '/' {
        name
    } else {
        path::below(dir, name)
    }
}

/// The file that an icon name stands for in a directory.
pub open spec fn icon_in(dir: Seq<char>, name: Seq<char>) -> Seq<char> {
    path_in(dir, name + ".png"@)
}

/// Find the file of an icon `name` in `dirs`.
///
/// A name that is the full path of a file stands for that file. Otherwise each
/// directory is asked for a file of that name with `.png` behind it, and the first
/// one that has it wins. `is_file` says whether a path is a file.
pub fn find_icon_file<F: Fn(&str) -> bool>(name: &str, dirs: &Vec<String>, is_file: F) -> (found:
    Option<String>)
    requires
        probe::askable(is_file),
    ensures
        ({
            let name = text::trimmed(name@);
            match found {
                Some(file) => {
                    ||| command::is_rooted(name) && file@ == name && probe::answers(is_file, name, true)
                    ||| name.len() > 0 && (command::is_rooted(name) ==> probe::answers(is_file, name, false))
                        && exists|i: int|
                        0 <= i < dirs@.len() && file@ == icon_in((#[trigger] dirs@[i])@, name)
                            && probe::answers(is_file, file@, true) && forall|j: int|
                            0 <= j < i ==> probe::answers(
                                is_file,
                                icon_in((#[trigger] dirs@[j])@, name),
                                false,
                            )
                },
                None => {
                    ||| name.len() == 0
                    ||| (command::is_rooted(name) ==> probe::answers(is_file, name, false)) && forall|j: int|
                        0 <= j < dirs@.len() ==> probe::answers(
                            is_file,
                            icon_in((#[trigger] dirs@[j])@, name),
                            false,
                        )
                },
            }
        }),
{
    let icon: &str = text::trim(name);
    if icon.unicode_len() == 0 {
        return None;
    }
    let rooted: bool = icon.get_char(0) == '/';
    if rooted && probe::ask(&is_file, icon) {
        return Some(icon.to_owned());
    }
    let file_name: String = text::joined(icon, ".png");
    let mut i: usize = 0;
    while i < dirs.len()
        invariant
            i <= dirs@.len(),
            probe::askable(is_file),
            icon@ == text::trimmed(name@),
            icon@.len() > 0,
            rooted == command::is_rooted(icon@),
            rooted ==> probe::answers(is_file, icon@, false),
            file_name@ == icon@ + ".png"@,
            forall|j: int|
                0 <= j < i ==> probe::answers(
                    is_file,
                    icon_in((#[trigger] dirs@[j])@, icon@),
                    false,
                ),
        decreases dirs@.len() - i,
    {
        assert(file_name@[0] == icon@[0]);
        let candidate: String = if rooted {
            file_name.clone()
        } else {
            path::join_below(dirs[i].as_str(), file_name.as_str())
        };
        assert(candidate@ == icon_in(dirs@[i as int]@, icon@));
        if probe::ask(&is_file, candidate.as_str()) {
            return Some(candidate);
        }
        i += 1;
    }
    None
}

/// The icon sizes that are looked for, largest first.
pub open spec fn icon_sizes() -> Seq<Seq<char>> {
    seq![
        "256x256"@,
        "128x128"@,
        "64x64"@,
        "48x48"@,
        "32x32"@,
        "24x24"@,
        "22x22"@,
        "16x16"@,
    ]
}

/// The application and status directories of the sizes under `root`.
pub open spec fn themed_dirs(root: Seq<char>, sizes: Seq<Seq<char>>) -> Seq<Seq<char>>
    decreases sizes.len(),
{
    if sizes.len() == 0 {
        seq![]
    } else {
        themed_dirs(root, sizes.drop_last()) + seq![
            root + "/"@ + sizes.last() + "/apps"@,
            root + "/"@ + sizes.last() + "/status"@,
        ]
    }
}

/// The directories to search for a themed icon: the item's own one first, if it
/// names one, then the system's.
pub open spec fn search_dirs(theme_path: Seq<char>) -> Seq<Seq<char>> {
    let own = if text::trimmed(theme_path).len() == 0 {
        seq![]
    } else {
        seq![theme_path]
    };
    own + themed_dirs("/usr/share/icons/hicolor"@, icon_sizes()) + themed_dirs(
        "/usr/local/share/icons/hicolor"@,
        icon_sizes(),
    ) + seq!["/usr/share/pixmaps"@]
}

fn push_themed_dirs(dirs: &mut Vec<String>, root: &str)
    ensures
        text::list(final(dirs)@) == text::list(old(dirs)@) + themed_dirs(root@, icon_sizes()),
{
    let sizes: [&str; 8] = [
        "256x256",
        "128x128",
        "64x64",
        "48x48",
        "32x32",
        "24x24",
        "22x22",
        "16x16",
    ];
    let ghost shown = icon_sizes();
    let ghost before = text::list(dirs@);
    let mut i: usize = 0;
    assert(before + themed_dirs(root@, shown.take(0)) =~= before);
    while i < 8
        invariant
            i <= 8,
            shown == icon_sizes(),
            shown.len() == 8,
            sizes@.len() == 8,
            forall|k: int| 0 <= k < 8 ==> (#[trigger] sizes@[k])@ == shown[k],
            text::list(dirs@) == before + themed_dirs(root@, shown.take(i as int)),
        decreases 8 - i,
    {
        let ghost listed = text::list(dirs@);
        let rooted: String = text::joined(root, "/");
        let sized: String = text::joined(rooted.as_str(), sizes[i]);
        let apps: String = text::joined(sized.as_str(), "/apps");
        let status: String = text::joined(sized.as_str(), "/status");
        let ghost part = shown.take(i + 1);
        assert(part.last() == shown[i as int]);
        assert(part.drop_last() =~= shown.take(i as int));
        let ghost pair = seq![apps@, status@];
        dirs.push(apps);
        dirs.push(status);
        assert(text::list(dirs@) =~= listed + pair);
        assert(text::list(dirs@) =~= before + themed_dirs(root@, part));
        i += 1;
    }
    assert(shown.take(8) =~= shown);
}

/// The directories to search for a themed icon, most specific first.
pub fn icon_search_dirs(theme_path: &str) -> (dirs: Vec<String>)
    ensures
        text::list(dirs@) == search_dirs(theme_path@),
{
    let mut dirs: Vec<String> = Vec::new();
    if text::trim(theme_path).unicode_len() > 0 {
        dirs.push(theme_path.to_owned());
        assert(text::list(dirs@) =~= seq![theme_path@]);
    } else {
        assert(text::list(dirs@) =~= seq![]);
    }
    push_themed_dirs(&mut dirs, "/usr/share/icons/hicolor");
    push_themed_dirs(&mut dirs, "/usr/local/share/icons/hicolor");
    let ghost before = text::list(dirs@);
    dirs.push("/usr/share/pixmaps".to_owned());
    assert(text::list(dirs@) =~= before.push("/usr/share/pixmaps"@));
    assert(text::list(dirs@) =~= search_dirs(theme_path@));
    dirs
}

/// Where an item's icon comes from.
#[derive(Debug, PartialEq, Eq)]
pub enum IconSource {
    /// It came with the item.
    Embedded(TrayIcon),
    /// It is in a file.
    File(String),
    /// There is none.
    Missing,
}

/// Decide where an item's icon comes from: one that came with the item wins; else
/// the icon name is looked up in the item's own directory and the system's.
pub fn icon_source<F: Fn(&str) -> bool>(
    icon_name: &str,
    pixmaps: &[RawPixmap],
    theme_path: &str,
    is_file: F,
) -> (source: IconSource)
    requires
        probe::askable(is_file),
    ensures
        match source {
            IconSource::Embedded(icon) => exists|i: int| #[trigger]
                is_largest(pixmaps@, i) && icon@ == (TrayIconView {
                    width: pixmaps@[i].0 as u32,
                    height: pixmaps@[i].1 as u32,
                    rgba: tray::premultiplied(pixmaps@[i].2@),
                }),
            IconSource::File(file) => {
                &&& forall|i: int| 0 <= i < pixmaps@.len() ==> !is_usable(#[trigger] pixmaps@[i])
                &&& text::trimmed(icon_name@).len() > 0
                &&& probe::answers(is_file, file@, true)
                &&& {
                    ||| command::is_rooted(text::trimmed(icon_name@)) && file@ == text::trimmed(
                        icon_name@,
                    )
                    ||| (command::is_rooted(text::trimmed(icon_name@)) ==> probe::answers(
                        is_file,
                        text::trimmed(icon_name@),
                        false,
                    )) && exists|i: int|
                        0 <= i < search_dirs(theme_path@).len() && file@ == icon_in(
                            #[trigger] search_dirs(theme_path@)[i],
                            text::trimmed(icon_name@),
                        ) && forall|j: int|
                            0 <= j < i ==> probe::answers(
                                is_file,
                                icon_in(
                                    #[trigger] search_dirs(theme_path@)[j],
                                    text::trimmed(icon_name@),
                                ),
                                false,
                            )
                }
            },
            IconSource::Missing => {
                &&& forall|i: int| 0 <= i < pixmaps@.len() ==> !is_usable(#[trigger] pixmaps@[i])
                &&& text::trimmed(icon_name@).len() > 0 ==> (command::is_rooted(
                    text::trimmed(icon_name@),
                ) ==> probe::answers(is_file, text::trimmed(icon_name@), false)) && forall|j: int|
                    0 <= j < search_dirs(theme_path@).len() ==> probe::answers(
                        is_file,
                        icon_in(#[trigger] search_dirs(theme_path@)[j], text::trimmed(icon_name@)),
                        false,
                    )
            },
        },
{
    match select_pixmap(pixmaps) {
        Some(icon) => {
            return IconSource::Embedded(icon);
        },
        None => {},
    }
    let dirs: Vec<String> = icon_search_dirs(theme_path);
    proof {
        assert forall|i: int| 0 <= i < dirs@.len() implies (#[trigger] dirs@[i])@ == search_dirs(
            theme_path@,
        )[i] by {
            assert(text::list(dirs@)[i] == dirs@[i]@);
        }
        assert forall|i: int| 0 <= i < search_dirs(theme_path@).len() implies
            #[trigger] search_dirs(theme_path@)[i] == dirs@[i]@ by {
            assert(text::list(dirs@)[i] == dirs@[i]@);
        }
    }
    match find_icon_file(icon_name, &dirs, is_file) {
        Some(file) => IconSource::File(file),
        None => IconSource::Missing,
    }
}

/// The icon of an item: the one that came with it, or the image of the file it names,
/// of which `contents` holds the bytes if they could be read.
pub fn resolve_icon(source: IconSource, contents: Option<&[u8]>) -> (icon: Option<TrayIcon>)
    ensures
        match (source, contents) {
            (IconSource::Embedded(given), _) => icon == Some(given),
            (IconSource::File(_), Some(bytes)) => match icon {
                Some(icon) => tray::png_image(bytes@) == Some(
                    (icon@.width, icon@.height, icon@.rgba),
                ),
                None => tray::png_image(bytes@) is None,
            },
            (IconSource::File(_), None) => icon is None,
            (IconSource::Missing, _) => icon is None,
        },
{
    match source {
        IconSource::Embedded(icon) => Some(icon),
        IconSource::File(_) => match contents {
            Some(bytes) => TrayIcon::from_png_bytes(bytes),
            None => None,
        },
        IconSource::Missing => None,
    }
}

/// Fold the properties of an item into what the bar shows of it.
///
/// `key` is the address the item is registered under. The title falls back to the
/// `id` when it is blank, so that the initial is still meaningful.
pub fn tray_item_from_props(
    key: &str,
    id: &str,
    title: &str,
    status: &str,
    icon: Option<TrayIcon>,
) -> (item: TrayItem)
    ensures
        item@ == (TrayItemView {
            key: key@,
            title: if text::trimmed(title@).len() == 0 {
                id@
            } else {
                title@
            },
            status: TrayStatus::of_word(status@),
            icon: tray::icon_view(icon),
            menu: TrayMenuMode::Absent,
        }),
{
    let display: &str = if text::trim(title).unicode_len() == 0 {
        id
    } else {
        title
    };
    TrayItem::new(key, display, TrayStatus::from_sni(status), icon)
}

/// Whether a menu path leads to a menu: not when it is blank or one of the two
/// paths that stand for none.
pub open spec fn leads_to_menu(menu_path: Option<Seq<char>>) -> bool {
    match menu_path {
        Some(path) => {
            let path = text::trimmed(path);
            path.len() > 0 && path != "/"@ && path != "/NO_DBUSMENU"@
        },
        None => false,
    }
}

/// Which button opens the menu of an item with these properties. An item with a
/// menu that does not say is taken to be all menu.
pub open spec fn mode_of(menu_path: Option<Seq<char>>, item_is_menu: Option<bool>) -> TrayMenuMode {
    if !leads_to_menu(menu_path) {
        TrayMenuMode::Absent
    } else if item_is_menu == Some(false) {
        TrayMenuMode::Secondary
    } else {
        TrayMenuMode::Primary
    }
}

/// Normalize an item's menu properties into what its buttons do.
pub fn menu_mode(menu_path: Option<&str>, item_is_menu: Option<bool>) -> (mode: TrayMenuMode)
    ensures
        mode == mode_of(text::optional_str(menu_path), item_is_menu),
{
    let has_menu: bool = match menu_path {
        Some(path) => {
            let path: &str = text::trim(path);
            path.unicode_len() > 0 && !text::same(path, "/") && !text::same(path, "/NO_DBUSMENU")
        },
        None => false,
    };
    if !has_menu {
        return TrayMenuMode::Absent;
    }
    match item_is_menu {
        Some(false) => TrayMenuMode::Secondary,
        _ => TrayMenuMode::Primary,
    }
}

/// What was read of an item. Only the id has to be there; an item whose other
/// properties cannot be read is still shown.
#[derive(Debug, PartialEq, Eq)]
pub struct ItemReading {
    /// The id.
    pub id: Option<String>,
    /// The title.
    pub title: Option<String>,
    /// The status.
    pub status: Option<String>,
    /// The path of the menu.
    pub menu: Option<String>,
    /// Whether the item is all menu.
    pub item_is_menu: Option<bool>,
}

/// The text, or an empty one.
pub open spec fn or_empty(s: Option<Seq<char>>) -> Seq<char> {
    match s {
        Some(s) => s,
        None => seq![],
    }
}

fn unwrap_or_empty(s: &Option<String>) -> (text: &str)
    ensures
        text@ == or_empty(text::optional(*s)),
{
    match s {
        Some(s) => s.as_str(),
        None => {
            proof {
                reveal_strlit("");
                assert(""@ =~= seq![]);
            }
            ""
        },
    }
}

/// What the bar shows of an item that was read, and nothing when its id could not
/// be read: then it is gone.
pub fn item_from_reading(key: &str, reading: &ItemReading, icon: Option<TrayIcon>) -> (item: Option<
    TrayItem,
>)
    ensures
        item is Some <==> reading.id is Some,
        item matches Some(item) ==> {
            let title = or_empty(text::optional(reading.title));
            item@ == (TrayItemView {
                key: key@,
                title: if text::trimmed(title).len() == 0 {
                    reading.id->0@
                } else {
                    title
                },
                status: TrayStatus::of_word(or_empty(text::optional(reading.status))),
                icon: tray::icon_view(icon),
                menu: mode_of(text::optional(reading.menu), reading.item_is_menu),
            })
        },
{
    match &reading.id {
        Some(id) => {
            let menu_path: Option<&str> = match &reading.menu {
                Some(path) => Some(path.as_str()),
                None => None,
            };
            let mode: TrayMenuMode = menu_mode(menu_path, reading.item_is_menu);
            let item: TrayItem = tray_item_from_props(
                key,
                id.as_str(),
                unwrap_or_empty(&reading.title),
                unwrap_or_empty(&reading.status),
                icon,
            );
            Some(item.with_menu(mode))
        },
        None => None,
    }
}

/// The items after some readings, taken in order: what was read replaces what was
/// there, and a reading that failed changes nothing.
pub open spec fn with_readings(
    items: Map<Seq<char>, TrayItem>,
    readings: Seq<(String, Option<TrayItem>)>,
) -> Map<Seq<char>, TrayItem>
    decreases readings.len(),
{
    if readings.len() == 0 {
        items
    } else {
        let (address, reading) = readings[0];
        with_readings(
            match reading {
                Some(item) => items.insert(address@, item),
                None => items,
            },
            readings.skip(1),
        )
    }
}

/// Whether a reading failed.
pub open spec fn some_failed(readings: Seq<(String, Option<TrayItem>)>) -> bool {
    exists|i: int| 0 <= i < readings.len() && (#[trigger] readings[i]).1 is None
}

/// Merge fresh readings into the last known items; true asks for another try.
///
/// The list of addresses decides which items there are. A failed reading of an
/// address that is still listed keeps the known item and asks for another try, so
/// that one passing failure does not clear the tray.
pub fn reconcile_items(
    items: &mut Table<String, TrayItem>,
    addresses: &Vec<String>,
    readings: Vec<(String, Option<TrayItem>)>,
) -> (needs_retry: bool)
    requires
        old(items).wf(),
    ensures
        final(items).wf(),
        final(items)@ == with_readings(
            old(items)@.restrict(table::listed_keys(addresses@)),
            readings@,
        ),
        needs_retry == some_failed(readings@),
{
    items.keep(addresses);
    let ghost all = readings@;
    let ghost whole = with_readings(items@, readings@);
    let mut rest: Vec<(String, Option<TrayItem>)> = readings;
    let mut needs_retry: bool = false;
    let ghost mut done: int = 0;
    while rest.len() > 0
        invariant
            items.wf(),
            0 <= done <= all.len(),
            rest@ == all.skip(done),
            with_readings(items@, rest@) == whole,
            needs_retry == some_failed(all.take(done)),
        decreases rest@.len(),
    {
        let ghost before = rest@;
        let ghost seen = all.take(done);
        let ghost more = all.take(done + 1);
        let (address, reading) = rest.remove(0);
        proof {
            assert(before[0] == all[done]);
            assert(rest@ =~= before.skip(1));
            assert(rest@ =~= all.skip(done + 1));
            assert(more =~= seen.push(all[done]));
            if some_failed(seen) {
                let i = choose|i: int| 0 <= i < seen.len() && (#[trigger] seen[i]).1 is None;
                assert(more[i].1 is None);
            }
            if some_failed(more) && all[done].1 is Some {
                let i = choose|i: int| 0 <= i < more.len() && (#[trigger] more[i]).1 is None;
                assert(seen[i].1 is None);
            }
            assert(more[done] == all[done]);
        }
        match reading {
            Some(item) => {
                items.insert(address, item);
            },
            None => {
                needs_retry = true;
            },
        }
        proof {
            done = done + 1;
        }
    }
    assert(all.take(done) =~= all);
    needs_retry
}

/// As long as an address stays listed, an item that cannot be read keeps what was
/// last read of it.
pub proof fn lemma_failed_readings_keep_the_item(
    items: Map<Seq<char>, TrayItem>,
    addresses: Seq<String>,
    readings: Seq<(String, Option<TrayItem>)>,
    address: Seq<char>,
)
    requires
        items.dom().contains(address),
        table::listed_keys(addresses).contains(address),
        forall|i: int|
            0 <= i < readings.len() && (#[trigger] readings[i]).0@ == address ==> readings[i].1 is None,
    ensures
        ({
            let after = with_readings(items.restrict(table::listed_keys(addresses)), readings);
            after.dom().contains(address) && after[address] == items[address]
        }),
{
    let kept = items.restrict(table::listed_keys(addresses));
    lemma_untouched(kept, readings, address);
}

proof fn lemma_untouched(
    items: Map<Seq<char>, TrayItem>,
    readings: Seq<(String, Option<TrayItem>)>,
    address: Seq<char>,
)
    requires
        forall|i: int|
            0 <= i < readings.len() && (#[trigger] readings[i]).0@ == address ==> readings[i].1 is None,
    ensures
        with_readings(items, readings).dom().contains(address) == items.dom().contains(address),
        with_readings(items, readings)[address] == items[address],
    decreases readings.len(),
{
    if readings.len() > 0 {
        let (first, reading) = readings[0];
        assert(readings[0].0@ == address ==> readings[0].1 is None);
        let next = match reading {
            Some(item) => items.insert(first@, item),
            None => items,
        };
        assert forall|i: int|
            0 <= i < readings.skip(1).len() && (#[trigger] readings.skip(1)[i]).0@
                == address implies readings.skip(1)[i].1 is None by {
            assert(readings.skip(1)[i] == readings[i + 1]);
        }
        lemma_untouched(next, readings.skip(1), address);
    }
}

/// An item whose address is no longer listed is gone, whatever was read, unless it
/// was read just now.
pub proof fn lemma_unlisted_items_go(
    items: Map<Seq<char>, TrayItem>,
    addresses: Seq<String>,
    readings: Seq<(String, Option<TrayItem>)>,
    address: Seq<char>,
)
    requires
        !table::listed_keys(addresses).contains(address),
        forall|i: int|
            0 <= i < readings.len() && (#[trigger] readings[i]).0@ == address ==> readings[i].1 is None,
    ensures
        !with_readings(
            items.restrict(table::listed_keys(addresses)),
            readings,
        ).dom().contains(address),
{
    lemma_untouched(items.restrict(table::listed_keys(addresses)), readings, address);
}

/// The items of a table, as listed.
pub open spec fn table_items(listed: Seq<(String, TrayItem)>) -> Seq<TrayItemView> {
    listed.map_values(|entry: (String, TrayItem)| entry.1@)
}

/// The tray of the known items.
pub fn tray_of(items: &Table<String, TrayItem>) -> (tray: TrayState)
    requires
        items.wf(),
    ensures
        tray::is_tray_of(tray@, table_items(items.listed())),
{
    let len: usize = items.len();
    let ghost listed = items.listed();
    let mut values: Vec<TrayItem> = Vec::new();
    let mut i: usize = 0;
    while i < len
        invariant
            items.wf(),
            listed == items.listed(),
            i <= len == listed.len(),
            tray::item_views(values@) == table_items(listed).take(i as int),
        decreases len - i,
    {
        let (_, item) = items.entry(i);
        let ghost before = tray::item_views(values@);
        values.push(item.clone());
        assert(tray::item_views(values@) =~= before.push(item@));
        assert(table_items(listed).take(i + 1) =~= before.push(table_items(listed)[i as int]));
        i += 1;
    }
    assert(table_items(listed).take(i as int) =~= table_items(listed));
    TrayState::new(values)
}

/// Put addresses in order and drop repeated ones.
pub fn normalize_addresses(addresses: Vec<String>) -> (normal: Vec<String>)
    ensures
        order::is_normal_form(text::list(normal@), text::list(addresses@)),
{
    order::sorted_distinct(&addresses)
}

/// The addresses of the registered items.
///
/// Served by the bar's own watcher, when no other process runs one.
#[derive(Debug, PartialEq, Eq)]
pub struct Watcher {
    items: Vec<String>,
}

/// What a registration comes to.
#[derive(Debug, PartialEq, Eq)]
pub struct Registration {
    /// The address that is registered.
    pub address: String,
    /// Whether it is new: then it is announced, and its owner is watched.
    pub inserted: bool,
}

/// The address that a registration of `service` by `owner` stands for: a bare path
/// is one of the caller's own.
pub open spec fn registered_address(service: Seq<char>, owner: Seq<char>) -> Seq<char> {
    if command::is_rooted(service) {
        owner + service
    } else {
        service
    }
}

/// What the texts of a list show.
pub open spec fn text_set(items: Seq<String>) -> Set<Seq<char>> {
    Set::new(|shown: Seq<char>| text::list(items).contains(shown))
}

impl View for Watcher {
    type V = Set<Seq<char>>;

    closed spec fn view(&self) -> Set<Seq<char>> {
        text_set(self.items@)
    }
}

impl Watcher {
    /// No address is listed twice.
    pub closed spec fn wf(&self) -> bool {
        forall|i: int, j: int|
            0 <= i < j < self.items@.len() ==> (#[trigger] self.items@[i])@ != (
            #[trigger] self.items@[j])@
    }

    /// A watcher with nothing registered.
    pub fn new() -> (watcher: Self)
        ensures
            watcher.wf(),
            watcher@ == Set::<Seq<char>>::empty(),
    {
        let watcher = Watcher { items: Vec::new() };
        assert(watcher@ =~= Set::<Seq<char>>::empty());
        watcher
    }

    fn find(&self, address: &str) -> (place: Option<usize>)
        ensures
            match place {
                Some(i) => i < self.items@.len() && self.items@[i as int]@ == address@
                    && self@.contains(address@),
                None => !self@.contains(address@),
            },
    {
        let mut i: usize = 0;
        while i < self.items.len()
            invariant
                i <= self.items@.len(),
                forall|j: int| 0 <= j < i ==> (#[trigger] self.items@[j])@ != address@,
            decreases self.items@.len() - i,
        {
            if text::same(self.items[i].as_str(), address) {
                assert(text::list(self.items@)[i as int] == address@);
                return Some(i);
            }
            i += 1;
        }
        None
    }

    /// Add an address; true when it was not there.
    pub fn insert(&mut self, address: &str) -> (inserted: bool)
        requires
            old(self).wf(),
        ensures
            final(self).wf(),
            final(self)@ == old(self)@.insert(address@),
            inserted == !old(self)@.contains(address@),
    {
        if self.find(address).is_some() {
            assert(self@.insert(address@) =~= self@);
            return false;
        }
        let ghost before = text::list(self.items@);
        let ghost items = self.items@;
        self.items.push(address.to_owned());
        proof {
            let after = text::list(self.items@);
            assert(after =~= before.push(address@));
            assert forall|x: Seq<char>| after.contains(x) <==> before.contains(x) || x
                == address@ by {
                if before.contains(x) {
                    let i = choose|i: int| 0 <= i < before.len() && before[i] == x;
                    assert(after[i] == x);
                }
                assert(after[before.len() as int] == address@);
            }
            assert forall|i: int, j: int| 0 <= i < j < self.items@.len() implies (
            #[trigger] self.items@[i])@ != (#[trigger] self.items@[j])@ by {
                assert(self.items@[i] == items[i]);
                if j == items.len() {
                    assert(before[i] == items[i]@);
                    assert(before.contains(before[i]));
                }
            }
            assert(self@ =~= old(self)@.insert(address@));
        }
        true
    }

    /// Register an item: `service` is an address, or a bare path of the caller,
    /// whose bus name is `owner`. A call without a known caller is ignored.
    pub fn register(&mut self, service: &str, owner: Option<&str>) -> (registration: Option<
        Registration,
    >)
        requires
            old(self).wf(),
        ensures
            final(self).wf(),
            match owner {
                Some(owner) => {
                    let address = registered_address(service@, owner@);
                    &&& final(self)@ == old(self)@.insert(address)
                    &&& registration matches Some(registration) && registration.address@ == address
                        && registration.inserted == !old(self)@.contains(address)
                },
                None => *final(self) == *old(self) && registration is None,
            },
    {
        let owner: &str = match owner {
            Some(owner) => owner,
            None => {
                return None;
            },
        };
        let address: String = if service.unicode_len() > 0 && service.get_char(0) == '/' {
            text::joined(owner, service)
        } else {
            service.to_owned()
        };
        let inserted: bool = self.insert(address.as_str());
        Some(Registration { address, inserted })
    }

    /// Remove the item of an owner that is gone; true when it was there.
    pub fn remove_registered_item(&mut self, address: &str) -> (removed: bool)
        requires
            old(self).wf(),
        ensures
            final(self).wf(),
            final(self)@ == old(self)@.remove(address@),
            removed == old(self)@.contains(address@),
    {
        match self.find(address) {
            Some(i) => {
                let ghost before = self.items@;
                let _ = self.items.remove(i);
                proof {
                    let after = self.items@;
                    assert forall|a: int, b: int| 0 <= a < b < after.len() implies (
                    #[trigger] after[a])@ != (#[trigger] after[b])@ by {
                        let pa = if a < i {
                            a
                        } else {
                            a + 1
                        };
                        let pb = if b < i {
                            b
                        } else {
                            b + 1
                        };
                        assert(after[a] == before[pa] && after[b] == before[pb]);
                    }
                    assert forall|x: Seq<char>| text::list(after).contains(x) <==> text::list(
                        before,
                    ).contains(x) && x != address@ by {
                        if text::list(after).contains(x) {
                            let a = choose|a: int|
                                0 <= a < text::list(after).len() && text::list(after)[a] == x;
                            let p = if a < i {
                                a
                            } else {
                                a + 1
                            };
                            assert(after[a] == before[p]);
                            assert(text::list(before)[p] == x);
                            if p < i {
                                assert(before[p]@ != before[i as int]@);
                            } else {
                                assert(before[i as int]@ != before[p]@);
                            }
                        }
                        if text::list(before).contains(x) && x != address@ {
                            let p = choose|p: int|
                                0 <= p < text::list(before).len() && text::list(before)[p] == x;
                            let a = if p < i {
                                p
                            } else {
                                p - 1
                            };
                            assert(after[a] == before[p]);
                            assert(text::list(after)[a] == x);
                        }
                    }
                    assert(self@ =~= old(self)@.remove(address@));
                }
                true
            },
            None => {
                assert(self@.remove(address@) =~= self@);
                false
            },
        }
    }

    /// The addresses of the registered items.
    pub fn registered(&self) -> (addresses: Vec<String>)
        ensures
            text_set(addresses@) == self@,
    {
        text::copy_list(&self.items)
    }
}

/// An item whose owner went away can be registered again under the same address, and
/// is then announced as new.
pub proof fn lemma_removed_items_register_again(registered: Set<Seq<char>>, address: Seq<char>)
    ensures
        !registered.remove(address).contains(address),
        registered.contains(address) ==> registered.remove(address).insert(address) == registered,
{
    if registered.contains(address) {
        assert(registered.remove(address).insert(address) =~= registered);
    }
}

/// What a request for a bus name came to.
#[derive(Debug, Clone, Copy, PartialEq, Eq, Structural)]
pub enum NameReply {
    /// The name is ours.
    PrimaryOwner,
    /// We are in line for it.
    InQueue,
    /// Another process owns it.
    Exists,
    /// It was ours before.
    AlreadyOwner,
}

/// Why a request for a bus name failed.
#[derive(Debug, PartialEq, Eq)]
pub enum NameError {
    /// Another process owns the name.
    NameTaken,
    /// The bus failed.
    Bus(String),
}

/// Decide whether asking for the watcher's name leaves a usable watcher.
///
/// Whoever owns the name, there is a watcher to talk to. Only a failure of the bus
/// is one.
pub fn interpret_watcher_name(reply: Result<NameReply, NameError>) -> (usable: Result<(), String>)
    ensures
        match reply {
            Ok(_) => usable is Ok,
            Err(NameError::NameTaken) => usable is Ok,
            Err(NameError::Bus(error)) => usable == Err::<(), String>(error),
        },
{
    match reply {
        Ok(_) => Ok(()),
        Err(NameError::NameTaken) => Ok(()),
        Err(NameError::Bus(error)) => Err(error),
    }
}

/// What woke the tray host.
#[derive(Debug, Clone, Copy, PartialEq, Eq, Structural)]
pub enum SniWake {
    /// The watcher announced a change, or its announcements ended.
    Lifecycle { open: bool },
    /// An item announced a change, or the items' announcements ended.
    Item { open: bool },
    /// The wait was over.
    Poll,
}

/// What to do about the watcher's announcements.
#[derive(Debug, Clone, Copy, PartialEq, Eq, Structural)]
pub enum LifecycleStep {
    /// Go on listening.
    Keep,
    /// They ended: stop listening.
    Drop,
    /// They ended before: listen again.
    Restore,
}

/// What to do about the items.
#[derive(Debug, Clone, Copy, PartialEq, Eq, Structural)]
pub enum TrayStep {
    /// Wait for the next change.
    Wait,
    /// Read every listed item, and then listen to them anew if `rebuild` says so.
    Read { rebuild: bool },
}

/// The tray host: the items it knows, and how it keeps up with them.
pub struct TrayHost {
    addresses: Vec<String>,
    items: Table<String, TrayItem>,
    needs_retry: bool,
    lifecycle_closed: bool,
}

/// The contents of a [`TrayHost`].
#[verifier::ext_equal]
pub struct TrayHostView {
    /// The listed addresses, in order.
    pub addresses: Seq<Seq<char>>,
    /// The items, by address.
    pub items: Map<Seq<char>, TrayItem>,
    /// Whether a reading failed.
    pub needs_retry: bool,
    /// Whether the watcher's announcements ended.
    pub lifecycle_closed: bool,
}

impl View for TrayHost {
    type V = TrayHostView;

    closed spec fn view(&self) -> TrayHostView {
        TrayHostView {
            addresses: text::list(self.addresses@),
            items: self.items@,
            needs_retry: self.needs_retry,
            lifecycle_closed: self.lifecycle_closed,
        }
    }
}

/// The set of a list of texts.
pub open spec fn set_of(texts: Seq<Seq<char>>) -> Set<Seq<char>> {
    Set::new(|shown: Seq<char>| texts.contains(shown))
}

fn same_list(a: &Vec<String>, b: &Vec<String>) -> (equal: bool)
    ensures
        equal == (text::list(a@) == text::list(b@)),
{
    if a.len() != b.len() {
        assert(text::list(a@).len() != text::list(b@).len());
        return false;
    }
    let mut i: usize = 0;
    while i < a.len()
        invariant
            i <= a@.len() == b@.len(),
            forall|k: int| 0 <= k < i ==> #[trigger] text::list(a@)[k] == text::list(b@)[k],
        decreases a@.len() - i,
    {
        if !text::same(a[i].as_str(), b[i].as_str()) {
            assert(text::list(a@)[i as int] != text::list(b@)[i as int]);
            return false;
        }
        i += 1;
    }
    assert(text::list(a@) =~= text::list(b@));
    true
}

impl TrayHost {
    /// The known items are listed once each.
    pub closed spec fn wf(&self) -> bool {
        self.items.wf()
    }

    /// The known items, as listed.
    pub closed spec fn listed(&self) -> Seq<(String, TrayItem)> {
        self.items.listed()
    }

    /// A host that found these addresses. All of them are to be read.
    pub fn start(addresses: Vec<String>) -> (host: Self)
        ensures
            host.wf(),
            order::is_normal_form(host@.addresses, text::list(addresses@)),
            host@.items == Map::<Seq<char>, TrayItem>::empty(),
            !host@.needs_retry,
            !host@.lifecycle_closed,
    {
        TrayHost {
            addresses: normalize_addresses(addresses),
            items: Table::new(),
            needs_retry: false,
            lifecycle_closed: false,
        }
    }

    /// The listed addresses, in order.
    pub fn addresses(&self) -> (addresses: &Vec<String>)
        ensures
            text::list(addresses@) == self@.addresses,
    {
        &self.addresses
    }

    /// How long to wait for a change, in nanoseconds: not long after a reading
    /// failed.
    pub fn delay(&self) -> (nanos: u64)
        ensures
            nanos == if self@.needs_retry {
                RETRY_DELAY
            } else {
                RECONCILE_INTERVAL
            },
    {
        if self.needs_retry {
            RETRY_DELAY
        } else {
            RECONCILE_INTERVAL
        }
    }

    /// The host woke. Announcements that ended are listened to again when the next
    /// wait is over.
    pub fn on_wake(&mut self, wake: SniWake) -> (step: LifecycleStep)
        requires
            old(self).wf(),
        ensures
            final(self).wf(),
            final(self)@ == (TrayHostView {
                lifecycle_closed: old(self)@.lifecycle_closed || wake == SniWake::Lifecycle {
                    open: false,
                },
                ..old(self)@
            }),
            final(self).listed() == old(self).listed(),
            step == if wake == (SniWake::Lifecycle { open: false }) {
                LifecycleStep::Drop
            } else if wake == SniWake::Poll && old(self)@.lifecycle_closed {
                LifecycleStep::Restore
            } else {
                LifecycleStep::Keep
            },
    {
        match wake {
            SniWake::Lifecycle { open: false } => {
                self.lifecycle_closed = true;
                LifecycleStep::Drop
            },
            SniWake::Poll => {
                if self.lifecycle_closed {
                    LifecycleStep::Restore
                } else {
                    LifecycleStep::Keep
                }
            },
            _ => LifecycleStep::Keep,
        }
    }

    /// The watcher's announcements are listened to again.
    pub fn lifecycle_restored(&mut self)
        requires
            old(self).wf(),
        ensures
            final(self).wf(),
            final(self)@ == (TrayHostView { lifecycle_closed: false, ..old(self)@ }),
            final(self).listed() == old(self).listed(),
    {
        self.lifecycle_closed = false;
    }

    /// The watcher's list was read, or could not be.
    ///
    /// A wait that is over only checks the list: the items are read again when one
    /// of them or the watcher announced a change, the list changed, or an earlier
    /// reading failed. A list that cannot be read leaves everything as it is and
    /// asks for another try.
    pub fn on_membership(&mut self, wake: SniWake, addresses: Option<Vec<String>>) -> (step:
        TrayStep)
        requires
            old(self).wf(),
        ensures
            final(self).wf(),
            final(self).listed() == old(self).listed(),
            match addresses {
                None => step == TrayStep::Wait && final(self)@ == (TrayHostView {
                    needs_retry: true,
                    ..old(self)@
                }),
                Some(addresses) => {
                    let changed = final(self)@.addresses != old(self)@.addresses;
                    let ended = wake == (SniWake::Item { open: false });
                    &&& order::is_normal_form(final(self)@.addresses, text::list(addresses@))
                    &&& final(self)@ == (TrayHostView {
                        addresses: final(self)@.addresses,
                        ..old(self)@
                    })
                    &&& step == if wake == SniWake::Poll && !changed && !old(self)@.needs_retry {
                        TrayStep::Wait
                    } else {
                        TrayStep::Read { rebuild: ended || changed }
                    }
                },
            },
    {
        let addresses: Vec<String> = match addresses {
            Some(addresses) => addresses,
            None => {
                self.needs_retry = true;
                return TrayStep::Wait;
            },
        };
        let current: Vec<String> = normalize_addresses(addresses);
        let changed: bool = !same_list(&current, &self.addresses);
        let polled: bool = match wake {
            SniWake::Poll => true,
            _ => false,
        };
        let ended: bool = match wake {
            SniWake::Item { open: false } => true,
            _ => false,
        };
        self.addresses = current;
        if polled && !changed && !self.needs_retry {
            return TrayStep::Wait;
        }
        TrayStep::Read { rebuild: ended || changed }
    }

    /// The listed items were read: the tray to show.
    pub fn on_readings(&mut self, readings: Vec<(String, Option<TrayItem>)>) -> (tray: TrayState)
        requires
            old(self).wf(),
        ensures
            final(self).wf(),
            final(self)@ == (TrayHostView {
                items: with_readings(
                    old(self)@.items.restrict(set_of(old(self)@.addresses)),
                    readings@,
                ),
                needs_retry: some_failed(readings@),
                ..old(self)@
            }),
            tray::is_tray_of(tray@, table_items(final(self).listed())),
    {
        proof {
            assert(table::listed_keys(self.addresses@) =~= set_of(text::list(self.addresses@))) by {
                let shown = text::list(self.addresses@);
                assert forall|x: Seq<char>| table::listed_keys(self.addresses@).contains(
                    x,
                ) == shown.contains(x) by {
                    if shown.contains(x) {
                        let i = choose|i: int| 0 <= i < shown.len() && shown[i] == x;
                        assert(self.addresses@[i]@ == x);
                    }
                    if table::listed_keys(self.addresses@).contains(x) {
                        let i = choose|i: int|
                            0 <= i < self.addresses@.len() && (#[trigger] self.addresses@[i])@ == x;
                        assert(shown[i] == x);
                    }
                }
            }
        }
        self.needs_retry = reconcile_items(&mut self.items, &self.addresses, readings);
        tray_of(&self.items)
    }
}

/// The ids of the entries that have entries below them, each before those.
pub open spec fn submenu_ids(items: Seq<TrayMenuItem>) -> Seq<i32>
    decreases items,
{
    if items.len() == 0 {
        seq![]
    } else {
        submenu_ids(items.drop_last()) + if items.last().children@.len() == 0 {
            seq![]
        } else {
            seq![items.last().id] + submenu_ids(items.last().children@)
        }
    }
}

/// Collect the ids of the entries that have entries below them.
pub fn collect_submenu_ids(items: &Vec<TrayMenuItem>, ids: &mut Vec<i32>)
    ensures
        final(ids)@ == old(ids)@ + submenu_ids(items@),
    decreases *items,
{
    let ghost before = ids@;
    assert(before + submenu_ids(items@.take(0)) =~= before);
    let mut i: usize = 0;
    while i < items.len()
        invariant
            i <= items@.len(),
            ids@ == before + submenu_ids(items@.take(i as int)),
        decreases items@.len() - i,
    {
        let ghost part = items@.take(i + 1);
        let ghost so_far = ids@;
        assert(part.last() == items@[i as int]);
        assert(part.drop_last() =~= items@.take(i as int));
        if items[i].children.len() > 0 {
            ids.push(items[i].id);
            assert(decreases_to!(*items => items@[i as int]));
            collect_submenu_ids(&items[i].children, ids);
            assert(ids@ =~= so_far + (seq![items@[i as int].id] + submenu_ids(
                items@[i as int].children@,
            )));
        } else {
            assert(so_far + Seq::<i32>::empty() =~= so_far);
        }
        assert(ids@ =~= before + submenu_ids(part));
        i += 1;
    }
    assert(items@.take(i as int) =~= items@);
}

/// The menu of the item `key`, from the root of its layout.
pub fn menu_of(key: &str, revision: u32, root: TrayMenuItem) -> (menu: TrayMenu)
    ensures
        menu.key@ == key@,
        menu.revision == revision,
        menu.items == root.children,
{
    TrayMenu { key: key.to_owned(), revision, items: root.children }
}

/// The bus name and path of the item `key`, or why it cannot be reached.
pub fn item_target(key: &str) -> (target: Result<(String, String), String>)
    ensures
        match target {
            Ok((name, path)) => address_parts(key@) == Some((name@, path@)),
            Err(error) => address_parts(key@) is None && error@ == "bad address "@ + key@,
        },
{
    match parse_item_address(key) {
        Some(target) => Ok(target),
        None => Err(text::joined("bad address ", key)),
    }
}

/// The source of the tray.
#[derive(Debug, Clone, Copy, PartialEq, Eq, Structural)]
pub struct SniHostProducer;

impl SniHostProducer {
    /// A source of the tray.
    pub fn new() -> (producer: Self)
        ensures
            producer == SniHostProducer,
    {
        SniHostProducer
    }

    /// What the producer is called in logs.
    pub fn name(&self) -> (name: String)
        ensures
            name@ == "sni-host"@,
    {
        "sni-host".to_owned()
    }
}

impl Default for SniHostProducer {
    fn default() -> (producer: Self)
        ensures
            producer == SniHostProducer,
    {
        SniHostProducer::new()
    }
}

/// Whether the property `name` of a node stands at place `p`.
pub open spec fn has_property(layout: MenuLayout, name: Seq<char>, p: int) -> bool {
    &&& 0 <= p < layout.properties@.len()
    &&& layout.properties@[p].0@ == name
    &&& forall|q: int|
        p < q < layout.properties@.len() ==> (#[trigger] layout.properties@[q]).0@ != name
}

/// Whether a node does not have the property `name`.
pub open spec fn lacks_property(layout: MenuLayout, name: Seq<char>) -> bool {
    forall|q: int|
        0 <= q < layout.properties@.len() ==> (#[trigger] layout.properties@[q]).0@ != name
}

proof fn lemma_property_place(properties: Seq<(String, MenuValue)>, name: Seq<char>, p: int)
    requires
        -1 <= p < properties.len(),
        p >= 0 ==> properties[p].0@ == name,
        forall|q: int| p < q < properties.len() ==> (#[trigger] properties[q]).0@ != name,
    ensures
        property_place(properties, name) == if p >= 0 {
            Some(p)
        } else {
            None
        },
    decreases properties.len(),
{
    if properties.len() > 0 && p < properties.len() - 1 {
        let init = properties.drop_last();
        assert(properties[properties.len() - 1].0@ != name);
        assert forall|q: int| p < q < init.len() implies (#[trigger] init[q]).0@ != name by {
            assert(init[q] == properties[q]);
        }
        lemma_property_place(init, name, p);
    }
}

proof fn lemma_property(layout: MenuLayout, name: Seq<char>)
    ensures
        lacks_property(layout, name) ==> property_place(layout.properties@, name) is None,
        forall|p: int| #[trigger]
            has_property(layout, name, p) ==> property_place(layout.properties@, name) == Some(p),
{
    if lacks_property(layout, name) {
        lemma_property_place(layout.properties@, name, -1);
    }
    assert forall|p: int| #[trigger] has_property(layout, name, p) implies property_place(
        layout.properties@,
        name,
    ) == Some(p) by {
        lemma_property_place(layout.properties@, name, p);
    }
}

/// A menu entry that does not tell whether it is enabled is, and so it is with being
/// visible; one that tells is what it tells. The value of a property that is no truth
/// value tells nothing.
pub proof fn lemma_entries_are_enabled_and_visible_unless_told(
    layout: MenuLayout,
    item: TrayMenuItem,
    p: int,
)
    requires
        call_ensures(parse_raw_menu_layout, (&layout,), item),
    ensures
        lacks_property(layout, "enabled"@) ==> item.enabled,
        lacks_property(layout, "visible"@) ==> item.visible,
        has_property(layout, "enabled"@, p) ==> item.enabled == match layout.properties@[p].1 {
            MenuValue::Flag(flag) => flag,
            _ => true,
        },
        has_property(layout, "visible"@, p) ==> item.visible == match layout.properties@[p].1 {
            MenuValue::Flag(flag) => flag,
            _ => true,
        },
{
    lemma_property(layout, "enabled"@);
    lemma_property(layout, "visible"@);
}

/// A menu entry has the id of its node and the label it gives, or an empty one, and is a
/// separator exactly when its type says so.
pub proof fn lemma_entries_have_their_id_and_label(
    layout: MenuLayout,
    item: TrayMenuItem,
    p: int,
)
    requires
        call_ensures(parse_raw_menu_layout, (&layout,), item),
    ensures
        item.id == layout.id,
        lacks_property(layout, "label"@) ==> item.label@.len() == 0,
        has_property(layout, "label"@, p) ==> (match layout.properties@[p].1 {
            MenuValue::Text(text) => item.label@ == text@,
            _ => item.label@.len() == 0,
        }),
        lacks_property(layout, "type"@) ==> !item.separator,
        has_property(layout, "type"@, p) ==> item.separator == match layout.properties@[p].1 {
            MenuValue::Text(text) => text@ == "separator"@,
            _ => false,
        },
{
    lemma_property(layout, "label"@);
    lemma_property(layout, "type"@);
    reveal_strlit("separator");
    assert("separator"@.len() == 9);
}

/// A menu entry is a toggle exactly when its toggle type is one of the two there are, and
/// shows on for one, off for zero, and neither for anything else.
pub proof fn lemma_toggles_show_their_state(
    layout: MenuLayout,
    item: TrayMenuItem,
    p: int,
    q: int,
)
    requires
        call_ensures(parse_raw_menu_layout, (&layout,), item),
    ensures
        lacks_property(layout, "toggle-type"@) ==> item.toggle is None,
        has_property(layout, "toggle-type"@, p) ==> (match layout.properties@[p].1 {
            MenuValue::Text(kind) => {
                &&& kind@ == "checkmark"@ ==> (item.toggle matches Some(toggle) && toggle.kind
                    == TrayMenuToggleKind::Checkmark)
                &&& kind@ == "radio"@ ==> (item.toggle matches Some(toggle) && toggle.kind
                    == TrayMenuToggleKind::Radio)
                &&& kind@ != "checkmark"@ && kind@ != "radio"@ ==> item.toggle is None
            },
            _ => item.toggle is None,
        }),
        item.toggle matches Some(toggle) ==> {
            &&& lacks_property(layout, "toggle-state"@) ==> toggle.state
                == TrayMenuToggleState::Indeterminate
            &&& has_property(layout, "toggle-state"@, q) ==> (match layout.properties@[q].1 {
                MenuValue::Number(number) => {
                    &&& number == 0 <==> toggle.state == TrayMenuToggleState::Off
                    &&& number == 1 <==> toggle.state == TrayMenuToggleState::On
                },
                _ => toggle.state == TrayMenuToggleState::Indeterminate,
            })
        },
{
    lemma_property(layout, "toggle-type"@);
    lemma_property(layout, "toggle-state"@);
    reveal_strlit("checkmark");
    reveal_strlit("radio");
    assert("checkmark"@.len() == 9 && "radio"@.len() == 5);
}

/// How many of the first `n` values are nodes.
pub open spec fn nodes_before(values: Seq<MenuValue>, n: int) -> int
    decreases n,
{
    if n <= 0 {
        0
    } else {
        nodes_before(values, n - 1) + if values[n - 1] is Layout {
            1int
        } else {
            0
        }
    }
}

proof fn lemma_nodes(values: Seq<MenuValue>, items: Seq<TrayMenuItem>, n: int, j: int)
    requires
        0 <= j < n <= values.len(),
        all_described(values.take(n), items),
    ensures
        items.len() == nodes_before(values, n),
        0 <= nodes_before(values, j) <= nodes_before(values, n),
        values[j] matches MenuValue::Layout(layout) ==> nodes_before(values, j) < items.len()
            && describes(layout, items[nodes_before(values, j)]),
    decreases n,
{
    assert(values.take(n).drop_last() =~= values.take(n - 1));
    assert(values.take(n).last() == values[n - 1]);
    let rest = if values[n - 1] is Layout {
        items.drop_last()
    } else {
        items
    };
    assert(all_described(values.take(n - 1), rest));
    if n - 1 > 0 {
        lemma_nodes(
            values,
            rest,
            n - 1,
            if j < n - 1 {
                j
            } else {
                0
            },
        );
    } else {
        assert(values.take(n - 1).len() == 0);
        assert(rest.len() == 0);
        assert(nodes_before(values, n - 1) == 0);
    }
    assert(nodes_before(values, n) == nodes_before(values, n - 1) + if values[n - 1] is Layout {
        1int
    } else {
        0
    });
    lemma_nodes_grow(values, j, n);
    if j < n - 1 && values[j] is Layout {
        assert(rest[nodes_before(values, j)] == items[nodes_before(values, j)]);
    }
}

proof fn lemma_nodes_grow(values: Seq<MenuValue>, j: int, n: int)
    requires
        0 <= j <= n,
    ensures
        0 <= nodes_before(values, j) <= nodes_before(values, n),
    decreases n,
{
    if j < n {
        lemma_nodes_grow(values, j, n - 1);
    } else if n > 0 {
        lemma_nodes_grow(values, n - 1, n - 1);
    }
}

/// The entries below an entry are those of the nodes below its node, in order: each has
/// the id of its node and is what its node, parsed alone, comes to, as deep as they go.
pub proof fn lemma_entries_nest_like_their_nodes(
    layout: MenuLayout,
    item: TrayMenuItem,
    j: int,
    child: MenuLayout,
)
    requires
        call_ensures(parse_raw_menu_layout, (&layout,), item),
        0 <= j < layout.children@.len(),
        layout.children@[j] == MenuValue::Layout(child),
    ensures
        item.children@.len() == nodes_before(layout.children@, layout.children@.len() as int),
        0 <= nodes_before(layout.children@, j) < item.children@.len(),
        item.children@[nodes_before(layout.children@, j)].id == child.id,
        describes(child, item.children@[nodes_before(layout.children@, j)]),
{
    let n = layout.children@.len() as int;
    assert(layout.children@.take(n) =~= layout.children@);
    lemma_nodes(layout.children@, item.children@, n, j);
}

/// What is no node gives no entry.
pub proof fn lemma_only_nodes_are_entries(value: MenuValue, item: Option<TrayMenuItem>)
    requires
        call_ensures(parse_menu_layout, (value,), item),
    ensures
        item is Some <==> value is Layout,
        value matches MenuValue::Layout(layout) ==> item->0.id == layout.id,
{
}

/// A bus name alone stands for the usual path, and white space around an address does not
/// count.
pub proof fn lemma_a_bare_name_stands_for_the_usual_path(
    address: &str,
    name: Seq<char>,
    parts: Option<(String, String)>,
)
    requires
        call_ensures(parse_item_address, (address,), parts),
        text::trimmed(address@) == name,
        !name.contains('/'),
    ensures
        name.len() > 0 ==> (parts matches Some((bus, path)) && bus@ == name && path@
            == "/StatusNotifierItem"@),
        name.len() == 0 ==> parts is None,
{
    text::lemma_after_first(name, '/');
}

/// A path without a bus name leads nowhere.
pub proof fn lemma_a_path_alone_leads_nowhere(address: &str, parts: Option<(String, String)>)
    requires
        call_ensures(parse_item_address, (address,), parts),
        text::trimmed(address@).len() > 0,
        text::trimmed(address@)[0] == '/',
    ensures
        parts is None,
{
}

/// The icon that is chosen of several has at least as many pixels as every other one that
/// has four bytes for each of its pixels, and its own size.
pub proof fn lemma_the_largest_icon_is_chosen(pixmaps: Seq<RawPixmap>, i: int, j: int)
    requires
        is_largest(pixmaps, i),
        0 <= j < pixmaps.len(),
        pixmaps[j].0 > 0,
        pixmaps[j].1 > 0,
        pixmaps[j].2@.len() == 4 * (pixmaps[j].0 * pixmaps[j].1),
    ensures
        0 <= i < pixmaps.len(),
        pixmaps[i].0 > 0 && pixmaps[i].1 > 0,
        pixmaps[i].2@.len() == 4 * (pixmaps[i].0 * pixmaps[i].1),
        pixmaps[j].0 * pixmaps[j].1 <= pixmaps[i].0 * pixmaps[i].1,
{
    assert(is_usable(pixmaps[j]));
}

/// An item's own theme path is searched first, and of the shared directories those of
/// larger icons come before those of smaller ones.
pub proof fn lemma_larger_icons_are_looked_for_first(theme_path: &str, dirs: Vec<String>)
    requires
        call_ensures(icon_search_dirs, (theme_path,), dirs),
    ensures
        ({
            let own = if text::trimmed(theme_path@).len() == 0 {
                0int
            } else {
                1
            };
            let shared = "/usr/share/icons/hicolor"@;
            &&& dirs@.len() == own + 33
            &&& own == 1 ==> dirs@[0]@ == theme_path@
            &&& dirs@[own]@ == shared + "/"@ + "256x256"@ + "/apps"@
            &&& dirs@[own + 1]@ == shared + "/"@ + "256x256"@ + "/status"@
            &&& dirs@[own + 14]@ == shared + "/"@ + "16x16"@ + "/apps"@
            &&& dirs@[own + 32]@ == "/usr/share/pixmaps"@
        }),
{
    let sizes = icon_sizes();
    assert(sizes.len() == 8);
    let a = themed_dirs("/usr/share/icons/hicolor"@, sizes);
    let b = themed_dirs("/usr/local/share/icons/hicolor"@, sizes);
    lemma_themed("/usr/share/icons/hicolor"@, sizes, 0);
    lemma_themed("/usr/share/icons/hicolor"@, sizes, 7);
    lemma_themed("/usr/local/share/icons/hicolor"@, sizes, 0);
    let all = search_dirs(theme_path@);
    assert(text::list(dirs@) == all);
    let own = if text::trimmed(theme_path@).len() == 0 {
        0int
    } else {
        1
    };
    assert(all.len() == own + 33);
    assert(all[own] == a[0]);
    assert(all[own + 1] == a[1]);
    assert(all[own + 14] == a[14]);
    assert(all[own + 32] == "/usr/share/pixmaps"@);
    assert(forall|k: int| 0 <= k < dirs@.len() ==> #[trigger] text::list(dirs@)[k] == dirs@[k]@);
    assert(text::list(dirs@)[own] == dirs@[own]@);
    assert(text::list(dirs@)[own + 1] == dirs@[own + 1]@);
    assert(text::list(dirs@)[own + 14] == dirs@[own + 14]@);
    assert(text::list(dirs@)[own + 32] == dirs@[own + 32]@);
    if own == 1 {
        assert(all[0] == theme_path@);
        assert(text::list(dirs@)[0] == dirs@[0]@);
    }
}

proof fn lemma_themed(root: Seq<char>, sizes: Seq<Seq<char>>, k: int)
    requires
        0 <= k < sizes.len(),
    ensures
        themed_dirs(root, sizes).len() == 2 * sizes.len(),
        themed_dirs(root, sizes)[2 * k] == root + "/"@ + sizes[k] + "/apps"@,
        themed_dirs(root, sizes)[2 * k + 1] == root + "/"@ + sizes[k] + "/status"@,
    decreases sizes.len(),
{
    let init = sizes.drop_last();
    if k < init.len() {
        lemma_themed(root, init, k);
    } else if init.len() > 0 {
        lemma_themed(root, init, 0);
    } else {
        assert(themed_dirs(root, init).len() == 0);
    }
}

/// A tray item has its title, or its id where the title is blank; its key; and the urgency
/// that its status tells.
pub proof fn lemma_an_item_shows_what_was_read(
    key: &str,
    reading: ItemReading,
    icon: Option<TrayIcon>,
    item: Option<TrayItem>,
)
    requires
        call_ensures(item_from_reading, (key, &reading, icon), item),
    ensures
        item is Some <==> reading.id is Some,
        item is Some ==> {
            let shown = item->0@;
            &&& shown.key == key@
            &&& reading.title is Some && text::trimmed(reading.title->0@).len() > 0 ==> shown.title
                == reading.title->0@
            &&& reading.title is None ==> shown.title == reading.id->0@
            &&& reading.title is Some && text::trimmed(reading.title->0@).len() == 0 ==> shown.title
                == reading.id->0@
            &&& reading.status is Some && reading.status->0@ == "NeedsAttention"@ ==> shown.status
                == TrayStatus::NeedsAttention
            &&& reading.status is Some && reading.status->0@ == "Active"@ ==> shown.status
                == TrayStatus::Active
            &&& reading.status is None ==> shown.status == TrayStatus::Passive
            &&& shown.icon == tray::icon_view(icon)
        },
{
    reveal_strlit("NeedsAttention");
    reveal_strlit("Active");
    assert("NeedsAttention"@.len() == 14 && "Active"@.len() == 6);
}

/// An item has a menu exactly when it names a place for one; the primary button opens it
/// unless the item says that it is more than a menu.
pub proof fn lemma_a_menu_opens_by_the_button_it_asks_for(
    menu_path: Option<&str>,
    item_is_menu: Option<bool>,
    mode: TrayMenuMode,
)
    requires
        call_ensures(menu_mode, (menu_path, item_is_menu), mode),
    ensures
        mode == TrayMenuMode::Absent <==> menu_path is None || text::trimmed(menu_path->0@).len()
            == 0 || text::trimmed(menu_path->0@) == "/"@ || text::trimmed(menu_path->0@)
            == "/NO_DBUSMENU"@,
        mode != TrayMenuMode::Absent ==> (mode == TrayMenuMode::Secondary <==> item_is_menu == Some(
            false,
        )),
{
}

/// The last successful reading of an item is what is known of it.
pub proof fn lemma_a_reading_replaces_the_item(
    items: Map<Seq<char>, TrayItem>,
    readings: Seq<(String, Option<TrayItem>)>,
    i: int,
    item: TrayItem,
)
    requires
        0 <= i < readings.len(),
        readings[i].1 == Some(item),
        forall|j: int|
            i < j < readings.len() && (#[trigger] readings[j]).0@ == readings[i].0@
                ==> readings[j].1 is None,
    ensures
        with_readings(items, readings).dom().contains(readings[i].0@),
        with_readings(items, readings)[readings[i].0@] == item,
    decreases readings.len(),
{
    let rest = readings.skip(1);
    let (address, reading) = readings[0];
    let next = match reading {
        Some(item) => items.insert(address@, item),
        None => items,
    };
    if i == 0 {
        assert forall|j: int| 0 <= j < rest.len() && (#[trigger] rest[j]).0@ == address@ implies
            rest[j].1 is None by {
            assert(rest[j] == readings[j + 1]);
        }
        lemma_untouched(next, rest, address@);
    } else {
        assert(rest[i - 1] == readings[i]);
        assert forall|j: int|
            i - 1 < j < rest.len() && (#[trigger] rest[j]).0@ == rest[i - 1].0@ implies rest[j].1 is None by {
            assert(rest[j] == readings[j + 1]);
        }
        lemma_a_reading_replaces_the_item(next, rest, i - 1, item);
    }
}

/// An item that registers with a path alone is known by the bus name of its owner with the
/// path behind it, and any other by what it registered with. It is announced once.
pub proof fn lemma_an_item_is_registered_by_its_address(
    watcher: &mut Watcher,
    service: &str,
    owner: &str,
    registration: Option<Registration>,
)
    requires
        call_ensures(Watcher::register, (watcher, service, Some(owner)), registration),
    ensures
        registration is Some,
        service@.len() > 0 && service@[0] == '/' ==> registration->0.address@ == owner@ + service@,
        service@.len() == 0 || service@[0] != '/' ==> registration->0.address@ == service@,
        registration->0.inserted <==> !old(watcher)@.contains(registration->0.address@),
        final(watcher)@.contains(registration->0.address@),
        forall|other: Seq<char>|
            other != registration->0.address@ ==> (#[trigger] final(watcher)@.contains(other)
                == old(watcher)@.contains(other)),
{
}

/// A registration without an owner changes nothing.
pub proof fn lemma_without_an_owner_nothing_registers(
    watcher: &mut Watcher,
    service: &str,
    registration: Option<Registration>,
)
    requires
        call_ensures(Watcher::register, (watcher, service, None), registration),
    ensures
        registration is None,
        final(watcher)@ == old(watcher)@,
{
}

/// What failed is tried again after a second, and everything is read again after five.
pub proof fn lemma_failures_are_retried_sooner(host: TrayHost, nanos: u64)
    requires
        call_ensures(TrayHost::delay, (&host,), nanos),
    ensures
        host@.needs_retry ==> nanos == 1_000_000_000,
        !host@.needs_retry ==> nanos == 5_000_000_000,
{
}

/// When the watcher is lost, what is subscribed to is dropped, and it is restored at the
/// next poll, not before.
pub proof fn lemma_a_lost_watcher_is_restored_at_the_next_poll(
    host: &mut TrayHost,
    wake: SniWake,
    step: LifecycleStep,
)
    requires
        call_ensures(TrayHost::on_wake, (host, wake), step),
    ensures
        step == LifecycleStep::Drop <==> (wake matches SniWake::Lifecycle { open } && !open),
        step == LifecycleStep::Restore <==> wake is Poll && old(host)@.lifecycle_closed,
        final(host)@.lifecycle_closed <==> old(host)@.lifecycle_closed || step
            == LifecycleStep::Drop,
        final(host)@.items == old(host)@.items,
        final(host)@.addresses == old(host)@.addresses,
        final(host)@.needs_retry == old(host)@.needs_retry,
{
}

/// Items are read again whenever there is news, when the list changed, and when something
/// failed before; a mere poll that finds nothing of that reads nothing. A list that could
/// not be read is tried again.
pub proof fn lemma_items_are_read_when_something_happened(
    host: &mut TrayHost,
    wake: SniWake,
    addresses: Option<Vec<String>>,
    step: TrayStep,
)
    requires
        call_ensures(TrayHost::on_membership, (host, wake, addresses), step),
    ensures
        addresses is None ==> step == TrayStep::Wait && final(host)@.needs_retry
            && final(host)@.addresses == old(host)@.addresses,
        addresses is Some ==> {
            let changed = final(host)@.addresses != old(host)@.addresses;
            &&& step == TrayStep::Wait <==> wake is Poll && !changed && !old(host)@.needs_retry
            &&& step matches TrayStep::Read { rebuild } ==> (rebuild <==> changed || (
            wake matches SniWake::Item { open } && !open))
            &&& final(host)@.needs_retry == old(host)@.needs_retry
        },
        final(host)@.items == old(host)@.items,
{
}

/// The submenus that are read are those of entries with entries below them, and all of
/// those, at every depth.
pub proof fn lemma_every_submenu_is_listed(items: Seq<TrayMenuItem>, i: int, id: i32)
    requires
        0 <= i < items.len(),
        items[i].children@.len() > 0,
    ensures
        submenu_ids(items).contains(items[i].id),
        submenu_ids(items[i].children@).contains(id) ==> submenu_ids(items).contains(id),
    decreases items,
{
    let init = items.drop_last();
    let before = submenu_ids(init);
    let own = if items.last().children@.len() == 0 {
        seq![]
    } else {
        seq![items.last().id] + submenu_ids(items.last().children@)
    };
    let all = before + own;
    assert(submenu_ids(items) == all);
    if i < init.len() {
        assert(init[i] == items[i]);
        lemma_every_submenu_is_listed(init, i, id);
        let a = before.index_of(items[i].id);
        assert(all[a] == items[i].id);
        if submenu_ids(items[i].children@).contains(id) {
            let b = before.index_of(id);
            assert(all[b] == id);
        }
    } else {
        let n = before.len() as int;
        assert(all[n] == items[i].id);
        let below = submenu_ids(items[i].children@);
        if below.contains(id) {
            let b = below.index_of(id);
            assert(all[n + 1 + b] == id);
        }
    }
}

/// Entries without entries below them are no submenus.
pub proof fn lemma_flat_menus_have_no_submenus(items: Seq<TrayMenuItem>)
    requires
        forall|i: int| 0 <= i < items.len() ==> (#[trigger] items[i]).children@.len() == 0,
    ensures
        submenu_ids(items).len() == 0,
    decreases items.len(),
{
    if items.len() > 0 {
        let init = items.drop_last();
        assert forall|i: int| 0 <= i < init.len() implies (#[trigger] init[i]).children@.len()
            == 0 by {
            assert(init[i] == items[i]);
        }
        lemma_flat_menus_have_no_submenus(init);
        assert(items.last() == items[items.len() - 1]);
    }
}

/// Of several icons that can be decoded the largest one is, and of several that are as
/// large the last one.
pub proof fn lemma_the_last_of_the_largest_icons_is_chosen(
    pixmaps: Seq<RawPixmap>,
    i: int,
    j: int,
)
    requires
        is_largest(pixmaps, i),
        0 <= j < pixmaps.len(),
        pixmaps[j].0 > 0,
        pixmaps[j].1 > 0,
        pixmaps[j].2@.len() == 4 * (pixmaps[j].0 * pixmaps[j].1),
        forall|k: int|
            #![trigger pixmaps[k]]
            0 <= k < pixmaps.len() && k != j && pixmaps[k].0 > 0 && pixmaps[k].1 > 0
                && pixmaps[k].2@.len() == 4 * (pixmaps[k].0 * pixmaps[k].1) ==> pixmaps[k].0
                * pixmaps[k].1 < pixmaps[j].0 * pixmaps[j].1 || (k < j && pixmaps[k].0
                * pixmaps[k].1 == pixmaps[j].0 * pixmaps[j].1),
    ensures
        i == j,
{
    assert(is_usable(pixmaps[j]));
    assert(is_usable(pixmaps[i]));
    assert(area(pixmaps[j]) <= area(pixmaps[i]));
}

/// What came along is the icon; of a file it is the image in it, if that can be read.
pub proof fn lemma_an_icon_is_where_it_comes_from(
    source: IconSource,
    contents: Option<&[u8]>,
    icon: Option<TrayIcon>,
)
    requires
        call_ensures(resolve_icon, (source, contents), icon),
    ensures
        source matches IconSource::Embedded(given) ==> icon == Some(given),
        source is Missing ==> icon is None,
        source is File && contents is None ==> icon is None,
        source is File && contents is Some ==> (icon is Some <==> tray::png_image(
            contents->0@,
        ) is Some),
{
}

/// After a reading an item that was read is what was read; one that could not be read stays
/// as it was while its address is listed; and one that is neither is gone. Another try is
/// asked for exactly when one could not be read.
pub proof fn lemma_the_tray_follows_what_is_read(
    host: &mut TrayHost,
    readings: Vec<(String, Option<TrayItem>)>,
    tray: TrayState,
    i: int,
    address: Seq<char>,
)
    requires
        old(host).wf(),
        call_ensures(TrayHost::on_readings, (host, readings), tray),
        0 <= i < readings@.len(),
        forall|j: int|
            i < j < readings@.len() ==> (#[trigger] readings@[j]).0@ != readings@[i].0@,
    ensures
        readings@[i].1 is Some ==> final(host)@.items.dom().contains(readings@[i].0@)
            && final(host)@.items[readings@[i].0@] == readings@[i].1->0,
        (forall|j: int| 0 <= j < readings@.len() && (#[trigger] readings@[j]).0@ == address
            ==> readings@[j].1 is None) ==> {
            let listed = old(host)@.addresses.contains(address);
            &&& final(host)@.items.dom().contains(address) <==> listed && old(host)@.items.dom().contains(address)
            &&& listed && old(host)@.items.dom().contains(address)
                ==> final(host)@.items[address] == old(host)@.items[address]
        },
        final(host)@.needs_retry <==> exists|j: int|
            0 <= j < readings@.len() && (#[trigger] readings@[j]).1 is None,
        final(host)@.addresses == old(host)@.addresses,
        final(host)@.lifecycle_closed == old(host)@.lifecycle_closed,
{
    let kept = host@.items.restrict(set_of(host@.addresses));
    if readings@[i].1 is Some {
        lemma_a_reading_replaces_the_item(kept, readings@, i, readings@[i].1->0);
    }
    if forall|j: int|
        0 <= j < readings@.len() && (#[trigger] readings@[j]).0@ == address
            ==> readings@[j].1 is None {
        lemma_untouched(kept, readings@, address);
    }
}

/// A restored watch is no longer lost, and nothing else changes.
pub proof fn lemma_a_restored_watch_is_not_lost(host: &mut TrayHost)
    requires
        old(host).wf(),
        call_ensures(TrayHost::lifecycle_restored, (host,), ()),
    ensures
        !final(host)@.lifecycle_closed,
        final(host)@.items == old(host)@.items,
        final(host)@.addresses == old(host)@.addresses,
        final(host)@.needs_retry == old(host)@.needs_retry,
{
}

/// A host begins with the addresses that are there, each once, and no items.
pub proof fn lemma_a_host_begins_with_the_addresses(
    addresses: Vec<String>,
    host: TrayHost,
    i: int,
)
    requires
        call_ensures(TrayHost::start, (addresses,), host),
    ensures
        0 <= i < addresses@.len() ==> host@.addresses.contains(addresses@[i]@),
        0 <= i < host@.addresses.len() ==> text::list(addresses@).contains(host@.addresses[i]),
        0 < i < host@.addresses.len() ==> text::precedes(
            host@.addresses[i - 1],
            host@.addresses[i],
        ),
        forall|key: Seq<char>| !(#[trigger] host@.items.dom().contains(key)),
        !host@.needs_retry,
        !host@.lifecycle_closed,
{
    let given = text::list(addresses@);
    if 0 <= i < addresses@.len() {
        assert(given[i] == addresses@[i]@);
        assert(given.contains(given[i]));
    }
    if 0 <= i < host@.addresses.len() {
        assert(host@.addresses.contains(host@.addresses[i]));
    }
}

/// An address is registered once it is added, and is not once it is removed; the others
/// stay as they were.
pub proof fn lemma_an_address_is_registered_while_it_is_there(
    adding: &mut Watcher,
    removing: &mut Watcher,
    address: &str,
    inserted: bool,
    removed: bool,
    other: Seq<char>,
)
    requires
        old(adding).wf(),
        old(removing).wf(),
        call_ensures(Watcher::insert, (adding, address), inserted),
        call_ensures(Watcher::remove_registered_item, (removing, address), removed),
    ensures
        final(adding)@.contains(address@),
        inserted <==> !old(adding)@.contains(address@),
        !final(removing)@.contains(address@),
        removed <==> old(removing)@.contains(address@),
        other != address@ ==> (final(adding)@.contains(other) <==> old(adding)@.contains(other)),
        other != address@ ==> (final(removing)@.contains(other) <==> old(removing)@.contains(
            other,
        )),
{
}

/// The registered addresses are told, each of them and none besides.
pub proof fn lemma_registered_addresses_are_told(
    watcher: Watcher,
    addresses: Vec<String>,
    address: Seq<char>,
)
    requires
        call_ensures(Watcher::registered, (&watcher,), addresses),
    ensures
        watcher@.contains(address) <==> exists|i: int|
            0 <= i < addresses@.len() && (#[trigger] addresses@[i])@ == address,
{
    let told = text::list(addresses@);
    assert(watcher@ == text_set(addresses@));
    assert(watcher@.contains(address) <==> told.contains(address));
    if told.contains(address) {
        let i = choose|i: int| 0 <= i < told.len() && told[i] == address;
        assert(addresses@[i]@ == address);
    }
    if exists|i: int| 0 <= i < addresses@.len() && (#[trigger] addresses@[i])@ == address {
        let i = choose|i: int| 0 <= i < addresses@.len() && (#[trigger] addresses@[i])@ == address;
        assert(told[i] == address);
    }
}

/// Only a failure of the bus leaves no watcher.
pub proof fn lemma_only_the_bus_can_fail_the_watcher(
    reply: Result<NameReply, NameError>,
    usable: Result<(), String>,
)
    requires
        call_ensures(interpret_watcher_name, (reply,), usable),
    ensures
        usable is Err <==> reply is Err && reply->Err_0 is Bus,
        reply is Err && reply->Err_0 is Bus ==> usable->Err_0@ == reply->Err_0->Bus_0@,
{
}

/// The submenus that are collected come behind those that were, and are those of the menu.
pub proof fn lemma_submenus_are_collected(
    items: Vec<TrayMenuItem>,
    ids: &mut Vec<i32>,
    i: int,
    k: int,
)
    requires
        call_ensures(collect_submenu_ids, (&items, ids), ()),
    ensures
        final(ids)@.len() >= old(ids)@.len(),
        0 <= k < old(ids)@.len() ==> final(ids)@[k] == old(ids)@[k],
        0 <= i < items@.len() && items@[i].children@.len() > 0 ==> final(ids)@.contains(
            items@[i].id,
        ),
        (forall|j: int| 0 <= j < items@.len() ==> (#[trigger] items@[j]).children@.len() == 0)
            ==> final(ids)@.len() == old(ids)@.len(),
{
    let found = submenu_ids(items@);
    if 0 <= i < items@.len() && items@[i].children@.len() > 0 {
        lemma_every_submenu_is_listed(items@, i, 0);
        let p = choose|p: int| 0 <= p < found.len() && found[p] == items@[i].id;
        assert(final(ids)@[ids@.len() + p] == items@[i].id);
    }
    if forall|j: int| 0 <= j < items@.len() ==> (#[trigger] items@[j]).children@.len() == 0 {
        lemma_flat_menus_have_no_submenus(items@);
    }
}

/// A menu has the entries below the root of its layout, and the address and revision it
/// was read for.
pub proof fn lemma_a_menu_is_what_is_below_its_root(
    key: &str,
    revision: u32,
    root: TrayMenuItem,
    menu: TrayMenu,
)
    requires
        call_ensures(menu_of, (key, revision, root), menu),
    ensures
        menu.key@ == key@,
        menu.revision == revision,
        menu.items@ == root.children@,
{
}

/// An item is reached exactly where its address can be read, at the name and path it gives.
pub proof fn lemma_an_item_is_reached_by_its_address(
    key: &str,
    target: Result<(String, String), String>,
    parts: Option<(String, String)>,
)
    requires
        call_ensures(item_target, (key,), target),
        call_ensures(parse_item_address, (key,), parts),
    ensures
        target is Ok <==> parts is Some,
        target matches Ok((name, path)) ==> (parts matches Some((bus, at)) && name@ == bus@
            && path@ == at@),
        target is Err ==> target->Err_0@ == "bad address "@ + key@,
{
}

/// The name and the path of an address stand around its first slash, which begins the path.
pub proof fn lemma_an_address_is_parted_at_its_first_slash(
    address: &str,
    parts: Option<(String, String)>,
    name: Seq<char>,
    path: Seq<char>,
)
    requires
        call_ensures(parse_item_address, (address,), parts),
        text::trimmed(address@) == name + path,
        name.len() > 0,
        !name.contains('/'),
        path.len() > 0,
        path[0] == '/',
    ensures
        parts matches Some((bus, at)) && bus@ == name && at@ == path,
{
    let s = text::trimmed(address@);
    let i = name.len() as int;
    assert(s[i] == '/');
    assert(s.take(i) =~= name);
    text::lemma_around_first(s, '/', i);
    assert(seq!['/'] + s.skip(i + 1) =~= path);
    assert(s.skip(i) =~= path);
}

/// The icon of a bare name is the file of that name, `.png` behind it, in the first
/// directory that has one. A path that is a file stands for itself, and an empty name for
/// nothing.
pub proof fn lemma_an_icon_is_found_in_the_first_directory<F: Fn(&str) -> bool>(
    name: &str,
    dirs: Vec<String>,
    is_file: F,
    found: Option<String>,
)
    requires
        call_ensures(find_icon_file::<F>, (name, &dirs, is_file), found),
        dirs@.len() > 1,
        dirs@[0]@.len() > 0 && dirs@[0]@.last() != '/',
        dirs@[1]@.len() > 0 && dirs@[1]@.last() != '/',
    ensures
        ({
            let icon = text::trimmed(name@);
            let first = dirs@[0]@ + seq!['/'] + (icon + ".png"@);
            let second = dirs@[1]@ + seq!['/'] + (icon + ".png"@);
            &&& icon.len() == 0 ==> found is None
            &&& found is Some && icon[0] == '/' && !probe::answers(is_file, icon, false)
                ==> found->0@ == icon
            &&& found is Some && icon[0] != '/' && !probe::answers(is_file, first, false)
                ==> found->0@ == first
            &&& found is Some && icon[0] != '/' && !probe::answers(is_file, first, true)
                && !probe::answers(is_file, second, false) ==> found->0@ == second
            &&& found is Some ==> probe::answers(is_file, found->0@, true)
        }),
{
    let icon = text::trimmed(name@);
    if icon.len() > 0 && icon[0] != '/' {
        let file = icon + ".png"@;
        assert(file[0] == icon[0]);
        assert(icon_in(dirs@[0]@, icon) == dirs@[0]@ + seq!['/'] + file);
        assert(icon_in(dirs@[1]@, icon) == dirs@[1]@ + seq!['/'] + file);
        if found is Some {
            let i = choose|i: int|
                0 <= i < dirs@.len() && found->0@ == icon_in((#[trigger] dirs@[i])@, icon)
                    && probe::answers(is_file, found->0@, true) && forall|j: int|
                    0 <= j < i ==> probe::answers(
                        is_file,
                        icon_in((#[trigger] dirs@[j])@, icon),
                        false,
                    );
            if i > 0 {
                assert(probe::answers(is_file, icon_in(dirs@[0]@, icon), false));
            }
            if i > 1 {
                assert(probe::answers(is_file, icon_in(dirs@[1]@, icon), false));
            }
            assert(found->0@ == icon_in(dirs@[i]@, icon));
        }
    }
}

} // verus!
