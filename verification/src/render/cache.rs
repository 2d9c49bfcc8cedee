//! Bounded caches: shaped strings, and rasterised built-in icons.
//!
//! Values such as CPU percentages churn through many short strings. When a bound
//! is hit the cache is dropped wholesale, and what is live is made once more.

use super::RenderStats;
use crate::icon::BuiltinIcon;
use crate::table::{Key, Table};
use crate::text;
use vstd::prelude::*;

verus! {

/// Upper bound on cached shaped strings per context.
pub const TEXT_CACHE_LIMIT: usize = 256;

/// Upper bound on cached built-in icon rasters per context.
pub const ICON_CACHE_LIMIT: usize = 64;

/// The shaping box a string was laid out in. The font lives in the render
/// settings, and the cache is cleared whenever that changes.
#[derive(Debug, Clone, Copy, PartialEq, Eq)]
pub struct ShapeKey {
    /// The encoding of the line height.
    pub line_height: u32,
    /// Constrained box, or `None` for an unconstrained measurement.
    pub size: Option<(u32, u32)>,
}

/// Ink extents `(left, top, right, bottom)` of a shaped string, in buffer
/// coordinates.
pub type InkBounds = (i32, i32, i32, i32);

/// One shaped string, kept so an unchanged label is neither re-shaped between
/// layout and draw nor between frames.
pub struct ShapedText<B> {
    /// The laid-out glyphs.
    pub buffer: B,
    /// Widest layout run, rounded up.
    pub width: u32,
    /// Visible-ink extents once computed (`Some(None)` for inkless text).
    pub ink: Option<Option<InkBounds>>,
}

/// What a shaped string is found by: its text and its shaping box.
pub struct TextKey {
    /// The shaping box.
    pub shape: ShapeKey,
    /// The text.
    pub text: String,
}

impl View for TextKey {
    type V = (ShapeKey, Seq<char>);

    open spec fn view(&self) -> (ShapeKey, Seq<char>) {
        (self.shape, self.text@)
    }
}

impl Key for TextKey {
    fn same(&self, other: &Self) -> (equal: bool) {
        let boxes: bool = match (self.shape.size, other.shape.size) {
            (Some(a), Some(b)) => a.0 == b.0 && a.1 == b.1,
            (None, None) => true,
            _ => false,
        };
        boxes && self.shape.line_height == other.shape.line_height && text::same(
            self.text.as_str(),
            other.text.as_str(),
        )
    }
}

/// What a rasterised icon is found by: artwork, slot size and straight-alpha
/// color.
#[derive(Debug, Clone, Copy, PartialEq, Eq)]
pub struct IconKey {
    /// The icon.
    pub icon: BuiltinIcon,
    /// The slot's width and height.
    pub size: (u32, u32),
    /// The straight-alpha color.
    pub color: (u8, u8, u8, u8),
}

impl View for IconKey {
    type V = IconKey;

    open spec fn view(&self) -> IconKey {
        *self
    }
}

impl Key for IconKey {
    fn same(&self, other: &Self) -> (equal: bool) {
        self.icon == other.icon && self.size.0 == other.size.0 && self.size.1 == other.size.1
            && self.color.0 == other.color.0 && self.color.1 == other.color.1 && self.color.2
            == other.color.2 && self.color.3 == other.color.3
    }
}

/// A counter one step on, pinned at the largest value.
pub open spec fn counted(count: u32, step: int) -> u32 {
    if count + step > u32::MAX {
        u32::MAX
    } else {
        (count + step) as u32
    }
}

/// What a bounded cache holds before a new entry comes in: all it has, or
/// nothing when it is full.
pub open spec fn room_made<K, V>(entries: Map<K, V>, limit: int) -> Map<K, V> {
    if entries.dom().len() >= limit {
        Map::empty()
    } else {
        entries
    }
}

/// A bounded cache of shaped strings.
pub struct TextCache<B> {
    table: Table<TextKey, ShapedText<B>>,
}

impl<B> View for TextCache<B> {
    type V = Map<(ShapeKey, Seq<char>), ShapedText<B>>;

    closed spec fn view(&self) -> Map<(ShapeKey, Seq<char>), ShapedText<B>> {
        self.table@
    }
}

impl<B> TextCache<B> {
    /// The cache never holds more than its bound.
    pub closed spec fn wf(&self) -> bool {
        &&& self.table.wf()
        &&& self.table@.dom().finite()
        &&& self.table@.dom().len() <= TEXT_CACHE_LIMIT
    }

    /// A cache is within its bound.
    pub proof fn lemma_bounded(&self)
        requires
            self.wf(),
        ensures
            self@.dom().finite(),
            self@.dom().len() <= TEXT_CACHE_LIMIT,
    {
    }

    /// An empty cache.
    pub fn new() -> (cache: Self)
        ensures
            cache.wf(),
            cache@ == Map::<(ShapeKey, Seq<char>), ShapedText<B>>::empty(),
    {
        TextCache { table: Table::new() }
    }

    /// How many strings are cached.
    pub fn len(&self) -> (len: usize)
        requires
            self.wf(),
        ensures
            len == self@.dom().len(),
            len <= TEXT_CACHE_LIMIT,
    {
        self.table.len()
    }

    /// Drop every cached string.
    pub fn clear(&mut self)
        ensures
            final(self).wf(),
            final(self)@ == Map::<(ShapeKey, Seq<char>), ShapedText<B>>::empty(),
    {
        self.table.clear();
    }

    /// The shaped form of `text` in the `key` box, shaping it on a miss.
    ///
    /// A hit and a miss each count in `stats`. On a miss a full cache is dropped
    /// first.
    pub fn get_or_shape<F: FnOnce() -> ShapedText<B>>(
        &mut self,
        stats: &mut RenderStats,
        text: &str,
        key: ShapeKey,
        shape: F,
    ) -> (shaped: &mut ShapedText<B>)
        requires
            old(self).wf(),
            call_requires(shape, ()),
        ensures
            final(self).wf(),
            old(self)@.dom().contains((key, text@)) ==> {
                &&& *shaped == old(self)@[(key, text@)]
                &&& final(self)@ == old(self)@.insert((key, text@), *final(shaped))
                &&& *final(stats) == (RenderStats {
                    text_cache_hits: counted(old(stats).text_cache_hits, 1),
                    ..*old(stats)
                })
            },
            !old(self)@.dom().contains((key, text@)) ==> {
                &&& call_ensures(shape, (), *shaped)
                &&& final(self)@ == room_made(old(self)@, TEXT_CACHE_LIMIT as int).insert(
                    (key, text@),
                    *final(shaped),
                )
                &&& *final(stats) == (RenderStats {
                    text_shapes: counted(old(stats).text_shapes, 1),
                    ..*old(stats)
                })
            },
    {
        let found = TextKey { shape: key, text: text.to_owned() };
        if self.table.contains(&found) {
            stats.text_cache_hits = stats.text_cache_hits.saturating_add(1);
        } else {
            if self.table.len() >= TEXT_CACHE_LIMIT {
                self.table.clear();
            }
            stats.text_shapes = stats.text_shapes.saturating_add(1);
            let shaped: ShapedText<B> = shape();
            self.table.insert(TextKey { shape: key, text: text.to_owned() }, shaped);
        }
        let ghost now = self.table@;
        proof {
            assert forall|v: ShapedText<B>| #![trigger now.insert(found@, v)] now.insert(
                found@,
                v,
            ).dom() =~= now.dom() by {}
            assert forall|v: ShapedText<B>, w: ShapedText<B>|
                #![trigger now.insert(found@, v).insert(found@, w)]
                now.insert(found@, v).insert(found@, w) =~= now.insert(found@, w) by {}
            if !old(self)@.dom().contains(found@) {
                let room = room_made(old(self)@, TEXT_CACHE_LIMIT as int);
                assert forall|w: ShapedText<B>| #![trigger now.insert(found@, w)] now.insert(
                    found@,
                    w,
                ) =~= room.insert(found@, w) by {}
            }
        }
        self.table.at_mut(&found)
    }
}

} // verus!
