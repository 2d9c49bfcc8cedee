//! Validation: which configurations are refused, and why.
//!
//! A configuration may hold values that would render a blank or broken bar: an
//! out-of-range height or font size, an absurd margin or gap, a label format
//! with an unknown placeholder, or a monitor override with no name. Validation
//! finds the first such value, in a fixed order.

use super::color;
use super::{
    Config, ConfigView, FormatIconsConfig, MonitorConfig, MonitorConfigView, WidgetStyleConfig,
};
use super::style::{FormatIconsView, WidgetStyleConfigView};
use crate::number::{Double, Single, DOUBLE_HUNDRED, SINGLE_FIVE_HUNDRED_TWELVE, SINGLE_ONE};
use crate::text;
use vstd::prelude::*;
use vstd::string::StrSliceExecFns;
use vstd::string::StringExecFns;

verus! {

/// Smallest accepted bar height, in pixels (a zero-height bar is a broken surface).
pub const MIN_HEIGHT: u32 = 1;

/// Largest accepted bar height, in pixels; anything larger is surely a mistake.
pub const MAX_HEIGHT: u32 = 4096;

/// Largest accepted widget spacing/padding, in pixels.
pub const MAX_GAP: u32 = 4096;

/// A configured whole number with an accepted range.
#[derive(Debug, Clone, Copy, PartialEq, Eq, Structural)]
pub enum NumberField {
    /// The bar height.
    Height,
    /// The inset around the pill row.
    BarMargin,
    /// The gap between pills.
    BarGap,
}

/// A widget table with fields that validation looks at.
#[derive(Debug, Clone, Copy, PartialEq, Eq, Structural)]
pub enum StyleTable {
    /// `widget.battery`.
    Battery,
    /// `widget.backlight`.
    Backlight,
    /// `widget.power-profiles-daemon`.
    PowerProfiles,
    /// `widget.updates`.
    Updates,
}

/// What is wrong with a configured value.
#[derive(Debug, PartialEq, Eq)]
pub enum Fault {
    /// A monitor override has no name, so it can never match an output.
    EmptyMonitorName,
    /// A whole number is outside its range.
    OutOfRange { field: NumberField, value: u32, min: u32, max: u32 },
    /// A font size is not a finite number within the accepted range.
    FontSize { size: Single },
    /// A label format (or tooltip format) holds a placeholder its widget lacks.
    Placeholder { table: StyleTable, tooltip: bool, placeholder: String },
    /// The backlight icons are not a ramp.
    IconsNotARamp,
    /// The backlight ramp is empty or holds an empty icon.
    EmptyRampIcon,
    /// The power-profile icons are not a named table.
    IconsNotNamed,
    /// The power-profile icons are empty or hold an empty name or icon.
    EmptyNamedIcon,
    /// A scroll step is not a finite number above zero and up to a hundred.
    ScrollStep { step: Double },
    /// A backlight device is not the name of a sysfs device.
    Device { device: String },
}

/// The contents of a [`Fault`].
pub enum FaultView {
    EmptyMonitorName,
    OutOfRange { field: NumberField, value: u32, min: u32, max: u32 },
    FontSize { size: Single },
    Placeholder { table: StyleTable, tooltip: bool, placeholder: Seq<char> },
    IconsNotARamp,
    EmptyRampIcon,
    IconsNotNamed,
    EmptyNamedIcon,
    ScrollStep { step: Double },
    Device { device: Seq<char> },
}

impl View for Fault {
    type V = FaultView;

    open spec fn view(&self) -> FaultView {
        match *self {
            Fault::EmptyMonitorName => FaultView::EmptyMonitorName,
            Fault::OutOfRange { field, value, min, max } => FaultView::OutOfRange {
                field,
                value,
                min,
                max,
            },
            Fault::FontSize { size } => FaultView::FontSize { size },
            Fault::Placeholder { table, tooltip, placeholder } => FaultView::Placeholder {
                table,
                tooltip,
                placeholder: placeholder@,
            },
            Fault::IconsNotARamp => FaultView::IconsNotARamp,
            Fault::EmptyRampIcon => FaultView::EmptyRampIcon,
            Fault::IconsNotNamed => FaultView::IconsNotNamed,
            Fault::EmptyNamedIcon => FaultView::EmptyNamedIcon,
            Fault::ScrollStep { step } => FaultView::ScrollStep { step },
            Fault::Device { device } => FaultView::Device { device: device@ },
        }
    }
}

/// Why a configuration is refused: the first fault, and the monitor override it
/// stands in, if it does.
#[derive(Debug, PartialEq, Eq)]
pub struct InvalidConfig {
    /// The name of the monitor override the fault stands in.
    pub monitor: Option<String>,
    /// What is wrong.
    pub fault: Fault,
}

/// The contents of an [`InvalidConfig`].
pub struct InvalidConfigView {
    /// The name of the monitor override the fault stands in.
    pub monitor: Option<Seq<char>>,
    /// What is wrong.
    pub fault: FaultView,
}

impl View for InvalidConfig {
    type V = InvalidConfigView;

    open spec fn view(&self) -> InvalidConfigView {
        InvalidConfigView { monitor: text::optional(self.monitor), fault: self.fault@ }
    }
}

/// The first of two faults.
pub open spec fn first_fault(a: Option<FaultView>, b: Option<FaultView>) -> Option<FaultView> {
    if a is Some {
        a
    } else {
        b
    }
}

/// The fault of a whole number that must lie in `min..=max`.
pub open spec fn range_fault(field: NumberField, value: u32, min: u32, max: u32) -> Option<
    FaultView,
> {
    if min <= value <= max {
        None
    } else {
        Some(FaultView::OutOfRange { field, value, min, max })
    }
}

/// The fault of an optional whole number.
pub open spec fn optional_range_fault(
    field: NumberField,
    value: Option<u32>,
    min: u32,
    max: u32,
) -> Option<FaultView> {
    match value {
        Some(value) => range_fault(field, value, min, max),
        None => None,
    }
}

/// The fault of a font size.
pub open spec fn font_fault(size: Single) -> Option<FaultView> {
    if size.is_font_size() {
        None
    } else {
        Some(FaultView::FontSize { size })
    }
}

/// The fault of an optional font size.
pub open spec fn optional_font_fault(size: Option<Single>) -> Option<FaultView> {
    match size {
        Some(size) => font_fault(size),
        None => None,
    }
}

/// Whether the labels of a widget know the placeholder `{name}`.
pub open spec fn accepts(table: StyleTable, name: Seq<char>) -> bool {
    match table {
        StyleTable::Battery => name == "icon"@ || name == "percent"@ || name == "state"@,
        StyleTable::Backlight => name == "icon"@ || name == "percent"@,
        StyleTable::PowerProfiles => name == "icon"@ || name == "profile"@ || name == "driver"@
            || name == "cpu_driver"@ || name == "platform_driver"@,
        StyleTable::Updates => name == "icon"@ || name == "count"@,
    }
}

/// Where the first `c` of `s` stands; the length of `s` when there is none.
pub open spec fn place_of(s: Seq<char>, c: char) -> nat
    decreases s.len(),
{
    if s.len() == 0 || s[0] == c {
        0
    } else {
        1 + place_of(s.skip(1), c)
    }
}

proof fn lemma_place_of(s: Seq<char>, c: char)
    ensures
        place_of(s, c) <= s.len(),
        place_of(s, c) < s.len() ==> s[place_of(s, c) as int] == c,
        !s.take(place_of(s, c) as int).contains(c),
    decreases s.len(),
{
    if s.len() > 0 && s[0] != c {
        lemma_place_of(s.skip(1), c);
        let n = place_of(s.skip(1), c) as int;
        let head = s.take(n + 1);
        assert forall|i: int| 0 <= i < head.len() implies #[trigger] head[i] != c by {
            if i > 0 {
                assert(s.skip(1).take(n)[i - 1] == s[i]);
                assert(s.skip(1).take(n).contains(s[i]));
            }
        }
    }
}

proof fn lemma_place_of_is(s: Seq<char>, c: char, i: int)
    requires
        0 <= i <= s.len(),
        !s.take(i).contains(c),
        i < s.len() ==> s[i] == c,
    ensures
        place_of(s, c) == i,
    decreases s.len(),
{
    if i > 0 {
        assert(s.take(i)[0] == s[0]);
        assert(s.take(i).contains(s[0]));
        let rest = s.skip(1).take(i - 1);
        assert forall|k: int| 0 <= k < rest.len() implies #[trigger] rest[k] != c by {
            assert(s.take(i)[k + 1] == rest[k]);
            assert(s.take(i).contains(s.take(i)[k + 1]));
        }
        lemma_place_of_is(s.skip(1), c, i - 1);
    }
}

/// The first placeholder of a format that its widget does not know, braces
/// included. A brace that is never closed counts as one, with all behind it.
pub open spec fn bad_placeholder(table: StyleTable, format: Seq<char>) -> Option<Seq<char>>
    decreases format.len(),
    via bad_placeholder_decreases
{
    let open = place_of(format, '{') as int;
    if open == format.len() {
        None
    } else {
        let inside = format.skip(open + 1);
        let close = place_of(inside, '}') as int;
        if close == inside.len() {
            Some(format.skip(open))
        } else if accepts(table, inside.take(close)) {
            bad_placeholder(table, inside.skip(close + 1))
        } else {
            Some(format.subrange(open, open + close + 2))
        }
    }
}

#[via_fn]
proof fn bad_placeholder_decreases(table: StyleTable, format: Seq<char>) {
    let open = place_of(format, '{') as int;
    lemma_place_of(format, '{');
    let inside = format.skip(open + 1);
    lemma_place_of(inside, '}');
}

/// The fault of an optional label format.
pub open spec fn format_fault(
    table: StyleTable,
    tooltip: bool,
    format: Option<Seq<char>>,
) -> Option<FaultView> {
    match format {
        Some(format) => match bad_placeholder(table, format) {
            Some(placeholder) => Some(FaultView::Placeholder { table, tooltip, placeholder }),
            None => None,
        },
        None => None,
    }
}

/// The fault of the backlight icons: they must be a ramp of non-empty icons.
pub open spec fn ramp_fault(icons: Option<FormatIconsView>) -> Option<FaultView> {
    match icons {
        None => None,
        Some(FormatIconsView::Named(_)) => Some(FaultView::IconsNotARamp),
        Some(FormatIconsView::Ramp(ramp)) => if ramp.len() == 0 || ramp.contains(seq![]) {
            Some(FaultView::EmptyRampIcon)
        } else {
            None
        },
    }
}

/// Whether a named icon lacks a name or an icon.
pub open spec fn is_blank_pair(pair: (Seq<char>, Seq<char>)) -> bool {
    text::trimmed(pair.0).len() == 0 || pair.1.len() == 0
}

/// The fault of the power-profile icons: they must be a table of named icons.
pub open spec fn named_fault(icons: Option<FormatIconsView>) -> Option<FaultView> {
    match icons {
        None => None,
        Some(FormatIconsView::Ramp(_)) => Some(FaultView::IconsNotNamed),
        Some(FormatIconsView::Named(pairs)) => if pairs.len() == 0 || exists|i: int|
            0 <= i < pairs.len() && is_blank_pair(#[trigger] pairs[i]) {
            Some(FaultView::EmptyNamedIcon)
        } else {
            None
        },
    }
}

/// The fault of a scroll step.
pub open spec fn step_fault(step: Option<Double>) -> Option<FaultView> {
    match step {
        Some(step) => if step.is_percent_step() {
            None
        } else {
            Some(FaultView::ScrollStep { step })
        },
        None => None,
    }
}

/// Whether `device` can name a sysfs device: not blank, no path.
pub open spec fn is_device_name(device: Seq<char>) -> bool {
    &&& text::trimmed(device).len() > 0
    &&& !device.contains('/')
    &&& device != "."@
    &&& device != ".."@
}

/// The fault of a backlight device name.
pub open spec fn device_fault(device: Option<Seq<char>>) -> Option<FaultView> {
    match device {
        Some(device) => if is_device_name(device) {
            None
        } else {
            Some(FaultView::Device { device })
        },
        None => None,
    }
}

/// The first fault of a backlight table.
pub open spec fn backlight_fault(table: WidgetStyleConfigView) -> Option<FaultView> {
    first_fault(
        format_fault(StyleTable::Backlight, false, table.format),
        first_fault(
            ramp_fault(table.format_icons),
            first_fault(step_fault(table.scroll_step), device_fault(table.device)),
        ),
    )
}

/// The first fault of a battery table.
pub open spec fn battery_fault(table: WidgetStyleConfigView) -> Option<FaultView> {
    format_fault(StyleTable::Battery, false, table.format)
}

/// The first fault of a power-profiles table.
pub open spec fn power_profiles_fault(table: WidgetStyleConfigView) -> Option<FaultView> {
    first_fault(
        format_fault(StyleTable::PowerProfiles, false, table.format),
        first_fault(
            format_fault(StyleTable::PowerProfiles, true, table.tooltip_format),
            named_fault(table.format_icons),
        ),
    )
}

/// The first fault of an updates table.
pub open spec fn updates_fault(table: WidgetStyleConfigView) -> Option<FaultView> {
    format_fault(StyleTable::Updates, false, table.format)
}

/// The first fault of the global values.
pub open spec fn global_fault(config: ConfigView) -> Option<FaultView> {
    first_fault(
        range_fault(NumberField::Height, config.height, MIN_HEIGHT, MAX_HEIGHT),
        first_fault(
            font_fault(config.font.size),
            first_fault(
                range_fault(NumberField::BarMargin, config.bar.margin, 0, MAX_GAP),
                first_fault(
                    range_fault(NumberField::BarGap, config.bar.gap, 0, MAX_GAP),
                    first_fault(
                        battery_fault(config.widget.battery),
                        first_fault(
                            backlight_fault(config.widget.backlight),
                            first_fault(
                                power_profiles_fault(config.widget.power_profiles_daemon),
                                updates_fault(config.widget.updates),
                            ),
                        ),
                    ),
                ),
            ),
        ),
    )
}

/// The first fault of a monitor override with a name.
pub open spec fn override_fault(monitor: MonitorConfigView) -> Option<FaultView> {
    first_fault(
        optional_range_fault(NumberField::Height, monitor.height, MIN_HEIGHT, MAX_HEIGHT),
        first_fault(
            optional_font_fault(monitor.font.size),
            first_fault(
                optional_range_fault(NumberField::BarMargin, monitor.bar.margin, 0, MAX_GAP),
                first_fault(
                    optional_range_fault(NumberField::BarGap, monitor.bar.gap, 0, MAX_GAP),
                    first_fault(
                        backlight_fault(monitor.widget.backlight),
                        first_fault(
                            battery_fault(monitor.widget.battery),
                            first_fault(
                                power_profiles_fault(monitor.widget.power_profiles_daemon),
                                updates_fault(monitor.widget.updates),
                            ),
                        ),
                    ),
                ),
            ),
        ),
    )
}

/// Why a monitor override is refused.
pub open spec fn monitor_problem(monitor: MonitorConfigView) -> Option<InvalidConfigView> {
    if text::trimmed(monitor.name).len() == 0 {
        Some(InvalidConfigView { monitor: None, fault: FaultView::EmptyMonitorName })
    } else {
        match override_fault(monitor) {
            Some(fault) => Some(InvalidConfigView { monitor: Some(monitor.name), fault }),
            None => None,
        }
    }
}

/// Why the first refused monitor override is refused.
pub open spec fn monitors_problem(monitors: Seq<MonitorConfigView>) -> Option<InvalidConfigView>
    decreases monitors.len(),
{
    if monitors.len() == 0 {
        None
    } else {
        match monitor_problem(monitors[0]) {
            Some(problem) => Some(problem),
            None => monitors_problem(monitors.skip(1)),
        }
    }
}

/// Why a configuration is refused, if it is: the first fault of its global
/// values, else of its monitor overrides in order.
pub open spec fn config_problem(config: ConfigView) -> Option<InvalidConfigView> {
    match global_fault(config) {
        Some(fault) => Some(InvalidConfigView { monitor: None, fault }),
        None => monitors_problem(config.monitors),
    }
}

/// Reject a number outside `min..=max`.
pub fn validate_range(field: NumberField, value: u32, min: u32, max: u32) -> (result: Result<
    (),
    Fault,
>)
    ensures
        match result {
            Ok(_) => range_fault(field, value, min, max) is None,
            Err(fault) => range_fault(field, value, min, max) == Some(fault@),
        },
{
    if min <= value && value <= max {
        Ok(())
    } else {
        Err(Fault::OutOfRange { field, value, min, max })
    }
}

fn validate_optional_range(field: NumberField, value: Option<u32>, min: u32, max: u32) -> (result:
    Result<(), Fault>)
    ensures
        match result {
            Ok(_) => optional_range_fault(field, value, min, max) is None,
            Err(fault) => optional_range_fault(field, value, min, max) == Some(fault@),
        },
{
    match value {
        Some(value) => validate_range(field, value, min, max),
        None => Ok(()),
    }
}

/// Reject a font size that is not a finite number within the accepted range.
pub fn validate_font_size(size: Single) -> (result: Result<(), Fault>)
    ensures
        match result {
            Ok(_) => font_fault(size) is None,
            Err(fault) => font_fault(size) == Some(fault@),
        },
{
    if SINGLE_ONE <= size.bits && size.bits <= SINGLE_FIVE_HUNDRED_TWELVE {
        Ok(())
    } else {
        Err(Fault::FontSize { size })
    }
}

fn knows(table: StyleTable, name: &str) -> (known: bool)
    ensures
        known == accepts(table, name@),
{
    match table {
        StyleTable::Battery => text::same(name, "icon") || text::same(name, "percent")
            || text::same(name, "state"),
        StyleTable::Backlight => text::same(name, "icon") || text::same(name, "percent"),
        StyleTable::PowerProfiles => text::same(name, "icon") || text::same(name, "profile")
            || text::same(name, "driver") || text::same(name, "cpu_driver") || text::same(
            name,
            "platform_driver",
        ),
        StyleTable::Updates => text::same(name, "icon") || text::same(name, "count"),
    }
}

/// Find the first placeholder of `format` that the widget does not know.
pub fn find_bad_placeholder(table: StyleTable, format: &str) -> (placeholder: Option<String>)
    ensures
        text::optional(placeholder) == bad_placeholder(table, format@),
{
    let mut rest: &str = format;
    loop
        invariant
            bad_placeholder(table, rest@) == bad_placeholder(table, format@),
        decreases rest@.len(),
    {
        let len: usize = rest.unicode_len();
        let open: usize = match text::find(rest, '{') {
            Some(open) => open,
            None => {
                proof {
                    assert(rest@.take(len as int) =~= rest@);
                    lemma_place_of_is(rest@, '{', len as int);
                }
                return None;
            },
        };
        proof {
            lemma_place_of_is(rest@, '{', open as int);
        }
        let inside: &str = rest.substring_char(open + 1, len);
        assert(inside@ =~= rest@.skip(open + 1));
        let close: usize = match text::find(inside, '}') {
            Some(close) => close,
            None => {
                proof {
                    assert(inside@.take(inside@.len() as int) =~= inside@);
                    lemma_place_of_is(inside@, '}', inside@.len() as int);
                }
                let unclosed: &str = rest.substring_char(open, len);
                assert(unclosed@ =~= rest@.skip(open as int));
                return Some(unclosed.to_owned());
            },
        };
        proof {
            lemma_place_of_is(inside@, '}', close as int);
        }
        let name: &str = inside.substring_char(0, close);
        assert(name@ =~= inside@.take(close as int));
        if !knows(table, name) {
            let found: &str = rest.substring_char(open, open + close + 2);
            return Some(found.to_owned());
        }
        let next: &str = inside.substring_char(close + 1, inside.unicode_len());
        assert(next@ =~= inside@.skip(close + 1));
        rest = next;
    }
}

fn validate_format(table: StyleTable, tooltip: bool, format: &Option<String>) -> (result: Result<
    (),
    Fault,
>)
    ensures
        match result {
            Ok(_) => format_fault(table, tooltip, text::optional(*format)) is None,
            Err(fault) => format_fault(table, tooltip, text::optional(*format)) == Some(fault@),
        },
{
    match format {
        Some(format) => match find_bad_placeholder(table, format.as_str()) {
            Some(placeholder) => Err(Fault::Placeholder { table, tooltip, placeholder }),
            None => Ok(()),
        },
        None => Ok(()),
    }
}

fn has_empty_text(texts: &Vec<String>) -> (found: bool)
    ensures
        found == text::list(texts@).contains(seq![]),
{
    let mut i: usize = 0;
    while i < texts.len()
        invariant
            i <= texts@.len(),
            forall|k: int| 0 <= k < i ==> (#[trigger] texts@[k])@ != Seq::<char>::empty(),
        decreases texts@.len() - i,
    {
        if texts[i].as_str().is_empty() {
            proof {
                assert(text::list(texts@)[i as int] =~= seq![]);
            }
            return true;
        }
        i += 1;
    }
    assert forall|k: int| 0 <= k < text::list(texts@).len() implies text::list(texts@)[k]
        != Seq::<char>::empty() by {
        assert(texts@[k]@ != Seq::<char>::empty());
    }
    false
}

fn validate_ramp(icons: &Option<FormatIconsConfig>) -> (result: Result<(), Fault>)
    ensures
        match result {
            Ok(_) => ramp_fault(super::style::optional_icons(*icons)) is None,
            Err(fault) => ramp_fault(super::style::optional_icons(*icons)) == Some(fault@),
        },
{
    match icons {
        Some(icons) => match icons.ramp() {
            Some(ramp) => if ramp.len() == 0 || has_empty_text(ramp) {
                Err(Fault::EmptyRampIcon)
            } else {
                Ok(())
            },
            None => Err(Fault::IconsNotARamp),
        },
        None => Ok(()),
    }
}

fn has_blank_pair(pairs: &Vec<(String, String)>) -> (found: bool)
    ensures
        found == exists|i: int|
            0 <= i < pairs@.len() && is_blank_pair(
                #[trigger] super::style::pair_texts(pairs@)[i],
            ),
{
    let mut i: usize = 0;
    while i < pairs.len()
        invariant
            i <= pairs@.len(),
            forall|k: int|
                0 <= k < i ==> !is_blank_pair(#[trigger] super::style::pair_texts(pairs@)[k]),
        decreases pairs@.len() - i,
    {
        let name: &str = text::trim(pairs[i].0.as_str());
        if name.is_empty() || pairs[i].1.as_str().is_empty() {
            assert(is_blank_pair(super::style::pair_texts(pairs@)[i as int]));
            return true;
        }
        i += 1;
    }
    false
}

fn validate_named(icons: &Option<FormatIconsConfig>) -> (result: Result<(), Fault>)
    ensures
        match result {
            Ok(_) => named_fault(super::style::optional_icons(*icons)) is None,
            Err(fault) => named_fault(super::style::optional_icons(*icons)) == Some(fault@),
        },
{
    match icons {
        Some(icons) => match icons.named() {
            Some(pairs) => if pairs.len() == 0 || has_blank_pair(pairs) {
                Err(Fault::EmptyNamedIcon)
            } else {
                Ok(())
            },
            None => Err(Fault::IconsNotNamed),
        },
        None => Ok(()),
    }
}

fn validate_step(step: Option<Double>) -> (result: Result<(), Fault>)
    ensures
        match result {
            Ok(_) => step_fault(step) is None,
            Err(fault) => step_fault(step) == Some(fault@),
        },
{
    match step {
        Some(step) => if 0 < step.bits && step.bits <= DOUBLE_HUNDRED {
            Ok(())
        } else {
            Err(Fault::ScrollStep { step })
        },
        None => Ok(()),
    }
}

fn validate_device(device: &Option<String>) -> (result: Result<(), Fault>)
    ensures
        match result {
            Ok(_) => device_fault(text::optional(*device)) is None,
            Err(fault) => device_fault(text::optional(*device)) == Some(fault@),
        },
{
    match device {
        Some(device) => {
            let name: &str = device.as_str();
            if text::trim(name).is_empty() || text::contains_char(name, '/') || text::same(name, ".")
                || text::same(name, "..") {
                Err(Fault::Device { device: device.clone() })
            } else {
                Ok(())
            }
        },
        None => Ok(()),
    }
}

/// Check the fields of a backlight table.
pub fn validate_backlight_config(config: &WidgetStyleConfig) -> (result: Result<(), Fault>)
    ensures
        match result {
            Ok(_) => backlight_fault(config@) is None,
            Err(fault) => backlight_fault(config@) == Some(fault@),
        },
{
    if let Err(fault) = validate_format(StyleTable::Backlight, false, &config.format) {
        return Err(fault);
    }
    if let Err(fault) = validate_ramp(&config.format_icons) {
        return Err(fault);
    }
    if let Err(fault) = validate_step(config.scroll_step) {
        return Err(fault);
    }
    validate_device(&config.device)
}

/// Check the fields of a battery table.
pub fn validate_battery_config(config: &WidgetStyleConfig) -> (result: Result<(), Fault>)
    ensures
        match result {
            Ok(_) => battery_fault(config@) is None,
            Err(fault) => battery_fault(config@) == Some(fault@),
        },
{
    validate_format(StyleTable::Battery, false, &config.format)
}

/// Check the fields of a power-profiles table.
pub fn validate_power_profiles_config(config: &WidgetStyleConfig) -> (result: Result<(), Fault>)
    ensures
        match result {
            Ok(_) => power_profiles_fault(config@) is None,
            Err(fault) => power_profiles_fault(config@) == Some(fault@),
        },
{
    if let Err(fault) = validate_format(StyleTable::PowerProfiles, false, &config.format) {
        return Err(fault);
    }
    if let Err(fault) = validate_format(StyleTable::PowerProfiles, true, &config.tooltip_format) {
        return Err(fault);
    }
    validate_named(&config.format_icons)
}

/// Check the fields of an updates table.
pub fn validate_updates_config(config: &WidgetStyleConfig) -> (result: Result<(), Fault>)
    ensures
        match result {
            Ok(_) => updates_fault(config@) is None,
            Err(fault) => updates_fault(config@) == Some(fault@),
        },
{
    validate_format(StyleTable::Updates, false, &config.format)
}

impl MonitorConfig {
    /// Check the values of a monitor override with a name.
    fn validate(&self) -> (result: Result<(), Fault>)
        ensures
            match result {
                Ok(_) => override_fault(self@) is None,
                Err(fault) => override_fault(self@) == Some(fault@),
            },
    {
        if let Err(fault) = validate_optional_range(
            NumberField::Height,
            self.height,
            MIN_HEIGHT,
            MAX_HEIGHT,
        ) {
            return Err(fault);
        }
        if let Some(size) = self.font.size {
            if let Err(fault) = validate_font_size(size) {
                return Err(fault);
            }
        }
        if let Err(fault) = validate_optional_range(
            NumberField::BarMargin,
            self.bar.margin,
            0,
            MAX_GAP,
        ) {
            return Err(fault);
        }
        if let Err(fault) = validate_optional_range(NumberField::BarGap, self.bar.gap, 0, MAX_GAP) {
            return Err(fault);
        }
        if let Err(fault) = validate_backlight_config(&self.widget.backlight) {
            return Err(fault);
        }
        if let Err(fault) = validate_battery_config(&self.widget.battery) {
            return Err(fault);
        }
        if let Err(fault) = validate_power_profiles_config(&self.widget.power_profiles_daemon) {
            return Err(fault);
        }
        validate_updates_config(&self.widget.updates)
    }
}

impl Config {
    /// Check the global values, in order.
    fn validate_global(&self) -> (result: Result<(), Fault>)
        ensures
            match result {
                Ok(_) => global_fault(self@) is None,
                Err(fault) => global_fault(self@) == Some(fault@),
            },
    {
        if let Err(fault) = validate_range(
            NumberField::Height,
            self.height,
            MIN_HEIGHT,
            MAX_HEIGHT,
        ) {
            return Err(fault);
        }
        if let Err(fault) = validate_font_size(self.font.size) {
            return Err(fault);
        }
        if let Err(fault) = validate_range(NumberField::BarMargin, self.bar.margin, 0, MAX_GAP) {
            return Err(fault);
        }
        if let Err(fault) = validate_range(NumberField::BarGap, self.bar.gap, 0, MAX_GAP) {
            return Err(fault);
        }
        if let Err(fault) = validate_battery_config(&self.widget.battery) {
            return Err(fault);
        }
        if let Err(fault) = validate_backlight_config(&self.widget.backlight) {
            return Err(fault);
        }
        if let Err(fault) = validate_power_profiles_config(&self.widget.power_profiles_daemon) {
            return Err(fault);
        }
        validate_updates_config(&self.widget.updates)
    }

    /// Validate the configured values, rejecting ones that would render a blank
    /// or broken bar: an out-of-range height or font size, an absurd bar margin
    /// or gap, a malformed widget table, or a monitor override with no name (it
    /// can never match an output). The error names the first offending field.
    pub fn validate(&self) -> (result: Result<(), InvalidConfig>)
        ensures
            match result {
                Ok(_) => config_problem(self@) is None,
                Err(problem) => config_problem(self@) == Some(problem@),
            },
    {
        if let Err(fault) = self.validate_global() {
            return Err(InvalidConfig { monitor: None, fault });
        }
        let ghost all = self@.monitors;
        assert(all.skip(0) =~= all);
        let mut i: usize = 0;
        while i < self.monitors.len()
            invariant
                i <= self.monitors@.len(),
                all == super::monitor_views(self.monitors@),
                self@.monitors == all,
                global_fault(self@) is None,
                monitors_problem(all) == monitors_problem(all.skip(i as int)),
            decreases self.monitors@.len() - i,
        {
            let monitor: &MonitorConfig = &self.monitors[i];
            assert(all.skip(i as int)[0] == monitor@);
            assert(all.skip(i as int).skip(1) =~= all.skip(i + 1));
            if text::trim(monitor.name.as_str()).is_empty() {
                return Err(InvalidConfig { monitor: None, fault: Fault::EmptyMonitorName });
            }
            if let Err(fault) = monitor.validate() {
                return Err(InvalidConfig { monitor: Some(monitor.name.clone()), fault });
            }
            i += 1;
        }
        assert(all.skip(i as int).len() == 0);
        Ok(())
    }
}

/// A valid override folded onto valid values is valid: what was accepted for
/// the whole configuration is accepted on every output.
pub proof fn lemma_valid_config_is_valid_on_every_output(
    config: ConfigView,
    output: Option<Seq<char>>,
)
    requires
        config_problem(config) is None,
    ensures
        config_problem(config.for_output(output)) is None,
{
    let resolved = config.for_output(output);
    assert(resolved.monitors =~= seq![]);
    if let Some(name) = output {
        if let Some(monitor) = super::first_named(config.monitors, name) {
            lemma_named_override_is_valid(config.monitors, name);
        }
    }
}

proof fn lemma_named_override_is_valid(monitors: Seq<MonitorConfigView>, name: Seq<char>)
    requires
        monitors_problem(monitors) is None,
        super::first_named(monitors, name) is Some,
    ensures
        override_fault(super::first_named(monitors, name)->0) is None,
    decreases monitors.len(),
{
    if monitors[0].name != name {
        lemma_named_override_is_valid(monitors.skip(1), name);
    }
}

/// The documented defaults are valid.
pub proof fn lemma_defaults_are_valid()
    ensures
        config_problem(ConfigView::builtin()) is None,
{
}

/// Whether every placeholder of an optional label is one that its widget knows.
pub open spec fn label_fits(table: StyleTable, format: Option<Seq<char>>) -> bool {
    format is Some ==> bad_placeholder(table, format->0) is None
}

/// Whether a backlight table can be used: its label knows its placeholders, its icons are
/// a ramp without gaps, its step is above zero and up to a hundred, and its device is the
/// name of one.
pub open spec fn backlight_fits(table: WidgetStyleConfigView) -> bool {
    &&& label_fits(StyleTable::Backlight, table.format)
    &&& table.format_icons is Some ==> (table.format_icons->0 matches FormatIconsView::Ramp(ramp)
        && ramp.len() > 0 && forall|i: int| 0 <= i < ramp.len() ==> (#[trigger] ramp[i]).len() > 0)
    &&& table.scroll_step is Some ==> 0 < table.scroll_step->0.bits <= 0x4059_0000_0000_0000
    &&& table.device is Some ==> {
        &&& text::trimmed(table.device->0).len() > 0
        &&& forall|i: int|
            0 <= i < table.device->0.len() ==> #[trigger] table.device->0[i] != '/'
        &&& table.device->0 != "."@
        &&& table.device->0 != ".."@
    }
}

/// Whether a power-profiles table can be used: its label and its tooltip know their
/// placeholders, and its icons are a table without gaps.
pub open spec fn profiles_fit(table: WidgetStyleConfigView) -> bool {
    &&& label_fits(StyleTable::PowerProfiles, table.format)
    &&& label_fits(StyleTable::PowerProfiles, table.tooltip_format)
    &&& table.format_icons is Some ==> (table.format_icons->0 matches FormatIconsView::Named(pairs)
        && pairs.len() > 0 && forall|i: int|
        0 <= i < pairs.len() ==> text::trimmed((#[trigger] pairs[i]).0).len() > 0
            && pairs[i].1.len() > 0)
}

/// Whether the lengths and the font of a bar can be used: a height from 1 to 4096, a margin
/// and a gap up to 4096, and a font size from 1 to 512.
pub open spec fn bar_fits(
    height: Option<u32>,
    margin: Option<u32>,
    gap: Option<u32>,
    size: Option<Single>,
) -> bool {
    &&& height is Some ==> 1 <= height->0 <= 4096
    &&& margin is Some ==> margin->0 <= 4096
    &&& gap is Some ==> gap->0 <= 4096
    &&& size is Some ==> 0x3F80_0000 <= size->0.bits <= 0x4400_0000
}

/// Whether a monitor override can be used: it has a name, and what it sets can be used.
pub open spec fn override_fits(monitor: MonitorConfigView) -> bool {
    &&& text::trimmed(monitor.name).len() > 0
    &&& bar_fits(monitor.height, monitor.bar.margin, monitor.bar.gap, monitor.font.size)
    &&& backlight_fits(monitor.widget.backlight)
    &&& label_fits(StyleTable::Battery, monitor.widget.battery.format)
    &&& profiles_fit(monitor.widget.power_profiles_daemon)
    &&& label_fits(StyleTable::Updates, monitor.widget.updates.format)
}

proof fn lemma_backlight_fits(table: WidgetStyleConfigView)
    ensures
        backlight_fault(table) is None <==> backlight_fits(table),
{
    match table.format_icons {
        Some(FormatIconsView::Ramp(ramp)) => {
            if ramp.contains(seq![]) {
                let i = choose|i: int| 0 <= i < ramp.len() && ramp[i] == Seq::<char>::empty();
                assert(ramp[i].len() == 0);
            }
            if exists|i: int| 0 <= i < ramp.len() && (#[trigger] ramp[i]).len() == 0 {
                let i = choose|i: int| 0 <= i < ramp.len() && (#[trigger] ramp[i]).len() == 0;
                assert(ramp[i] =~= seq![]);
                assert(ramp.contains(ramp[i]));
            }
        },
        _ => {},
    }
    match table.device {
        Some(device) => {
            if device.contains('/') {
                let i = choose|i: int| 0 <= i < device.len() && device[i] == '/';
                assert(table.device->0[i] == '/');
            }
        },
        None => {},
    }
}

proof fn lemma_profiles_fit(table: WidgetStyleConfigView)
    ensures
        power_profiles_fault(table) is None <==> profiles_fit(table),
{
    match table.format_icons {
        Some(FormatIconsView::Named(pairs)) => {
            if exists|i: int| 0 <= i < pairs.len() && is_blank_pair(#[trigger] pairs[i]) {
                let i = choose|i: int| 0 <= i < pairs.len() && is_blank_pair(#[trigger] pairs[i]);
                assert(!(text::trimmed(pairs[i].0).len() > 0 && pairs[i].1.len() > 0));
            }
            if exists|i: int|
                0 <= i < pairs.len() && !(text::trimmed((#[trigger] pairs[i]).0).len() > 0
                    && pairs[i].1.len() > 0) {
                let i = choose|i: int|
                    0 <= i < pairs.len() && !(text::trimmed((#[trigger] pairs[i]).0).len() > 0
                        && pairs[i].1.len() > 0);
                assert(is_blank_pair(pairs[i]));
            }
        },
        _ => {},
    }
}

proof fn lemma_monitors_fit(monitors: Seq<MonitorConfigView>)
    ensures
        monitors_problem(monitors) is None <==> forall|i: int|
            0 <= i < monitors.len() ==> override_fits(#[trigger] monitors[i]),
    decreases monitors.len(),
{
    if monitors.len() > 0 {
        let rest = monitors.skip(1);
        lemma_monitors_fit(rest);
        let first = monitors[0];
        lemma_backlight_fits(first.widget.backlight);
        lemma_profiles_fit(first.widget.power_profiles_daemon);
        assert(monitor_problem(first) is None <==> override_fits(first));
        assert(forall|i: int| 0 <= i < rest.len() ==> #[trigger] rest[i] == monitors[i + 1]);
        if forall|i: int| 0 <= i < monitors.len() ==> override_fits(#[trigger] monitors[i]) {
            assert forall|i: int| 0 <= i < rest.len() implies override_fits(#[trigger] rest[i]) by {
                assert(rest[i] == monitors[i + 1]);
            }
        }
        if monitors_problem(monitors) is None {
            assert forall|i: int| 0 <= i < monitors.len() implies override_fits(
                #[trigger] monitors[i],
            ) by {
                if i > 0 {
                    assert(rest[i - 1] == monitors[i]);
                }
            }
        }
    }
}

/// A configuration is accepted exactly when its bar, its labels, its icons and each of its
/// monitor overrides can be used.
pub proof fn lemma_exactly_what_can_be_used_is_accepted(
    config: Config,
    result: Result<(), InvalidConfig>,
)
    requires
        call_ensures(Config::validate, (&config,), result),
    ensures
        result is Ok <==> {
            &&& bar_fits(
                Some(config@.height),
                Some(config@.bar.margin),
                Some(config@.bar.gap),
                Some(config@.font.size),
            )
            &&& label_fits(StyleTable::Battery, config@.widget.battery.format)
            &&& backlight_fits(config@.widget.backlight)
            &&& profiles_fit(config@.widget.power_profiles_daemon)
            &&& label_fits(StyleTable::Updates, config@.widget.updates.format)
            &&& forall|i: int|
                0 <= i < config@.monitors.len() ==> override_fits(#[trigger] config@.monitors[i])
        },
{
    lemma_backlight_fits(config@.widget.backlight);
    lemma_profiles_fit(config@.widget.power_profiles_daemon);
    lemma_monitors_fit(config@.monitors);
}

/// A height that cannot be used is named, with what it is and what it may be; a fault of a
/// monitor override is named with its monitor.
pub proof fn lemma_the_first_fault_is_named(config: Config, result: Result<(), InvalidConfig>)
    requires
        call_ensures(Config::validate, (&config,), result),
    ensures
        config@.height == 0 || config@.height > 4096 ==> (result matches Err(problem)
            && problem.monitor is None && (problem.fault matches Fault::OutOfRange {
            field,
            value,
            min,
            max,
        } && field == NumberField::Height && value == config@.height && min == 1 && max == 4096)),
        1 <= config@.height <= 4096 && (config@.font.size.bits < 0x3F80_0000
            || config@.font.size.bits > 0x4400_0000) ==> (result matches Err(problem)
            && problem.monitor is None && (problem.fault matches Fault::FontSize { size } && size
            == config@.font.size)),
        global_fault(config@) is None && config@.monitors.len() > 0 && text::trimmed(
            config@.monitors[0].name,
        ).len() > 0 && config@.monitors[0].height == Some(0u32) ==> (result matches Err(problem)
            && problem.monitor is Some && problem.monitor->0@ == config@.monitors[0].name && (
        problem.fault matches Fault::OutOfRange { field, value, min, max } && field
            == NumberField::Height && value == 0)),
        global_fault(config@) is None && config@.monitors.len() > 0 && text::trimmed(
            config@.monitors[0].name,
        ).len() == 0 ==> (result matches Err(problem) && problem.fault is EmptyMonitorName),
{
}

/// A label without braces has no placeholder to refuse; a first placeholder is refused
/// exactly when its widget does not know it, and a brace that is not closed in any case.
pub proof fn lemma_each_widget_knows_its_placeholders(
    table: StyleTable,
    format: &str,
    placeholder: Option<String>,
    before: Seq<char>,
    name: Seq<char>,
)
    requires
        call_ensures(find_bad_placeholder, (table, format), placeholder),
        !before.contains('{'),
        !name.contains('}'),
    ensures
        format@ == before ==> placeholder is None,
        format@ == before + seq!['{'] + name ==> placeholder is Some && placeholder->0@ == seq!['{']
            + name,
        format@ == before + seq!['{'] + name + seq!['}'] ==> {
            let known = name == "icon"@ || match table {
                StyleTable::Battery => name == "percent"@ || name == "state"@,
                StyleTable::Backlight => name == "percent"@,
                StyleTable::PowerProfiles => name == "profile"@ || name == "driver"@ || name
                    == "cpu_driver"@ || name == "platform_driver"@,
                StyleTable::Updates => name == "count"@,
            };
            &&& placeholder is None <==> known
            &&& placeholder is Some ==> placeholder->0@ == seq!['{'] + name + seq!['}']
        },
{
    let f = format@;
    if f == before {
        assert(f.take(f.len() as int) =~= f);
        lemma_place_of_is(f, '{', f.len() as int);
    }
    if f == before + seq!['{'] + name || f == before + seq!['{'] + name + seq!['}'] {
        let open = before.len() as int;
        assert(f.take(open) =~= before);
        assert(f[open] == '{');
        lemma_place_of_is(f, '{', open);
        let inside = f.skip(open + 1);
        if f == before + seq!['{'] + name {
            assert(inside =~= name);
            assert(name.take(name.len() as int) =~= name);
            lemma_place_of_is(inside, '}', name.len() as int);
            assert(f.skip(open) =~= seq!['{'] + name);
        }
        if f == before + seq!['{'] + name + seq!['}'] {
            assert(inside =~= name + seq!['}']);
            assert(inside.take(name.len() as int) =~= name);
            assert(inside[name.len() as int] == '}');
            lemma_place_of_is(inside, '}', name.len() as int);
            let rest = inside.skip(name.len() as int + 1);
            assert(rest.len() == 0);
            assert(place_of(rest, '{') == 0);
            assert(bad_placeholder(table, rest) is None);
            assert(f.subrange(open, open + name.len() + 2) =~= seq!['{'] + name + seq!['}']);
        }
    }
}

} // verus!
