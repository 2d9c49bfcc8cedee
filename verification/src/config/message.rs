//! The words for a refused configuration.

use super::color;
use super::validate::{Fault, FaultView, InvalidConfig, InvalidConfigView, NumberField, StyleTable};
use crate::text;
use vstd::prelude::*;
use vstd::string::StringExecFns;

verus! {

/// How a whole number is called in the configuration.
pub open spec fn field_name(field: NumberField) -> Seq<char> {
    match field {
        NumberField::Height => "height"@,
        NumberField::BarMargin => "bar.margin"@,
        NumberField::BarGap => "bar.gap"@,
    }
}

/// How a widget table is called in the configuration.
pub open spec fn table_name(table: StyleTable) -> Seq<char> {
    match table {
        StyleTable::Battery => "widget.battery"@,
        StyleTable::Backlight => "widget.backlight"@,
        StyleTable::PowerProfiles => "widget.power-profiles-daemon"@,
        StyleTable::Updates => "widget.updates"@,
    }
}

/// What stands before the name of a field: nothing for a global value, the
/// monitor for one of its values. `shown` is the monitor's name in quotes.
pub open spec fn place_words(in_monitor: bool, shown: Seq<char>) -> Seq<char> {
    if in_monitor {
        "monitor "@ + shown + " "@
    } else {
        ""@
    }
}

/// The words for a fault at `place`. `device` is the device in quotes, `number`
/// the decimal form of a real number; each counts only where the fault has one.
pub open spec fn fault_words(
    place: Seq<char>,
    fault: FaultView,
    device: Seq<char>,
    number: Seq<char>,
) -> Seq<char> {
    match fault {
        FaultView::EmptyMonitorName =>
            "a [[monitor]] override has an empty `name`; it can never match an output"@,
        FaultView::OutOfRange { field, value, min, max } => place + field_name(field)
            + " must be between "@ + text::decimal_of(min as nat) + " and "@ + text::decimal_of(
            max as nat,
        ) + ", got "@ + text::decimal_of(value as nat),
        FaultView::FontSize { .. } => place
            + "font.size must be a finite number between 1 and 512, got "@ + number,
        FaultView::Placeholder { table, tooltip, placeholder } => place + table_name(table) + (
        if tooltip {
            ".tooltip-format"@
        } else {
            ".format"@
        }) + " does not accept the placeholder "@ + placeholder,
        FaultView::IconsNotARamp => place
            + "widget.backlight.format-icons must be an icon array"@,
        FaultView::EmptyRampIcon => place
            + "widget.backlight.format-icons must contain non-empty icons"@,
        FaultView::IconsNotNamed => place
            + "widget.power-profiles-daemon.format-icons must be a named icon table"@,
        FaultView::EmptyNamedIcon => place
            + "widget.power-profiles-daemon.format-icons must contain non-empty names and icons"@,
        FaultView::ScrollStep { .. } => place
            + "widget.backlight.scroll-step must be a finite number between 0 and 100, got "@
            + number,
        FaultView::Device { .. } => place
            + "widget.backlight.device must be a non-empty sysfs device name, got "@ + device,
    }
}

fn field_text(field: NumberField) -> (name: &'static str)
    ensures
        name@ == field_name(field),
{
    match field {
        NumberField::Height => "height",
        NumberField::BarMargin => "bar.margin",
        NumberField::BarGap => "bar.gap",
    }
}

fn table_text(table: StyleTable) -> (name: &'static str)
    ensures
        name@ == table_name(table),
{
    match table {
        StyleTable::Battery => "widget.battery",
        StyleTable::Backlight => "widget.backlight",
        StyleTable::PowerProfiles => "widget.power-profiles-daemon",
        StyleTable::Updates => "widget.updates",
    }
}

impl InvalidConfig {
    /// Compose the message, given the monitor's name and the device in quotes and
    /// the real number in decimal. Each counts only where the problem has one.
    pub fn message_with(&self, monitor: &str, device: &str, number: &str) -> (message: String)
        ensures
            message@ == fault_words(
                place_words(self@.monitor is Some, monitor@),
                self@.fault,
                device@,
                number@,
            ),
    {
        let mut m: String = match &self.monitor {
            Some(_) => {
                let mut place: String = text::joined("monitor ", monitor);
                place.append(" ");
                place
            },
            None => "".to_owned(),
        };
        match &self.fault {
            Fault::EmptyMonitorName =>
                "a [[monitor]] override has an empty `name`; it can never match an output".to_owned(),
            Fault::OutOfRange { field, value, min, max } => {
                m.append(field_text(*field));
                m.append(" must be between ");
                m.append(text::decimal(*min as u64).as_str());
                m.append(" and ");
                m.append(text::decimal(*max as u64).as_str());
                m.append(", got ");
                m.append(text::decimal(*value as u64).as_str());
                m
            },
            Fault::FontSize { .. } => {
                m.append("font.size must be a finite number between 1 and 512, got ");
                m.append(number);
                m
            },
            Fault::Placeholder { table, tooltip, placeholder } => {
                m.append(table_text(*table));
                if *tooltip {
                    m.append(".tooltip-format");
                } else {
                    m.append(".format");
                }
                m.append(" does not accept the placeholder ");
                m.append(placeholder.as_str());
                m
            },
            Fault::IconsNotARamp => {
                m.append("widget.backlight.format-icons must be an icon array");
                m
            },
            Fault::EmptyRampIcon => {
                m.append("widget.backlight.format-icons must contain non-empty icons");
                m
            },
            Fault::IconsNotNamed => {
                m.append("widget.power-profiles-daemon.format-icons must be a named icon table");
                m
            },
            Fault::EmptyNamedIcon => {
                m.append(
                    "widget.power-profiles-daemon.format-icons must contain non-empty names and icons",
                );
                m
            },
            Fault::ScrollStep { .. } => {
                m.append(
                    "widget.backlight.scroll-step must be a finite number between 0 and 100, got ",
                );
                m.append(number);
                m
            },
            Fault::Device { .. } => {
                m.append("widget.backlight.device must be a non-empty sysfs device name, got ");
                m.append(device);
                m
            },
        }
    }

    /// The message naming the first offending field. `number` is the decimal form
    /// of the offending real number, for a font size or a scroll step.
    pub fn message(&self, number: &str) -> (message: String)
        ensures
            message@ == fault_words(
                place_words(
                    self@.monitor is Some,
                    match self@.monitor {
                        Some(name) => color::debug_quoted(name),
                        None => ""@,
                    },
                ),
                self@.fault,
                match self@.fault {
                    FaultView::Device { device } => color::debug_quoted(device),
                    _ => ""@,
                },
                number@,
            ),
    {
        let monitor: String = match &self.monitor {
            Some(name) => color::quoted(name.as_str()),
            None => "".to_owned(),
        };
        let device: String = match &self.fault {
            Fault::Device { device } => color::quoted(device.as_str()),
            _ => "".to_owned(),
        };
        self.message_with(monitor.as_str(), device.as_str(), number)
    }
}

/// A message about a number names the field, what it may be and what it is, and the
/// monitor where it stands in an override.
pub proof fn lemma_a_message_names_what_is_wrong(
    problem: InvalidConfig,
    monitor: &str,
    device: &str,
    number: &str,
    message: String,
    place: Seq<char>,
)
    requires
        call_ensures(InvalidConfig::message_with, (&problem, monitor, device, number), message),
        problem.monitor is Some ==> place == "monitor "@ + monitor@ + " "@,
        problem.monitor is None ==> place.len() == 0,
    ensures
        problem.fault matches Fault::OutOfRange { field, value, min, max } ==> {
            let name = match field {
                NumberField::Height => "height"@,
                NumberField::BarMargin => "bar.margin"@,
                NumberField::BarGap => "bar.gap"@,
            };
            message@ == place + name + " must be between "@ + text::decimal_of(min as nat)
                + " and "@ + text::decimal_of(max as nat) + ", got "@ + text::decimal_of(
                value as nat,
            )
        },
        problem.fault is FontSize ==> message@ == place
            + "font.size must be a finite number between 1 and 512, got "@ + number@,
        problem.fault is ScrollStep ==> message@ == place
            + "widget.backlight.scroll-step must be a finite number between 0 and 100, got "@
            + number@,
        problem.fault is Device ==> message@ == place
            + "widget.backlight.device must be a non-empty sysfs device name, got "@ + device@,
        problem.fault matches Fault::Placeholder { table, tooltip, placeholder } ==> {
            let name = match table {
                StyleTable::Battery => "widget.battery"@,
                StyleTable::Backlight => "widget.backlight"@,
                StyleTable::PowerProfiles => "widget.power-profiles-daemon"@,
                StyleTable::Updates => "widget.updates"@,
            };
            &&& tooltip ==> message@ == place + name + ".tooltip-format"@
                + " does not accept the placeholder "@ + placeholder@
            &&& !tooltip ==> message@ == place + name + ".format"@
                + " does not accept the placeholder "@ + placeholder@
        },
        problem.fault is EmptyMonitorName ==> message@
            == "a [[monitor]] override has an empty `name`; it can never match an output"@,
{
    reveal_strlit("");
    assert(problem.monitor is None ==> place =~= ""@);
}

} // verus!
