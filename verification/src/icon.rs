//! Semantic built-in icons and the artwork each maps to.
//!
//! The bar draws status glyphs from a small, semantic set (a clock, battery
//! states, a network arc, and so on). Each [`BuiltinIcon`] names an entry of the
//! artwork table by its stem; the vector paths behind the names are drawn
//! outside the library.

use crate::text;
use vstd::prelude::*;

verus! {

/// A semantic status icon, independent of the artwork backing it.
///
/// Widgets choose a variant from their current state (a battery picks
/// [`BatteryCharging`](BuiltinIcon::BatteryCharging) while charging, a volume
/// control picks a level); the concrete vector art each maps to is an
/// implementation detail resolved by [`stem`](BuiltinIcon::stem).
#[derive(Debug, Clone, Copy, PartialEq, Eq, Structural)]
pub enum BuiltinIcon {
    /// The clock readout's leading icon.
    Clock,
    /// A battery at a low charge level.
    BatteryLow,
    /// A battery at roughly half charge.
    BatteryHalf,
    /// A battery at a high charge level.
    BatteryFull,
    /// A battery while charging, regardless of level.
    BatteryCharging,
    /// A backlight/brightness level on a seven-step ramp, `0` (off) to `6`
    /// (full). Values above `6` saturate to the full-brightness icon.
    Backlight(u8),
    /// A wireless (Wi-Fi) network link.
    NetworkWireless,
    /// A wired (Ethernet) network link.
    NetworkWired,
    /// System CPU load.
    System,
    /// System memory load.
    Memory,
    /// A Bluetooth adapter.
    Bluetooth,
    /// Pending package updates.
    Updates,
    /// Notifications enabled.
    Notifications,
    /// Notifications suppressed (do-not-disturb).
    NotificationsOff,
    /// The idle daemon is active (protecting the session), shown with an open
    /// padlock.
    HypridleActive,
    /// The idle daemon is inhibited/paused, shown with a closed padlock.
    HypridleInactive,
    /// A power/session control.
    Power,
    /// The performance power profile.
    PowerProfilePerformance,
    /// The balanced power profile.
    PowerProfileBalanced,
    /// The power-saver power profile.
    PowerProfileSaver,
    /// Audio volume at a low level.
    VolumeLow,
    /// Audio volume at a medium level.
    VolumeMedium,
    /// Audio volume at a high level.
    VolumeHigh,
    /// Audio muted.
    VolumeMuted,
}

impl BuiltinIcon {
    /// The name of the artwork backing this icon.
    pub open spec fn artwork(self) -> Seq<char> {
        match self {
            BuiltinIcon::Clock => "clock-filled"@,
            BuiltinIcon::BatteryLow => "battery-low2-filled"@,
            BuiltinIcon::BatteryHalf => "battery-half2-filled"@,
            BuiltinIcon::BatteryFull => "battery-full2-filled"@,
            BuiltinIcon::BatteryCharging => "battery-charge2-filled"@,
            BuiltinIcon::NetworkWireless => "wifi-filled"@,
            BuiltinIcon::NetworkWired => "ethernet-filled"@,
            BuiltinIcon::System => "cpu-filled"@,
            BuiltinIcon::Memory => "memory-filled"@,
            BuiltinIcon::Bluetooth => "bluetooth-outline"@,
            BuiltinIcon::Updates => "box5-filled"@,
            BuiltinIcon::Notifications => "bell-filled"@,
            BuiltinIcon::NotificationsOff => "bell-off2-filled"@,
            BuiltinIcon::HypridleActive => "lock-open-filled"@,
            BuiltinIcon::HypridleInactive => "lock-filled"@,
            BuiltinIcon::Power => "power-off-filled"@,
            BuiltinIcon::PowerProfilePerformance => "bolt-lightning-filled"@,
            BuiltinIcon::PowerProfileBalanced => "balance-filled"@,
            BuiltinIcon::PowerProfileSaver => "feather-filled"@,
            BuiltinIcon::VolumeLow => "volume-down-filled"@,
            BuiltinIcon::VolumeMedium => "volume-filled"@,
            BuiltinIcon::VolumeHigh => "volume-up-filled"@,
            BuiltinIcon::VolumeMuted => "volume-x-filled"@,
            BuiltinIcon::Backlight(level) => if level == 0 {
                "bright-empty"@
            } else if level == 1 {
                "bright-1"@
            } else if level == 2 {
                "bright-2"@
            } else if level == 3 {
                "bright-3"@
            } else if level == 4 {
                "bright-4"@
            } else if level == 5 {
                "bright-5"@
            } else {
                "bright-full"@
            },
        }
    }

    /// The artwork stem backing this icon.
    pub fn stem(self) -> (stem: &'static str)
        ensures
            stem@ == self.artwork(),
    {
        match self {
            BuiltinIcon::Clock => "clock-filled",
            BuiltinIcon::BatteryLow => "battery-low2-filled",
            BuiltinIcon::BatteryHalf => "battery-half2-filled",
            BuiltinIcon::BatteryFull => "battery-full2-filled",
            BuiltinIcon::BatteryCharging => "battery-charge2-filled",
            BuiltinIcon::NetworkWireless => "wifi-filled",
            BuiltinIcon::NetworkWired => "ethernet-filled",
            BuiltinIcon::System => "cpu-filled",
            BuiltinIcon::Memory => "memory-filled",
            BuiltinIcon::Bluetooth => "bluetooth-outline",
            BuiltinIcon::Updates => "box5-filled",
            BuiltinIcon::Notifications => "bell-filled",
            BuiltinIcon::NotificationsOff => "bell-off2-filled",
            BuiltinIcon::HypridleActive => "lock-open-filled",
            BuiltinIcon::HypridleInactive => "lock-filled",
            BuiltinIcon::Power => "power-off-filled",
            BuiltinIcon::PowerProfilePerformance => "bolt-lightning-filled",
            BuiltinIcon::PowerProfileBalanced => "balance-filled",
            BuiltinIcon::PowerProfileSaver => "feather-filled",
            BuiltinIcon::VolumeLow => "volume-down-filled",
            BuiltinIcon::VolumeMedium => "volume-filled",
            BuiltinIcon::VolumeHigh => "volume-up-filled",
            BuiltinIcon::VolumeMuted => "volume-x-filled",
            BuiltinIcon::Backlight(level) => if level == 0 {
                "bright-empty"
            } else if level == 1 {
                "bright-1"
            } else if level == 2 {
                "bright-2"
            } else if level == 3 {
                "bright-3"
            } else if level == 4 {
                "bright-4"
            } else if level == 5 {
                "bright-5"
            } else {
                "bright-full"
            },
        }
    }

    /// The place of this icon's artwork in the artwork table.
    ///
    /// Every icon has artwork.
    pub fn raw(self) -> (place: Option<usize>)
        ensures
            place is Some,
            place->0 < artwork_table().len(),
            artwork_table()[place->0 as int] == self.artwork(),
    {
        let stem: &str = self.stem();
        let names: Vec<&'static str> = artwork_names();
        proof {
            lemma_every_icon_has_artwork(self);
        }
        let mut i: usize = 0;
        while i < names.len()
            invariant
                i <= names@.len(),
                stem@ == self.artwork(),
                names@.len() == artwork_table().len(),
                forall|k: int| 0 <= k < names@.len() ==> (#[trigger] names@[k])@ == artwork_table()[k],
                forall|k: int| 0 <= k < i ==> artwork_table()[k] != stem@,
                artwork_table().contains(stem@),
            decreases names@.len() - i,
        {
            if text::same(names[i], stem) {
                return Some(i);
            }
            i += 1;
        }
        None
    }
}

/// The names of the artwork that the bar ships, in table order.
pub open spec fn artwork_table() -> Seq<Seq<char>> {
    seq![
        "clock-filled"@,
        "battery-low2-filled"@,
        "battery-half2-filled"@,
        "battery-full2-filled"@,
        "battery-charge2-filled"@,
        "wifi-filled"@,
        "ethernet-filled"@,
        "cpu-filled"@,
        "memory-filled"@,
        "bluetooth-outline"@,
        "box5-filled"@,
        "bell-filled"@,
        "bell-off2-filled"@,
        "lock-open-filled"@,
        "lock-filled"@,
        "power-off-filled"@,
        "bolt-lightning-filled"@,
        "balance-filled"@,
        "feather-filled"@,
        "volume-down-filled"@,
        "volume-filled"@,
        "volume-up-filled"@,
        "volume-x-filled"@,
        "bright-empty"@,
        "bright-1"@,
        "bright-2"@,
        "bright-3"@,
        "bright-4"@,
        "bright-5"@,
        "bright-full"@,
    ]
}

/// The names of the artwork that the bar ships, in table order.
pub fn artwork_names() -> (names: Vec<&'static str>)
    ensures
        names@.len() == artwork_table().len(),
        forall|k: int| 0 <= k < names@.len() ==> (#[trigger] names@[k])@ == artwork_table()[k],
{
    let names: Vec<&'static str> = vec![
        "clock-filled",
        "battery-low2-filled",
        "battery-half2-filled",
        "battery-full2-filled",
        "battery-charge2-filled",
        "wifi-filled",
        "ethernet-filled",
        "cpu-filled",
        "memory-filled",
        "bluetooth-outline",
        "box5-filled",
        "bell-filled",
        "bell-off2-filled",
        "lock-open-filled",
        "lock-filled",
        "power-off-filled",
        "bolt-lightning-filled",
        "balance-filled",
        "feather-filled",
        "volume-down-filled",
        "volume-filled",
        "volume-up-filled",
        "volume-x-filled",
        "bright-empty",
        "bright-1",
        "bright-2",
        "bright-3",
        "bright-4",
        "bright-5",
        "bright-full",
    ];
    names
}

/// Every icon's artwork is in the table.
pub proof fn lemma_every_icon_has_artwork(icon: BuiltinIcon)
    ensures
        artwork_table().contains(icon.artwork()),
{
    let table = artwork_table();
    match icon {
        BuiltinIcon::Clock => {
            assert(table[0] == icon.artwork());
        },
        BuiltinIcon::BatteryLow => {
            assert(table[1] == icon.artwork());
        },
        BuiltinIcon::BatteryHalf => {
            assert(table[2] == icon.artwork());
        },
        BuiltinIcon::BatteryFull => {
            assert(table[3] == icon.artwork());
        },
        BuiltinIcon::BatteryCharging => {
            assert(table[4] == icon.artwork());
        },
        BuiltinIcon::NetworkWireless => {
            assert(table[5] == icon.artwork());
        },
        BuiltinIcon::NetworkWired => {
            assert(table[6] == icon.artwork());
        },
        BuiltinIcon::System => {
            assert(table[7] == icon.artwork());
        },
        BuiltinIcon::Memory => {
            assert(table[8] == icon.artwork());
        },
        BuiltinIcon::Bluetooth => {
            assert(table[9] == icon.artwork());
        },
        BuiltinIcon::Updates => {
            assert(table[10] == icon.artwork());
        },
        BuiltinIcon::Notifications => {
            assert(table[11] == icon.artwork());
        },
        BuiltinIcon::NotificationsOff => {
            assert(table[12] == icon.artwork());
        },
        BuiltinIcon::HypridleActive => {
            assert(table[13] == icon.artwork());
        },
        BuiltinIcon::HypridleInactive => {
            assert(table[14] == icon.artwork());
        },
        BuiltinIcon::Power => {
            assert(table[15] == icon.artwork());
        },
        BuiltinIcon::PowerProfilePerformance => {
            assert(table[16] == icon.artwork());
        },
        BuiltinIcon::PowerProfileBalanced => {
            assert(table[17] == icon.artwork());
        },
        BuiltinIcon::PowerProfileSaver => {
            assert(table[18] == icon.artwork());
        },
        BuiltinIcon::VolumeLow => {
            assert(table[19] == icon.artwork());
        },
        BuiltinIcon::VolumeMedium => {
            assert(table[20] == icon.artwork());
        },
        BuiltinIcon::VolumeHigh => {
            assert(table[21] == icon.artwork());
        },
        BuiltinIcon::VolumeMuted => {
            assert(table[22] == icon.artwork());
        },
        BuiltinIcon::Backlight(level) => {
            assert(table[23] == "bright-empty"@);
            assert(table[24] == "bright-1"@);
            assert(table[25] == "bright-2"@);
            assert(table[26] == "bright-3"@);
            assert(table[27] == "bright-4"@);
            assert(table[28] == "bright-5"@);
            assert(table[29] == "bright-full"@);
        },
    }
}

/// Brightness levels past the ramp show the full-brightness art.
pub proof fn lemma_backlight_ramp_saturates(level: u8)
    requires
        level >= 6,
    ensures
        BuiltinIcon::Backlight(level).artwork() == "bright-full"@,
{
}

/// Icons of opposite or neighbouring states have the artwork of their own state.
pub proof fn lemma_each_state_has_its_artwork(icon: BuiltinIcon, stem: &'static str)
    requires
        call_ensures(BuiltinIcon::stem, (icon,), stem),
    ensures
        icon == BuiltinIcon::Clock ==> stem@ == "clock-filled"@,
        icon == BuiltinIcon::BatteryLow ==> stem@ == "battery-low2-filled"@,
        icon == BuiltinIcon::BatteryHalf ==> stem@ == "battery-half2-filled"@,
        icon == BuiltinIcon::BatteryFull ==> stem@ == "battery-full2-filled"@,
        icon == BuiltinIcon::BatteryCharging ==> stem@ == "battery-charge2-filled"@,
        icon == BuiltinIcon::NetworkWireless ==> stem@ == "wifi-filled"@,
        icon == BuiltinIcon::NetworkWired ==> stem@ == "ethernet-filled"@,
        icon == BuiltinIcon::System ==> stem@ == "cpu-filled"@,
        icon == BuiltinIcon::Memory ==> stem@ == "memory-filled"@,
        icon == BuiltinIcon::Bluetooth ==> stem@ == "bluetooth-outline"@,
        icon == BuiltinIcon::Updates ==> stem@ == "box5-filled"@,
        icon == BuiltinIcon::Notifications ==> stem@ == "bell-filled"@,
        icon == BuiltinIcon::NotificationsOff ==> stem@ == "bell-off2-filled"@,
        icon == BuiltinIcon::HypridleActive ==> stem@ == "lock-open-filled"@,
        icon == BuiltinIcon::HypridleInactive ==> stem@ == "lock-filled"@,
        icon == BuiltinIcon::Power ==> stem@ == "power-off-filled"@,
        icon == BuiltinIcon::PowerProfilePerformance ==> stem@ == "bolt-lightning-filled"@,
        icon == BuiltinIcon::PowerProfileBalanced ==> stem@ == "balance-filled"@,
        icon == BuiltinIcon::PowerProfileSaver ==> stem@ == "feather-filled"@,
        icon == BuiltinIcon::VolumeLow ==> stem@ == "volume-down-filled"@,
        icon == BuiltinIcon::VolumeMedium ==> stem@ == "volume-filled"@,
        icon == BuiltinIcon::VolumeHigh ==> stem@ == "volume-up-filled"@,
        icon == BuiltinIcon::VolumeMuted ==> stem@ == "volume-x-filled"@,
{
}

/// The artwork of a brightness is named by its step of the ramp: empty at none, full from
/// the sixth on, and the number of the step between.
pub proof fn lemma_the_ramp_counts_its_steps(level: u8, stem: &'static str)
    requires
        call_ensures(BuiltinIcon::stem, (BuiltinIcon::Backlight(level),), stem),
    ensures
        level == 0 <==> stem@ == "bright-empty"@,
        level >= 6 <==> stem@ == "bright-full"@,
        1 <= level <= 5 ==> stem@.len() == 8 && stem@[7] as int == '0' as int + level,
{
    reveal_strlit("bright-empty");
    reveal_strlit("bright-1");
    reveal_strlit("bright-2");
    reveal_strlit("bright-3");
    reveal_strlit("bright-4");
    reveal_strlit("bright-5");
    reveal_strlit("bright-full");
    assert("bright-empty"@.len() == 12 && "bright-full"@.len() == 11);
}

/// The place of an icon in the artwork table is that of its artwork.
pub proof fn lemma_an_icon_is_found_by_its_artwork(
    icon: BuiltinIcon,
    stem: &'static str,
    place: Option<usize>,
    names: Vec<&'static str>,
)
    requires
        call_ensures(BuiltinIcon::stem, (icon,), stem),
        call_ensures(BuiltinIcon::raw, (icon,), place),
        call_ensures(artwork_names, (), names),
    ensures
        place is Some,
        place->0 < names@.len(),
        names@[place->0 as int]@ == stem@,
{
}

} // verus!
