//! Battery domain: the snapshot published by the power-service producer and
//! the widget state derived from it (icon band, accent color, percent label).

use vstd::prelude::*;
use crate::text::{dec_rep, u64_to_string};
use crate::valid_percent;

verus! {

/// Battery charge state, decoded from the power service's property value.
#[derive(Clone, Copy, Debug, PartialEq, Eq, Structural)]
pub enum BatteryState {
    Unknown,
    Charging,
    Discharging,
    Empty,
    FullyCharged,
    PendingCharge,
    PendingDischarge,
}

impl BatteryState {
    /// Decodes the service's numeric state property; every unassigned code
    /// falls back to `Unknown`, never an error.
    pub fn from_code(code: u32) -> (r: Self)
        ensures
            r == Self::spec_from_code(code),
    {
        match code {
            1u32 => BatteryState::Charging,
            2u32 => BatteryState::Discharging,
            3u32 => BatteryState::Empty,
            4u32 => BatteryState::FullyCharged,
            5u32 => BatteryState::PendingCharge,
            6u32 => BatteryState::PendingDischarge,
            _ => BatteryState::Unknown,
        }
    }

    pub open spec fn spec_from_code(code: u32) -> Self {
        if code == 1 {
            BatteryState::Charging
        } else if code == 2 {
            BatteryState::Discharging
        } else if code == 3 {
            BatteryState::Empty
        } else if code == 4 {
            BatteryState::FullyCharged
        } else if code == 5 {
            BatteryState::PendingCharge
        } else if code == 6 {
            BatteryState::PendingDischarge
        } else {
            BatteryState::Unknown
        }
    }

    /// States in which the battery is being filled: they select the charging
    /// icon regardless of the percentage.
    pub open spec fn is_charging_family(self) -> bool {
        self == BatteryState::FullyCharged || self == BatteryState::Charging
            || self == BatteryState::PendingCharge
    }

    /// States in which the battery is being drained: they select an icon by
    /// percentage band.
    pub open spec fn is_discharging_family(self) -> bool {
        self == BatteryState::Discharging || self == BatteryState::PendingDischarge
    }
}

/// Snapshot of the battery domain. The percentage is the charge in whole
/// percent, 0 to 100; the two durations are the service's estimates in
/// seconds.
#[derive(Clone, Debug)]
pub struct UpowerData {
    pub percentage: u8,
    pub state: BatteryState,
    pub time_to_full: u64,
    pub time_to_empty: u64,
}

/// The battery icon bands the widget can display.
#[derive(Clone, Copy, Debug, PartialEq, Eq, Structural)]
pub enum BatteryIcon {
    Charging,
    Warning,
    Low,
    Medium,
    Full,
    Default,
}

/// Which icon a snapshot selects: charging-family states always take the
/// charging icon; discharging-family states band by percentage with closed
/// upper bounds at 10, 30 and 80; everything else falls back to the default
/// battery icon.
pub open spec fn spec_battery_icon(state: BatteryState, p: u8) -> BatteryIcon {
    if state.is_charging_family() {
        BatteryIcon::Charging
    } else if state.is_discharging_family() {
        if p <= 10 {
            BatteryIcon::Warning
        } else if p <= 30 {
            BatteryIcon::Low
        } else if p <= 80 {
            BatteryIcon::Medium
        } else {
            BatteryIcon::Full
        }
    } else {
        BatteryIcon::Default
    }
}

/// Selects the icon band for a snapshot.
pub fn battery_icon(state: BatteryState, p: u8) -> (r: BatteryIcon)
    ensures
        r == spec_battery_icon(state, p),
{
    match state {
        BatteryState::FullyCharged | BatteryState::Charging | BatteryState::PendingCharge => {
            BatteryIcon::Charging
        },
        BatteryState::Discharging | BatteryState::PendingDischarge => {
            if p <= 10 {
                BatteryIcon::Warning
            } else if p <= 30 {
                BatteryIcon::Low
            } else if p <= 80 {
                BatteryIcon::Medium
            } else {
                BatteryIcon::Full
            }
        },
        _ => BatteryIcon::Default,
    }
}

/// The asset path of each icon band.
pub open spec fn spec_icon_asset(icon: BatteryIcon) -> Seq<char> {
    match icon {
        BatteryIcon::Charging => "icons/battery-charging.svg"@,
        BatteryIcon::Warning => "icons/battery-warning.svg"@,
        BatteryIcon::Low => "icons/battery-low.svg"@,
        BatteryIcon::Medium => "icons/battery-medium.svg"@,
        BatteryIcon::Full => "icons/battery-full.svg"@,
        BatteryIcon::Default => "icons/battery.svg"@,
    }
}

impl BatteryIcon {
    /// The asset path the renderer loads for this band.
    pub fn asset(self) -> (r: &'static str)
        ensures
            r@ == spec_icon_asset(self),
    {
        match self {
            BatteryIcon::Charging => "icons/battery-charging.svg",
            BatteryIcon::Warning => "icons/battery-warning.svg",
            BatteryIcon::Low => "icons/battery-low.svg",
            BatteryIcon::Medium => "icons/battery-medium.svg",
            BatteryIcon::Full => "icons/battery-full.svg",
            BatteryIcon::Default => "icons/battery.svg",
        }
    }
}

/// Accent color for the icon, as 0xRRGGBB: the warning band is orange, the
/// low band red; every other band leaves the previously shown color alone.
pub const WARNING_COLOR: u32 = 0xff8000;

pub const LOW_COLOR: u32 = 0xff0000;

/// Battery widget state: the presentation fields derived from the last
/// applied snapshot.
#[derive(Clone, Debug)]
pub struct Upower {
    pub label: String,
    pub status: BatteryState,
    pub icon: BatteryIcon,
    pub icon_color: Option<u32>,
}

impl Upower {
    /// The state shown before the first snapshot arrives.
    pub fn new() -> (r: Self)
        ensures
            r.status == BatteryState::Unknown,
            r.icon == BatteryIcon::Default,
            r.icon_color is None,
            r.label@ == "Battery"@,
    {
        Upower {
            label: String::from_str("Battery"),
            status: BatteryState::Unknown,
            icon: BatteryIcon::Default,
            icon_color: None,
        }
    }

    /// Applies a snapshot: the label becomes the percentage in decimal, the
    /// status is copied, the icon is the band `spec_battery_icon` selects,
    /// and the accent color is set in the warning and low bands and left
    /// unchanged otherwise. Pure state update: no side effect; the caller
    /// requests the redraw.
    pub fn update(&mut self, data: &UpowerData)
        ensures
            final(self).label@ == dec_rep(data.percentage as nat),
            final(self).status == data.state,
            final(self).icon == spec_battery_icon(data.state, data.percentage),
            final(self).icon_color == (if spec_battery_icon(data.state, data.percentage)
                == BatteryIcon::Warning {
                Some(WARNING_COLOR)
            } else if spec_battery_icon(data.state, data.percentage) == BatteryIcon::Low {
                Some(LOW_COLOR)
            } else {
                old(self).icon_color
            }),
    {
        self.label = u64_to_string(data.percentage as u64);
        self.status = data.state;
        let icon = battery_icon(data.state, data.percentage);
        if icon == BatteryIcon::Warning {
            self.icon_color = Some(WARNING_COLOR);
        } else if icon == BatteryIcon::Low {
            self.icon_color = Some(LOW_COLOR);
        }
        self.icon = icon;
    }
}

/// Law: for every percentage in 0..=100 and every state of the charging or
/// discharging families, the icon selection lands in exactly one defined
/// band; within the discharging family the bands are delimited by closed
/// upper bounds at 10, 30 and 80, and any charging-family state overrides
/// the percentage entirely.
pub proof fn lemma_battery_icon_bands(state: BatteryState, p: u8)
    requires
        valid_percent(p),
        state.is_charging_family() || state.is_discharging_family(),
    ensures
        state.is_charging_family() ==> spec_battery_icon(state, p) == BatteryIcon::Charging,
        state.is_discharging_family() ==> {
            &&& (spec_battery_icon(state, p) == BatteryIcon::Warning <==> p <= 10)
            &&& (spec_battery_icon(state, p) == BatteryIcon::Low <==> 10 < p && p <= 30)
            &&& (spec_battery_icon(state, p) == BatteryIcon::Medium <==> 30 < p && p <= 80)
            &&& (spec_battery_icon(state, p) == BatteryIcon::Full <==> 80 < p)
        },
        spec_battery_icon(state, p) != BatteryIcon::Default,
{
}

} // verus!
