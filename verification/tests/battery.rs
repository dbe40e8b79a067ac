use simplebar::upower::{
    battery_icon, BatteryIcon, BatteryState, Upower, UpowerData, LOW_COLOR, WARNING_COLOR,
};

#[test]
fn discharging_at_five_percent_shows_warning_icon_and_bare_number_label() {
    let mut w = Upower::new();
    let data = UpowerData {
        percentage: 5,
        state: BatteryState::Discharging,
        time_to_full: 0,
        time_to_empty: 3600,
    };
    w.update(&data);
    assert_eq!(w.icon, BatteryIcon::Warning);
    assert_eq!(w.icon.asset(), "icons/battery-warning.svg");
    assert_eq!(w.label, "5");
    assert_eq!(w.icon_color, Some(WARNING_COLOR));
}

#[test]
fn charging_at_fifty_percent_shows_charging_icon_regardless_of_level() {
    let mut w = Upower::new();
    let data = UpowerData {
        percentage: 50,
        state: BatteryState::Charging,
        time_to_full: 1200,
        time_to_empty: 0,
    };
    w.update(&data);
    assert_eq!(w.icon, BatteryIcon::Charging);
    assert_eq!(w.icon.asset(), "icons/battery-charging.svg");
    assert_eq!(w.label, "50");
}

#[test]
fn discharging_band_boundaries_are_closed_above() {
    for state in [BatteryState::Discharging, BatteryState::PendingDischarge] {
        assert_eq!(battery_icon(state, 0), BatteryIcon::Warning);
        assert_eq!(battery_icon(state, 10), BatteryIcon::Warning);
        assert_eq!(battery_icon(state, 11), BatteryIcon::Low);
        assert_eq!(battery_icon(state, 30), BatteryIcon::Low);
        assert_eq!(battery_icon(state, 31), BatteryIcon::Medium);
        assert_eq!(battery_icon(state, 80), BatteryIcon::Medium);
        assert_eq!(battery_icon(state, 81), BatteryIcon::Full);
        assert_eq!(battery_icon(state, 100), BatteryIcon::Full);
    }
}

#[test]
fn charging_family_overrides_every_percentage() {
    for state in [
        BatteryState::Charging,
        BatteryState::FullyCharged,
        BatteryState::PendingCharge,
    ] {
        for p in [0u8, 10, 30, 80, 100] {
            assert_eq!(battery_icon(state, p), BatteryIcon::Charging);
        }
    }
}

#[test]
fn unknown_states_fall_back_to_default_icon() {
    assert_eq!(battery_icon(BatteryState::Unknown, 50), BatteryIcon::Default);
    assert_eq!(battery_icon(BatteryState::Empty, 50), BatteryIcon::Default);
    assert_eq!(BatteryIcon::Default.asset(), "icons/battery.svg");
}

#[test]
fn low_band_sets_red_accent_and_other_bands_keep_the_previous_color() {
    let mut w = Upower::new();
    let mut data = UpowerData {
        percentage: 20,
        state: BatteryState::Discharging,
        time_to_full: 0,
        time_to_empty: 0,
    };
    w.update(&data);
    assert_eq!(w.icon_color, Some(LOW_COLOR));
    // Going back to a healthy band leaves the last accent color in place.
    data.percentage = 90;
    w.update(&data);
    assert_eq!(w.icon, BatteryIcon::Full);
    assert_eq!(w.icon_color, Some(LOW_COLOR));
}

#[test]
fn battery_state_decodes_every_assigned_code() {
    assert_eq!(BatteryState::from_code(0), BatteryState::Unknown);
    assert_eq!(BatteryState::from_code(1), BatteryState::Charging);
    assert_eq!(BatteryState::from_code(2), BatteryState::Discharging);
    assert_eq!(BatteryState::from_code(3), BatteryState::Empty);
    assert_eq!(BatteryState::from_code(4), BatteryState::FullyCharged);
    assert_eq!(BatteryState::from_code(5), BatteryState::PendingCharge);
    assert_eq!(BatteryState::from_code(6), BatteryState::PendingDischarge);
    assert_eq!(BatteryState::from_code(7), BatteryState::Unknown);
    assert_eq!(BatteryState::from_code(4096), BatteryState::Unknown);
}

#[test]
fn initial_widget_state_is_the_unknown_battery() {
    let w = Upower::new();
    assert_eq!(w.label, "Battery");
    assert_eq!(w.status, BatteryState::Unknown);
    assert_eq!(w.icon, BatteryIcon::Default);
    assert_eq!(w.icon_color, None);
}
