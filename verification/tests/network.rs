use simplebar::network::{
    dedup_strongest, format_speed, sort_access_points_ascending, sort_access_points_descending,
    sort_connections, AccessPoint, ActiveConnectionInfo, ConnectivityState, DeviceState,
    DeviceType, NetworkData, NetworkStatistics, NetworkWidget, State, WifiIcon,
};

fn ap(ssid: &str, strength: u8, path: &str) -> AccessPoint {
    AccessPoint {
        ssid: ssid.to_string(),
        strength,
        state: DeviceState::Activated,
        public: true,
        working: false,
        path: path.to_string(),
        device_path: "/dev/wlan0".to_string(),
    }
}

fn stats(device: &str, prev_rx: u64, rx: u64, prev_rx_time: i64, rx_time: i64) -> NetworkStatistics {
    NetworkStatistics {
        prev_tx: 0,
        prev_rx,
        prev_tx_time: 0,
        prev_rx_time,
        tx: 0,
        rx,
        tx_time: 0,
        rx_time,
        device: device.to_string(),
    }
}

#[test]
fn rx_speed_is_the_counter_delta_per_second() {
    let s = stats("/dev/wlan0", 1000, 3000, 0, 2);
    assert_eq!(s.rx_speed(), 1000);
    assert_eq!(format_speed(s.rx_speed()), "1.00 kb/s");
}

#[test]
fn zero_elapsed_time_gives_zero_speed() {
    let s = stats("/dev/wlan0", 1000, 99_999, 5, 5);
    assert_eq!(s.rx_speed(), 0);
    assert_eq!(s.tx_speed(), 0);
}

#[test]
fn backwards_time_or_counter_gives_zero_speed() {
    let s = stats("/dev/wlan0", 1000, 3000, 10, 3);
    assert_eq!(s.rx_speed(), 0);
    let s = stats("/dev/wlan0", 3000, 1000, 0, 2);
    assert_eq!(s.rx_speed(), 0);
}

#[test]
fn fresh_statistics_have_zero_speeds() {
    let s = NetworkStatistics::fresh("/dev/eth0".to_string(), 12345, 777, 1_700_000_000);
    assert_eq!(s.rx_speed(), 0);
    assert_eq!(s.tx_speed(), 0);
    assert_eq!(s.device, "/dev/eth0");
}

#[test]
fn speed_formatting_switches_to_megabytes_at_a_million() {
    assert_eq!(format_speed(0), "0.00 kb/s");
    assert_eq!(format_speed(1500), "1.50 kb/s");
    assert_eq!(format_speed(999_990), "999.99 kb/s");
    assert_eq!(format_speed(1_000_000), "1.00 mb/s");
    assert_eq!(format_speed(2_340_000), "2.34 mb/s");
}

#[test]
fn device_type_decodes_assigned_and_lumped_codes() {
    assert_eq!(DeviceType::from(1u32), DeviceType::Ethernet);
    assert_eq!(DeviceType::from(2u32), DeviceType::Wifi);
    assert_eq!(DeviceType::from(5u32), DeviceType::Bluetooth);
    assert_eq!(DeviceType::from(14u32), DeviceType::Generic);
    assert_eq!(DeviceType::from(16u32), DeviceType::TunTap);
    assert_eq!(DeviceType::from(29u32), DeviceType::WireGuard);
    assert_eq!(DeviceType::from(7u32), DeviceType::Other);
    assert_eq!(DeviceType::from(32u32), DeviceType::Other);
    assert_eq!(DeviceType::from(33u32), DeviceType::Unknown);
    assert_eq!(DeviceType::from(0u32), DeviceType::Unknown);
}

#[test]
fn device_state_decodes_the_decade_codes() {
    assert_eq!(DeviceState::from(10u32), DeviceState::Unmanaged);
    assert_eq!(DeviceState::from(100u32), DeviceState::Activated);
    assert_eq!(DeviceState::from(120u32), DeviceState::Failed);
    assert_eq!(DeviceState::from(15u32), DeviceState::Unknown);
}

#[test]
fn connectivity_decodes_and_defaults_to_unknown() {
    assert_eq!(ConnectivityState::from(1u32), ConnectivityState::Disconnected);
    assert_eq!(ConnectivityState::from(2u32), ConnectivityState::Portal);
    assert_eq!(ConnectivityState::from(3u32), ConnectivityState::Loss);
    assert_eq!(ConnectivityState::from(4u32), ConnectivityState::Full);
    assert_eq!(ConnectivityState::from(0u32), ConnectivityState::Unknown);
    assert_eq!(ConnectivityState::from(9u32), ConnectivityState::Unknown);
}

#[test]
fn widget_goes_offline_when_wireless_is_disabled() {
    let mut w = NetworkWidget::new();
    let data = NetworkData {
        wifi_enabled: false,
        active_connections: vec![],
        wireless_access_points: vec![],
        connectivity: ConnectivityState::Unknown,
        network_statistics: vec![],
    };
    w.update(&data);
    assert_eq!(w.state, State::Offline);
    assert_eq!(w.icon, WifiIcon::Off);
    assert_eq!(w.icon.asset(), "icons/wifi-off.svg");
}

#[test]
fn widget_shows_disconnected_without_active_connections() {
    let mut w = NetworkWidget::new();
    let data = NetworkData {
        wifi_enabled: true,
        active_connections: vec![],
        wireless_access_points: vec![],
        connectivity: ConnectivityState::Full,
        network_statistics: vec![],
    };
    w.update(&data);
    assert_eq!(w.state, State::WifiDisconnected);
    assert_eq!(w.icon, WifiIcon::Off);
}

fn wifi_conn(name: &str, strength: u8, device: &str) -> ActiveConnectionInfo {
    ActiveConnectionInfo::WiFi {
        id: name.to_string(),
        name: name.to_string(),
        strength,
        device: device.to_string(),
    }
}

#[test]
fn wireless_signal_bands_at_25_and_50() {
    for (strength, icon, asset) in [
        (0u8, WifiIcon::Low, "icons/wifi-low.svg"),
        (24, WifiIcon::Low, "icons/wifi-low.svg"),
        (25, WifiIcon::High, "icons/wifi-high.svg"),
        (49, WifiIcon::High, "icons/wifi-high.svg"),
        (50, WifiIcon::Full, "icons/wifi-full.svg"),
        (100, WifiIcon::Full, "icons/wifi-full.svg"),
    ] {
        let mut w = NetworkWidget::new();
        let data = NetworkData {
            wifi_enabled: true,
            active_connections: vec![wifi_conn("home", strength, "/dev/wlan0")],
            wireless_access_points: vec![],
            connectivity: ConnectivityState::Full,
            network_statistics: vec![],
        };
        w.update(&data);
        assert_eq!(w.state, State::WifiConnected);
        assert_eq!(w.icon, icon);
        assert_eq!(w.icon.asset(), asset);
    }
}

#[test]
fn widget_takes_the_rates_of_the_last_matching_statistics_record() {
    let mut w = NetworkWidget::new();
    let data = NetworkData {
        wifi_enabled: true,
        active_connections: vec![wifi_conn("home", 80, "/dev/wlan0")],
        wireless_access_points: vec![],
        connectivity: ConnectivityState::Full,
        network_statistics: vec![
            stats("/dev/wlan0", 0, 4000, 0, 2),
            stats("/dev/eth0", 0, 9_999_999, 0, 1),
            stats("/dev/wlan0", 1000, 3000, 0, 2),
        ],
    };
    w.update(&data);
    assert_eq!(w.rx_speed, "1.00 kb/s");
}

#[test]
fn widget_keeps_old_rates_when_no_statistics_match() {
    let mut w = NetworkWidget::new();
    let data = NetworkData {
        wifi_enabled: true,
        active_connections: vec![wifi_conn("home", 80, "/dev/wlan0")],
        wireless_access_points: vec![],
        connectivity: ConnectivityState::Full,
        network_statistics: vec![stats("/dev/eth0", 0, 4000, 0, 2)],
    };
    w.update(&data);
    assert_eq!(w.rx_speed, "0.0 kb/s");
    assert_eq!(w.tx_speed, "0.0 kb/s");
}

#[test]
fn widget_is_unchanged_by_a_non_wireless_first_connection() {
    let mut w = NetworkWidget::new();
    let data = NetworkData {
        wifi_enabled: true,
        active_connections: vec![ActiveConnectionInfo::Wired {
            name: "lan".to_string(),
            speed: 1000,
        }],
        wireless_access_points: vec![],
        connectivity: ConnectivityState::Full,
        network_statistics: vec![],
    };
    w.update(&data);
    assert_eq!(w.state, State::WifiConnected);
    assert_eq!(w.icon, WifiIcon::Off);
    assert_eq!(w.rx_speed, "0.0 kb/s");
}

#[test]
fn connections_sort_vpn_then_wired_then_wireless_by_name() {
    let v = vec![
        wifi_conn("zeta", 10, "/dev/wlan0"),
        ActiveConnectionInfo::Wired { name: "office".to_string(), speed: 100 },
        wifi_conn("alpha", 10, "/dev/wlan0"),
        ActiveConnectionInfo::Vpn { name: "tunnel".to_string(), object_path: "/vpn/1".to_string() },
    ];
    let sorted = sort_connections(v);
    let names: Vec<String> = sorted.iter().map(|c| c.name()).collect();
    assert_eq!(names, vec!["tunnel", "office", "alpha", "zeta"]);
}

#[test]
fn strength_change_updates_first_matching_access_point_and_wifi_connection() {
    let mut data = NetworkData {
        wifi_enabled: true,
        active_connections: vec![
            ActiveConnectionInfo::Wired { name: "lan".to_string(), speed: 100 },
            wifi_conn("home", 40, "/dev/wlan0"),
        ],
        wireless_access_points: vec![ap("cafe", 10, "/ap/0"), ap("home", 40, "/ap/1"), ap("home", 41, "/ap/2")],
        connectivity: ConnectivityState::Full,
        network_statistics: vec![],
    };
    data.on_strength_changed("home", 77);
    assert_eq!(data.wireless_access_points[0].strength, 10);
    assert_eq!(data.wireless_access_points[1].strength, 77);
    assert_eq!(data.wireless_access_points[2].strength, 41);
    match &data.active_connections[1] {
        ActiveConnectionInfo::WiFi { strength, .. } => assert_eq!(*strength, 77),
        other => panic!("unexpected connection {:?}", other),
    }
}

#[test]
fn strength_change_skips_a_non_wifi_connection_with_the_same_name() {
    let mut data = NetworkData {
        wifi_enabled: true,
        active_connections: vec![
            ActiveConnectionInfo::Wired { name: "home".to_string(), speed: 100 },
            wifi_conn("home", 40, "/dev/wlan0"),
        ],
        wireless_access_points: vec![],
        connectivity: ConnectivityState::Full,
        network_statistics: vec![],
    };
    data.on_strength_changed("home", 77);
    // The first connection named "home" is wired, so no strength changes.
    match &data.active_connections[1] {
        ActiveConnectionInfo::WiFi { strength, .. } => assert_eq!(*strength, 40),
        other => panic!("unexpected connection {:?}", other),
    }
}

#[test]
fn byte_counter_events_shift_the_samples_of_every_matching_record() {
    let mut data = NetworkData {
        wifi_enabled: true,
        active_connections: vec![],
        wireless_access_points: vec![],
        connectivity: ConnectivityState::Full,
        network_statistics: vec![
            stats("/dev/wlan0", 0, 1000, 0, 10),
            stats("/dev/eth0", 0, 5, 0, 10),
        ],
    };
    data.on_rx_bytes_at("/dev/wlan0", 3000, 12);
    let s = &data.network_statistics[0];
    assert_eq!((s.prev_rx, s.rx, s.prev_rx_time, s.rx_time), (1000, 3000, 10, 12));
    assert_eq!(s.rx_speed(), 1000);
    let other = &data.network_statistics[1];
    assert_eq!((other.prev_rx, other.rx), (0, 5));
}

#[test]
fn clock_stamped_byte_counter_event_records_the_new_value() {
    let mut data = NetworkData {
        wifi_enabled: true,
        active_connections: vec![],
        wireless_access_points: vec![],
        connectivity: ConnectivityState::Full,
        network_statistics: vec![stats("/dev/wlan0", 0, 1000, 0, 10)],
    };
    // The sample time comes from the real clock; the counters must shift
    // regardless of what it returned.
    data.on_tx_bytes_changed("/dev/wlan0", 4321);
    let s = &data.network_statistics[0];
    assert_eq!(s.tx, 4321);
    assert_eq!(s.prev_tx, 0);
    assert!(s.tx_time >= s.prev_tx_time);
}

#[test]
fn dedup_keeps_the_strongest_access_point_per_ssid_and_later_ties_win() {
    let v = vec![
        ap("home", 50, "/ap/0"),
        ap("cafe", 20, "/ap/1"),
        ap("home", 70, "/ap/2"),
        ap("home", 70, "/ap/3"),
        ap("home", 60, "/ap/4"),
    ];
    let out = dedup_strongest(v);
    assert_eq!(out.len(), 2);
    let home = out.iter().find(|a| a.ssid == "home").unwrap();
    assert_eq!(home.strength, 70);
    // Of the two equally strong scans the later one replaced the earlier.
    assert_eq!(home.path, "/ap/3");
    assert_eq!(out.iter().find(|a| a.ssid == "cafe").unwrap().strength, 20);
}

#[test]
fn access_points_sort_by_strength_in_both_directions() {
    let v = vec![ap("a", 30, "/ap/0"), ap("b", 10, "/ap/1"), ap("c", 90, "/ap/2")];
    let asc = sort_access_points_ascending(v.clone());
    let asc_strengths: Vec<u8> = asc.iter().map(|a| a.strength).collect();
    assert_eq!(asc_strengths, vec![10, 30, 90]);
    let desc = sort_access_points_descending(v);
    let desc_strengths: Vec<u8> = desc.iter().map(|a| a.strength).collect();
    assert_eq!(desc_strengths, vec![90, 30, 10]);
}

#[test]
fn simple_field_events_replace_only_their_field() {
    let mut data = NetworkData {
        wifi_enabled: false,
        active_connections: vec![],
        wireless_access_points: vec![],
        connectivity: ConnectivityState::Unknown,
        network_statistics: vec![],
    };
    data.on_wifi_enabled_changed(true);
    assert!(data.wifi_enabled);
    data.on_connectivity_changed(4);
    assert_eq!(data.connectivity, ConnectivityState::Full);
    data.on_active_connections_changed(vec![wifi_conn("home", 1, "/dev/wlan0")]);
    assert_eq!(data.active_connections.len(), 1);
    assert!(data.wifi_enabled);
}
