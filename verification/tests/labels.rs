use simplebar::clock::{Clock, TimeOfDay};
use simplebar::sysinfo::{cpu_average_tenths, cpu_label, SysInfoData};
use simplebar::text::{str_le, two_digit_string, u64_to_string};
use simplebar::volume::{Volume, VolumeIcon};

#[test]
fn decimal_rendering_matches_the_standard_formatter() {
    for n in [0u64, 1, 9, 10, 42, 100, 1009, u64::MAX] {
        assert_eq!(u64_to_string(n), n.to_string());
    }
}

#[test]
fn two_digit_rendering_is_zero_padded() {
    assert_eq!(two_digit_string(0), "00");
    assert_eq!(two_digit_string(7), "07");
    assert_eq!(two_digit_string(59), "59");
}

#[test]
fn string_order_matches_the_standard_library() {
    for (a, b) in [
        ("", ""),
        ("", "a"),
        ("a", "ab"),
        ("abc", "abd"),
        ("b", "ab"),
        ("0name", "1name"),
        ("zz", "zz"),
    ] {
        assert_eq!(str_le(a, b), a <= b, "{:?} vs {:?}", a, b);
        assert_eq!(str_le(b, a), b <= a, "{:?} vs {:?}", b, a);
    }
}

#[test]
fn clock_labels_are_zero_padded_time_fields() {
    let c = Clock { time: TimeOfDay { hour: 9, minute: 5, second: 7 } };
    assert_eq!(c.label_hm(), "09:05");
    assert_eq!(c.label_hms(), "09:05:07");
    let c = Clock { time: TimeOfDay { hour: 23, minute: 59, second: 0 } };
    assert_eq!(c.label_hms(), "23:59:00");
}

#[test]
fn a_fresh_clock_reads_a_plausible_wall_time() {
    // The time itself depends on the clock; the shape of the label does not.
    let c = Clock::new();
    assert!(c.time.hour < 24 && c.time.minute < 60 && c.time.second < 60);
    let label = c.label_hms();
    let bytes = label.as_bytes();
    assert_eq!(bytes.len(), 8);
    assert_eq!(bytes[2], b':');
    assert_eq!(bytes[5], b':');
    for i in [0, 1, 3, 4, 6, 7] {
        assert!(bytes[i].is_ascii_digit());
    }
}

#[test]
fn volume_icon_bands_at_30_and_70_with_mute_overriding() {
    assert_eq!(Volume { volume: 0, muted: false, sink_name: String::new() }.icon(), VolumeIcon::Low);
    assert_eq!(Volume { volume: 29, muted: false, sink_name: String::new() }.icon(), VolumeIcon::Low);
    assert_eq!(Volume { volume: 30, muted: false, sink_name: String::new() }.icon(), VolumeIcon::Medium);
    assert_eq!(Volume { volume: 69, muted: false, sink_name: String::new() }.icon(), VolumeIcon::Medium);
    assert_eq!(Volume { volume: 70, muted: false, sink_name: String::new() }.icon(), VolumeIcon::High);
    assert_eq!(Volume { volume: 100, muted: true, sink_name: String::new() }.icon(), VolumeIcon::Mute);
    assert_eq!(VolumeIcon::Mute.asset(), "icons/volume-mute.svg");
    assert_eq!(VolumeIcon::High.asset(), "icons/volume-high.svg");
}

#[test]
fn volume_updates_and_mute_toggle_produce_the_write_back_command() {
    let mut v = Volume::new();
    assert_eq!(v.volume, 50);
    assert_eq!(v.sink_name, "default");
    v.apply_sink_update(80, false, 3);
    assert_eq!(v.volume, 80);
    assert_eq!(v.sink_name, "3");
    assert_eq!(v.label(), "80");
    let cmd = v.toggle_mute();
    assert!(v.muted);
    assert!(cmd.muted);
    assert_eq!(cmd.sink, "3");
    let cmd = v.toggle_mute();
    assert!(!cmd.muted);
}

#[test]
fn processor_load_averages_truncate_and_tolerate_no_cores() {
    assert_eq!(cpu_average_tenths(&vec![]), 0);
    assert_eq!(cpu_average_tenths(&vec![100, 200]), 150);
    assert_eq!(cpu_average_tenths(&vec![10, 11]), 10);
    assert_eq!(cpu_average_tenths(&vec![u32::MAX, u32::MAX]), u32::MAX);
}

#[test]
fn processor_load_label_shows_one_fraction_digit() {
    assert_eq!(cpu_label(150), "CPU: 15.0%");
    assert_eq!(cpu_label(7), "CPU: 0.7%");
    assert_eq!(cpu_label(1000), "CPU: 100.0%");
    let data = SysInfoData { cpu_usage_tenths: 123, memory_total: 16, memory_used: 8 };
    assert_eq!(cpu_label(data.cpu_usage_tenths), "CPU: 12.3%");
}
