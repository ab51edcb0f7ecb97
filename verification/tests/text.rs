use x870e_lcd::hwmon::{monitor_metrics, short_cpu_name, short_gpu_name, SensorMetric};
use x870e_lcd::media::{filter_string, rotation_from_degrees, scale_filter, scale_mode_named, Rotation, ScaleMode};
use x870e_lcd::netdev::net_totals;
use x870e_lcd::protocol::{animation_mode, default_wallpaper_mode, monitor_theme, DisplayMode, HwLayout};
use x870e_lcd::renderer::{dashboard_theme_named, ThemeColor};
use x870e_lcd::text::{replace_all, str_ends_with, str_equals};

#[test]
fn replace_all_is_left_to_right_and_non_overlapping() {
    assert_eq!(replace_all("aaa", "aa", "b"), "ba");
    assert_eq!(replace_all("abcabc", "bc", "X"), "aXaX");
    assert_eq!(replace_all("none here", "zz", "y"), "none here");
    assert_eq!(replace_all("", "x", "y"), "");
    assert_eq!(replace_all("ééé", "é", "e"), "eee");
}

#[test]
fn string_helpers() {
    assert!(str_equals("gradient", "gradient"));
    assert!(!str_equals("gradient", "gradients"));
    assert!(str_ends_with("file.bin", ".bin"));
    assert!(!str_ends_with("bin", ".bin"));
}

#[test]
fn processor_and_gpu_names_are_shortened() {
    assert_eq!(short_cpu_name("AMD Ryzen 9 9950X 16-Core Processor"), "Ryzen 9 9950X");
    assert_eq!(short_cpu_name("Intel(R) Core(TM) i9 Processor"), "Intel(R) Core(TM) i9");
    assert_eq!(short_cpu_name("Plain"), "Plain");
    assert_eq!(short_gpu_name("NVIDIA GeForce RTX 4090"), "RTX RTX 4090");
    assert_eq!(short_gpu_name("NVIDIA RTX A6000"), "RTX A6000");
}

#[test]
fn monitor_layout_rules() {
    assert_eq!(monitor_metrics(HwLayout::Single), &[SensorMetric::CpuTemp]);
    assert_eq!(monitor_metrics(HwLayout::Triple), &[SensorMetric::CpuTemp, SensorMetric::GpuTemp, SensorMetric::RamUsage]);
    assert_eq!(monitor_metrics(HwLayout::Multi).len(), 5);
    assert_eq!(monitor_metrics(HwLayout::Multi)[0], SensorMetric::CpuModel);
    assert_eq!(monitor_theme(HwLayout::Multi, 1), 3);
    assert_eq!(monitor_theme(HwLayout::Dual, 0), 1);
    assert_eq!(monitor_theme(HwLayout::Dual, 9), 4);
    assert_eq!(monitor_theme(HwLayout::Single, 2), 2);
    assert_eq!(animation_mode(7), DisplayMode::Animation(1));
    assert_eq!(animation_mode(0), DisplayMode::Animation(0));
    assert_eq!(default_wallpaper_mode(9), DisplayMode::DefaultWallpaper(5));
    assert_eq!(default_wallpaper_mode(3), DisplayMode::DefaultWallpaper(3));
}

#[test]
fn media_names_and_filters() {
    assert_eq!(scale_mode_named("FIT"), ScaleMode::Fit);
    assert_eq!(scale_mode_named("letterbox"), ScaleMode::Fit);
    assert_eq!(scale_mode_named("Stretch"), ScaleMode::Stretch);
    assert_eq!(scale_mode_named("anything"), ScaleMode::Fill);
    assert_eq!(rotation_from_degrees(90), Rotation::Rot90);
    assert_eq!(rotation_from_degrees(45), Rotation::Rot0);
    assert_eq!(scale_filter(ScaleMode::Stretch), Some("scale=720:1280"));
    assert_eq!(scale_filter(ScaleMode::CustomCrop), None);
    assert_eq!(filter_string(Rotation::Rot0, "scale=720:1280"), "scale=720:1280");
    assert_eq!(filter_string(Rotation::Rot180, "scale=720:1280"), "hflip,vflip,scale=720:1280");
    assert_eq!(dashboard_theme_named("Cyber"), ThemeColor::CyberCyan);
    assert_eq!(dashboard_theme_named("purple"), ThemeColor::NeonPurple);
    assert_eq!(dashboard_theme_named("rog"), ThemeColor::RogRed);
}

#[test]
fn net_totals_skip_headers_and_loopback() {
    let text = "Inter-|   Receive                                                |  Transmit\n face |bytes    packets errs drop fifo frame compressed multicast|bytes    packets errs drop fifo colls carrier compressed\n    lo: 1000      10    0    0    0     0          0         0     1000      10    0    0    0     0       0          0\n  eth0: 5000      50    0    0    0     0          0         0     7000      70    0    0    0     0       0          0\r\n wlan0: 300 3 0 0 0 0 0 0 400 4 0 0 0 0 0 0\n";
    assert_eq!(net_totals(text), (5300, 7400));
    assert_eq!(net_totals(""), (0, 0));
    assert_eq!(net_totals("a\nb\neth0: x 1 2 3 4 5 6 7 9\n"), (0, 9));
    let huge = format!("h\nh\neth0: {} 0 0 0 0 0 0 0 1\neth1: 5 0 0 0 0 0 0 0 1\n", u64::MAX);
    assert_eq!(net_totals(&huge), (u64::MAX, 2));
}
