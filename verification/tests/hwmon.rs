use x870e_lcd::hwmon::{csv_fields, is_cpu_sensor_chip, is_gpu_sensor_chip, temperature_warning, warning_label};
use x870e_lcd::protocol::HwLayout;

#[test]
fn warning_needs_a_threshold_and_a_hot_reading() {
    assert!(!temperature_warning(None, Some(120), Some(120)));
    assert!(temperature_warning(Some(80), Some(80), None));
    assert!(temperature_warning(Some(80), Some(40), Some(95)));
    assert!(!temperature_warning(Some(80), Some(79), Some(79)));
    assert!(!temperature_warning(Some(80), None, None));
}

#[test]
fn warning_labels_per_layout() {
    assert_eq!(warning_label(HwLayout::Single), "TEMP WARN");
    assert_eq!(warning_label(HwLayout::Dual), "CPU WARN");
    assert_eq!(warning_label(HwLayout::Triple), "CPU WARN");
    assert_eq!(warning_label(HwLayout::Multi), "TEMP ALERT");
}


#[test]
fn gpu_query_fields_are_split_and_trimmed() {
    let f = csv_fields("NVIDIA GeForce RTX 4090, 45, 3, 2048, 24564\n");
    assert_eq!(f, vec!["NVIDIA GeForce RTX 4090", "45", "3", "2048", "24564"]);
    assert_eq!(csv_fields(""), vec![""]);
    assert_eq!(csv_fields(" a ,, b,"), vec!["a", "", "b", ""]);
    assert_eq!(csv_fields("solo"), vec!["solo"]);
}

#[test]
fn sensor_chip_names() {
    assert!(is_cpu_sensor_chip("k10temp\n"));
    assert!(is_cpu_sensor_chip("zenpower"));
    assert!(is_cpu_sensor_chip(" coretemp "));
    assert!(!is_cpu_sensor_chip("amdgpu\n"));
    assert!(!is_cpu_sensor_chip("k10temp2"));
    assert!(is_gpu_sensor_chip("amdgpu\n"));
    assert!(!is_gpu_sensor_chip("nvme"));
}
