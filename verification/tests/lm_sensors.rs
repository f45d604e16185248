use desktop_exporter::helpers::lm_sensors::{
    get_lm_sensors, DetectedSubfeature, ReadError, ReadPlan, SensorValueWrapper, FEATURE_INIT_COUNT,
    SENSORS_MODE_R,
};

fn found(chip: u64, prefix: &str, name: &str, number: i32, flags: u32) -> DetectedSubfeature {
    DetectedSubfeature { chip, prefix: prefix.to_string(), name: name.to_string(), number, flags }
}

fn walk() -> Vec<DetectedSubfeature> {
    vec![
        found(1, "k10temp", "temp1_input", 0, SENSORS_MODE_R),
        found(1, "k10temp", "temp1_max", 1, SENSORS_MODE_R),
        found(2, "amdgpu", "fan1_input", 16, SENSORS_MODE_R),
        found(2, "amdgpu", "fan1_min", 17, 0),
        found(3, "kraken2", "temp1_input", 5, SENSORS_MODE_R | 2),
    ]
}

fn some(values: &[&str]) -> Vec<Option<String>> {
    values.iter().map(|v| Some(v.to_string())).collect()
}

#[test]
fn new_session_is_empty_and_asks_for_setup() {
    assert_eq!(FEATURE_INIT_COUNT, 10);
    let mut session = get_lm_sensors();
    assert!(session.needs_setup());
    assert!(!session.needs_cleanup());
    assert!(session.handles().is_empty());
    assert!(session.metrics().is_empty());
    assert_eq!(session.begin_read(), ReadPlan::Enumerate { setup: true });
    assert_eq!(session.begin_read(), ReadPlan::Enumerate { setup: true });
    assert_eq!(session.get_lm_sensor_metrics(&Vec::new()), Ok(String::new()));
}

#[test]
fn init_keeps_readable_subfeatures_of_interest() {
    let mut session = get_lm_sensors();
    session.init(&walk());
    assert!(!session.needs_setup());
    assert!(session.needs_cleanup());
    assert_eq!(session.metrics(), vec!["lm_sensors_tctl", "amdgpu_fan1_speed", "aio_liquid_temp"]);
    assert_eq!(
        session.handles(),
        vec![
            SensorValueWrapper { chip: 1, subfeature_number: 0 },
            SensorValueWrapper { chip: 2, subfeature_number: 16 },
            SensorValueWrapper { chip: 3, subfeature_number: 5 },
        ]
    );
}

#[test]
fn init_skips_subfeatures_that_cannot_be_read() {
    let mut session = get_lm_sensors();
    session.init(&vec![
        found(1, "k10temp", "temp1_input", 0, 0),
        found(1, "k10temp", "temp2_input", 4, 2),
        found(1, "k10temp", "temp2_input", 9, 3),
    ]);
    assert_eq!(session.metrics(), vec!["lm_sensors_tdie"]);
    assert_eq!(session.handles(), vec![SensorValueWrapper { chip: 1, subfeature_number: 9 }]);
}

#[test]
fn init_skips_keys_that_are_not_of_interest() {
    let mut session = get_lm_sensors();
    session.init(&vec![
        found(1, "k10temp", "temp3_input", 0, SENSORS_MODE_R),
        found(1, "k10temp/", "temp1_input", 0, SENSORS_MODE_R),
        found(1, "", "k10temp/temp1_input", 0, SENSORS_MODE_R),
        found(1, "K10temp", "temp1_input", 0, SENSORS_MODE_R),
    ]);
    assert!(session.metrics().is_empty());
    assert!(!session.needs_cleanup());
    assert!(!session.needs_setup());
}

#[test]
fn every_key_of_interest_has_its_metric_name() {
    let table = [
        ("k10temp", "temp1_input", "lm_sensors_tctl"),
        ("k10temp", "temp2_input", "lm_sensors_tdie"),
        ("asus_wmi_sensors", "temp1_input", "lm_sensors_cpu_temp"),
        ("asus_wmi_sensors", "temp2_input", "lm_sensors_mb_temp"),
        ("asus_wmi_sensors", "temp3_input", "lm_sensors_chipset_temp"),
        ("asus_wmi_sensors", "fan1_input", "lm_sensors_cpu_fan"),
        ("asus_wmi_sensors", "fan3_input", "lm_sensors_chassis_fan"),
        ("asus_wmi_sensors", "fan4_input", "lm_sensors_chassis_fan_3"),
        ("asus_wmi_sensors", "in0_input", "lm_sensors_core_voltage"),
        ("asus_wmi_sensors", "in2_input", "lm_sensors_plus_5_voltage"),
        ("asus_wmi_sensors", "in1_input", "lm_sensors_plus_12_voltage"),
        ("asus_wmi_sensors", "in3_input", "lm_sensors_plus_3vsb_voltage"),
        ("kraken2", "temp1_input", "aio_liquid_temp"),
        ("kraken2", "fan1_input", "aio_fan_speed"),
        ("kraken2", "fan2_input", "aio_pump_speed"),
        ("amdgpu", "in0_input", "amdgpu_vddgfx_voltage"),
        ("amdgpu", "fan1_input", "amdgpu_fan1_speed"),
        ("amdgpu", "temp2_input", "amdgpu_junction_temp"),
        ("amdgpu", "temp3_input", "amdgpu_mem_temp"),
        ("amdgpu", "power1_average", "amdgpu_slowppt_wattage"),
        ("iwlwifi_1", "temp1_input", "wireless_temp"),
        ("hidpp_battery_0", "in0_input", "mouse_battery_voltage"),
    ];
    let detected: Vec<DetectedSubfeature> = table
        .iter()
        .enumerate()
        .map(|(i, (prefix, name, _))| found(i as u64, prefix, name, i as i32, SENSORS_MODE_R))
        .collect();
    let mut session = get_lm_sensors();
    session.init(&detected);
    let expected: Vec<String> = table.iter().map(|(_, _, metric)| metric.to_string()).collect();
    assert_eq!(session.metrics(), expected);
    assert_eq!(session.handles().len(), 22);
    assert_eq!(session.handles()[21], SensorValueWrapper { chip: 21, subfeature_number: 21 });
}

#[test]
fn a_metric_found_twice_keeps_its_place_and_takes_the_later_handle() {
    let mut session = get_lm_sensors();
    session.init(&vec![
        found(1, "amdgpu", "fan1_input", 16, SENSORS_MODE_R),
        found(2, "k10temp", "temp1_input", 0, SENSORS_MODE_R),
        found(7, "amdgpu", "fan1_input", 3, SENSORS_MODE_R),
    ]);
    assert_eq!(session.metrics(), vec!["amdgpu_fan1_speed", "lm_sensors_tctl"]);
    assert_eq!(
        session.handles(),
        vec![
            SensorValueWrapper { chip: 7, subfeature_number: 3 },
            SensorValueWrapper { chip: 2, subfeature_number: 0 },
        ]
    );
}

#[test]
fn init_rebuilds_the_index_from_the_new_walk_alone() {
    let mut session = get_lm_sensors();
    session.init(&walk());
    session.init(&vec![found(9, "iwlwifi_1", "temp1_input", 2, SENSORS_MODE_R)]);
    assert_eq!(session.metrics(), vec!["wireless_temp"]);
    session.init(&Vec::new());
    assert!(session.metrics().is_empty());
    assert!(!session.needs_cleanup());
    assert!(!session.needs_setup());
}

#[test]
fn the_tenth_read_after_a_walk_asks_for_a_new_walk() {
    let mut session = get_lm_sensors();
    session.init(&walk());
    let before = session.metrics();
    for _ in 0..9 {
        assert_eq!(session.begin_read(), ReadPlan::Serve);
        assert_eq!(session.metrics(), before);
    }
    assert_eq!(session.begin_read(), ReadPlan::Enumerate { setup: false });
    assert_eq!(session.begin_read(), ReadPlan::Enumerate { setup: false });
    assert_eq!(session.metrics(), before);
    session.init(&vec![found(9, "iwlwifi_1", "temp1_input", 2, SENSORS_MODE_R)]);
    assert_eq!(session.metrics(), vec!["wireless_temp"]);
    for _ in 0..9 {
        assert_eq!(session.begin_read(), ReadPlan::Serve);
    }
    assert_eq!(session.begin_read(), ReadPlan::Enumerate { setup: false });
}

#[test]
fn a_walk_between_reads_starts_the_count_again() {
    let mut session = get_lm_sensors();
    session.init(&walk());
    for _ in 0..5 {
        assert_eq!(session.begin_read(), ReadPlan::Serve);
    }
    session.init(&walk());
    for _ in 0..9 {
        assert_eq!(session.begin_read(), ReadPlan::Serve);
    }
    assert_eq!(session.begin_read(), ReadPlan::Enumerate { setup: false });
}

#[test]
fn readings_are_rendered_in_the_order_of_the_index() {
    let mut session = get_lm_sensors();
    session.init(&walk());
    assert_eq!(
        session.get_lm_sensor_metrics(&some(&["41.5", "1200", "29.3"])),
        Ok("lm_sensors_tctl 41.5\namdgpu_fan1_speed 1200\naio_liquid_temp 29.3\n".to_string())
    );
}

#[test]
fn a_failed_query_fails_the_read_at_its_place() {
    let mut session = get_lm_sensors();
    session.init(&walk());
    let values = vec![Some("41.5".to_string()), None, None];
    assert_eq!(session.get_lm_sensor_metrics(&values), Err(ReadError::QueryFailed(1)));
    let values = vec![None, Some("1".to_string()), Some("2".to_string())];
    assert_eq!(session.get_lm_sensor_metrics(&values), Err(ReadError::QueryFailed(0)));
}

#[test]
fn readings_must_be_one_for_each_entry() {
    let mut session = get_lm_sensors();
    session.init(&walk());
    assert_eq!(session.get_lm_sensor_metrics(&some(&["1", "2"])), Err(ReadError::WrongCount));
    assert_eq!(
        session.get_lm_sensor_metrics(&some(&["1", "2", "3", "4"])),
        Err(ReadError::WrongCount)
    );
    assert_eq!(session.get_lm_sensor_metrics(&vec![None, None]), Err(ReadError::WrongCount));
}
