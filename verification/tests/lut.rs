use soul_listener::eink::lut::{LutError, LutPhase, WaveformLut, WaveformLutSet};
use soul_listener::eink::waveform_mode::WaveformMode;

fn two_phases() -> Vec<LutPhase> {
    vec![LutPhase { voltage: -15, duration_us: 10000 }, LutPhase { voltage: 15, duration_us: 10000 }]
}

/// The version, temperature and waveforms of a JSON LUT document, read
/// through `serde_json::Value`.
fn document(json: &str) -> (u8, i8, Vec<(String, Vec<LutPhase>)>) {
    let v: serde_json::Value = serde_json::from_str(json).unwrap();
    let version = v["version"].as_u64().unwrap() as u8;
    let temperature = v["temperature"].as_i64().unwrap() as i8;
    let mut waveforms = Vec::new();
    for (name, w) in v["waveforms"].as_object().unwrap() {
        let phases = w["phases"]
            .as_array()
            .unwrap()
            .iter()
            .map(|p| LutPhase {
                voltage: p["voltage"].as_i64().unwrap() as i8,
                duration_us: p["duration_us"].as_u64().unwrap() as u16,
            })
            .collect();
        waveforms.push((name.clone(), phases));
    }
    (version, temperature, waveforms)
}

fn load_json(json: &str) -> Result<WaveformLutSet, LutError> {
    let (version, temperature, waveforms) = document(json);
    WaveformLutSet::from_json_document(version, temperature, waveforms)
}

fn write_json(set: &WaveformLutSet) -> String {
    let (version, temperature, waveforms) = set.to_json_document();
    let mut map = serde_json::Map::new();
    for (name, phases) in waveforms {
        let ps: Vec<serde_json::Value> = phases
            .iter()
            .map(|p| {
                let mut o = serde_json::Map::new();
                o.insert("voltage".to_string(), serde_json::Value::from(p.voltage));
                o.insert("duration_us".to_string(), serde_json::Value::from(p.duration_us));
                serde_json::Value::Object(o)
            })
            .collect();
        let mut w = serde_json::Map::new();
        w.insert("phases".to_string(), serde_json::Value::Array(ps));
        map.insert(name, serde_json::Value::Object(w));
    }
    let mut root = serde_json::Map::new();
    root.insert("version".to_string(), serde_json::Value::from(version));
    root.insert("temperature".to_string(), serde_json::Value::from(temperature));
    root.insert("waveforms".to_string(), serde_json::Value::Object(map));
    serde_json::to_string_pretty(&serde_json::Value::Object(root)).unwrap()
}

#[test]
fn test_lut_phase_creation() {
    let phase = LutPhase { voltage: -15, duration_us: 10000 };
    assert_eq!(phase.voltage, -15);
    assert_eq!(phase.duration_us, 10000);
}

#[test]
fn test_waveform_lut_creation() {
    let lut = WaveformLut::new(WaveformMode::GC16, two_phases(), (20, 30));
    assert_eq!(lut.mode, WaveformMode::GC16);
    assert_eq!(lut.phases.len(), 2);
    assert_eq!(lut.total_duration_ms, 20); // 20000µs = 20ms
    assert_eq!(lut.temperature_range, (20, 30));
}

#[test]
fn test_lut_validation_valid() {
    let lut = WaveformLut::new(WaveformMode::GC16, two_phases(), (20, 30));
    assert!(lut.validate().is_ok());
}

#[test]
fn test_lut_validation_invalid_voltage() {
    let phases = vec![LutPhase { voltage: -25, duration_us: 10000 }];
    let lut = WaveformLut::new(WaveformMode::GC16, phases, (20, 30));
    assert!(matches!(lut.validate(), Err(LutError::InvalidVoltage(-25))));
}

#[test]
fn test_lut_validation_invalid_duration() {
    let phases = vec![LutPhase { voltage: 15, duration_us: 0 }];
    let lut = WaveformLut::new(WaveformMode::GC16, phases, (20, 30));
    assert!(matches!(lut.validate(), Err(LutError::InvalidDuration(0))));
}

#[test]
fn test_lut_set_get_set() {
    let mut lut_set = WaveformLutSet::new();
    let phases = vec![LutPhase { voltage: -15, duration_us: 10000 }];
    let lut = WaveformLut::new(WaveformMode::GC16, phases, (20, 30));
    lut_set.set_lut(lut.clone());
    let retrieved = lut_set.get_lut(WaveformMode::GC16);
    assert!(retrieved.is_some());
    assert_eq!(retrieved.unwrap().mode, WaveformMode::GC16);
    assert!(lut_set.get_lut(WaveformMode::DU4).is_none());
}

#[test]
fn test_json_parsing_valid() {
    let json = r#"{
        "version": 1,
        "temperature": 25,
        "waveforms": {
            "GC16": {
                "phases": [
                    {"voltage": -15, "duration_us": 10000},
                    {"voltage": 15, "duration_us": 10000}
                ]
            }
        }
    }"#;
    let lut_set = load_json(json).unwrap();
    assert!(lut_set.gc16.is_some());
    let gc16 = lut_set.gc16.as_ref().unwrap();
    assert_eq!(gc16.phases.len(), 2);
    assert_eq!(gc16.phases[0].voltage, -15);
    assert_eq!(gc16.phases[0].duration_us, 10000);
}

#[test]
fn test_json_parsing_invalid_version() {
    let json = r#"{
        "version": 2,
        "temperature": 25,
        "waveforms": {}
    }"#;
    let result = load_json(json);
    assert!(matches!(result, Err(LutError::UnsupportedVersion(2))));
}

#[test]
fn test_json_roundtrip() {
    let mut lut_set = WaveformLutSet::new();
    lut_set.set_lut(WaveformLut::new(WaveformMode::GC16, two_phases(), (20, 30)));
    let json = write_json(&lut_set);
    let lut_set2 = load_json(&json).unwrap();
    assert!(lut_set2.gc16.is_some());
    let gc16 = lut_set2.gc16.as_ref().unwrap();
    assert_eq!(gc16.phases.len(), 2);
    assert_eq!(gc16.phases[0].voltage, -15);
    assert!(lut_set2.gc16.is_some());
    let gc16 = lut_set2.gc16.as_ref().unwrap();
    assert_eq!(gc16.phases.len(), 2);
    assert_eq!(gc16.phases[0].voltage, -15);
}

#[test]
fn test_multiple_modes_in_set() {
    let json = r#"{
        "version": 1,
        "temperature": 25,
        "waveforms": {
            "GC16": { "phases": [ {"voltage": -15, "duration_us": 10000} ] },
            "DU4": { "phases": [ {"voltage": -10, "duration_us": 5000} ] },
            "A2": { "phases": [ {"voltage": 15, "duration_us": 3000} ] }
        }
    }"#;
    let lut_set = load_json(json).unwrap();
    assert!(lut_set.gc16.is_some());
    assert!(lut_set.du4.is_some());
    assert!(lut_set.a2.is_some());
    assert!(lut_set.gl16.is_none());
    assert!(lut_set.du.is_none());
}

#[test]
fn test_binary_format_valid() {
    let mut data = Vec::new();
    data.extend_from_slice(b"WFM\0");
    data.push(1);
    data.push(25);
    data.push(1);
    data.push(0);
    data.extend_from_slice(&2u16.to_le_bytes());
    data.push((-15i8) as u8);
    data.extend_from_slice(&10000u16.to_le_bytes());
    data.push(15u8);
    data.extend_from_slice(&10000u16.to_le_bytes());

    let lut_set = WaveformLutSet::from_bytes(&data).unwrap();
    assert!(lut_set.gc16.is_some());
    let gc16 = lut_set.gc16.as_ref().unwrap();
    assert_eq!(gc16.phases.len(), 2);
    assert_eq!(gc16.phases[0].voltage, -15);
    assert_eq!(gc16.phases[1].voltage, 15);
}

#[test]
fn test_binary_format_invalid_magic() {
    let data = vec![b'B', b'A', b'D', 0];
    let result = WaveformLutSet::from_bytes(&data);
    assert!(matches!(result, Err(LutError::InvalidFormat(_))));
}

#[test]
fn test_binary_format_truncated() {
    let data = vec![b'W', b'F', b'M', 0, 1, 25];
    let result = WaveformLutSet::from_bytes(&data);
    assert!(result.is_err());
}

#[test]
fn test_binary_roundtrip() {
    let mut lut_set = WaveformLutSet::new();
    lut_set.set_lut(WaveformLut::new(WaveformMode::GC16, two_phases(), (20, 30)));
    let binary = lut_set.to_bytes();
    let lut_set2 = WaveformLutSet::from_bytes(&binary).unwrap();
    assert!(lut_set2.gc16.is_some());
    let gc16 = lut_set2.gc16.as_ref().unwrap();
    assert_eq!(gc16.phases.len(), 2);
    assert_eq!(gc16.phases[0].voltage, -15);
}

#[test]
fn binary_roundtrip_keeps_every_mode_with_range_20_30() {
    let mut set = WaveformLutSet::new();
    set.set_lut(WaveformLut::new(WaveformMode::DU, vec![LutPhase { voltage: 5, duration_us: 300 }], (0, 1)));
    set.set_lut(WaveformLut::new(WaveformMode::GCU, two_phases(), (-40, 80)));
    let back = WaveformLutSet::from_bytes(&set.to_bytes()).unwrap();
    assert!(back.gc16.is_none() && back.gl16.is_none() && back.du4.is_none());
    assert!(back.a2.is_none() && back.gcc16.is_none());
    let du = back.du.as_ref().unwrap();
    assert_eq!(du.phases, vec![LutPhase { voltage: 5, duration_us: 300 }]);
    assert_eq!(du.temperature_range, (20, 30));
    assert_eq!(du.mode, WaveformMode::DU);
    let gcu = back.gcu.as_ref().unwrap();
    assert_eq!(gcu.phases, two_phases());
    assert_eq!(gcu.total_duration_ms, 20);
}

#[test]
fn binary_layout_of_one_lut() {
    let mut set = WaveformLutSet::new();
    set.set_lut(WaveformLut::new(WaveformMode::DU4, vec![LutPhase { voltage: -1, duration_us: 0x0102 }], (0, 0)));
    assert_eq!(set.to_bytes(), vec![b'W', b'F', b'M', 0, 1, 25, 1, 2, 1, 0, 0xFF, 0x02, 0x01]);
}

#[test]
fn binary_errors() {
    // Wrong version.
    assert!(matches!(WaveformLutSet::from_bytes(&[b'W', b'F', b'M', 0, 2, 25, 0]), Err(LutError::UnsupportedVersion(2))));
    // Header of 5 bytes.
    match WaveformLutSet::from_bytes(&[b'W', b'F', b'M', 0, 1]) {
        Err(LutError::InvalidFormat(m)) => assert_eq!(m, "File too short for header"),
        _ => panic!("expected a short header"),
    }
    // Block header missing.
    match WaveformLutSet::from_bytes(&[b'W', b'F', b'M', 0, 1, 25, 1, 0]) {
        Err(LutError::InvalidFormat(m)) => assert_eq!(m, "Truncated file"),
        _ => panic!("expected a truncated file"),
    }
    // Phase data missing.
    match WaveformLutSet::from_bytes(&[b'W', b'F', b'M', 0, 1, 25, 1, 0, 1, 0, 5]) {
        Err(LutError::InvalidFormat(m)) => assert_eq!(m, "Truncated phase data"),
        _ => panic!("expected truncated phase data"),
    }
    // Invalid voltage in a known mode.
    assert!(matches!(
        WaveformLutSet::from_bytes(&[b'W', b'F', b'M', 0, 1, 25, 1, 0, 1, 0, 30, 1, 0]),
        Err(LutError::InvalidVoltage(30))
    ));
    // Unknown mode ids are skipped, even with invalid phases.
    let set = WaveformLutSet::from_bytes(&[b'W', b'F', b'M', 0, 1, 25, 1, 9, 1, 0, 30, 0, 0]).unwrap();
    assert!(set.gc16.is_none() && set.gcu.is_none());
    // Invalid magic message.
    match WaveformLutSet::from_bytes(b"XFM") {
        Err(LutError::InvalidFormat(m)) => assert_eq!(m, "Invalid magic number"),
        _ => panic!("expected bad magic"),
    }
}

#[test]
fn try_from_bytes_reports_where_loading_cannot_go_on() {
    // Temperature 127 reaching a known mode.
    assert!(WaveformLutSet::try_from_bytes(&[b'W', b'F', b'M', 0, 1, 127, 1, 0, 1, 0, 5, 1, 0]).is_none());
    // The same temperature with only unknown modes loads.
    assert!(matches!(WaveformLutSet::try_from_bytes(&[b'W', b'F', b'M', 0, 1, 127, 1, 8, 0, 0]), Some(Ok(_))));
}

#[test]
fn json_unknown_modes_are_skipped_and_ranges_follow_temperature() {
    let json = r#"{ "version": 1, "temperature": -10, "waveforms": {
        "XYZ": { "phases": [ {"voltage": 99, "duration_us": 0} ] },
        "GL16": { "phases": [ {"voltage": 3, "duration_us": 7} ] } } }"#;
    let set = load_json(json).unwrap();
    let gl16 = set.gl16.as_ref().unwrap();
    assert_eq!(gl16.temperature_range, (-15, -5));
    assert_eq!(gl16.mode, WaveformMode::GL16);
    assert!(set.gc16.is_none());
}

#[test]
fn json_invalid_phase_is_reported() {
    let json = r#"{ "version": 1, "temperature": 25, "waveforms": {
        "DU": { "phases": [ {"voltage": 10, "duration_us": 0} ] } } }"#;
    assert!(matches!(load_json(json), Err(LutError::InvalidDuration(0))));
}

#[test]
fn json_document_of_a_set_lists_modes_in_order() {
    let mut set = WaveformLutSet::new();
    set.set_lut(WaveformLut::new(WaveformMode::GCU, two_phases(), (0, 1)));
    set.set_lut(WaveformLut::new(WaveformMode::GC16, two_phases(), (0, 1)));
    let (version, temperature, entries) = set.to_json_document();
    assert_eq!(version, 1);
    assert_eq!(temperature, 25);
    let names: Vec<&str> = entries.iter().map(|e| e.0.as_str()).collect();
    assert_eq!(names, vec!["GC16", "GCU"]);
    let back = WaveformLutSet::from_json_document(version, temperature, entries).unwrap();
    assert_eq!(back.gcu.as_ref().unwrap().temperature_range, (20, 30));
    assert_eq!(back.gc16.as_ref().unwrap().phases, two_phases());
}

#[test]
fn lut_error_messages() {
    assert_eq!(LutError::InvalidFormat("Truncated file".to_string()).to_string(), "Invalid LUT format: Truncated file");
    assert_eq!(LutError::UnsupportedVersion(2).to_string(), "Unsupported LUT version: 2");
    assert_eq!(LutError::InvalidVoltage(-25).to_string(), "Invalid voltage: -25V (must be -20 to +20)");
    assert_eq!(LutError::InvalidDuration(0).to_string(), "Invalid duration: 0\u{00B5}s");
    assert_eq!(LutError::IoError("gone".to_string()).to_string(), "IO error: gone");
    assert_eq!(LutError::ParseError("bad".to_string()).to_string(), "Parse error: bad");
}

#[test]
fn magic_bytes_alone_are_a_short_header() {
    let data = [b'W', b'F', b'M', 0];
    assert!(WaveformLutSet::try_from_bytes(&data).is_some());
    match WaveformLutSet::from_bytes(&data) {
        Err(LutError::InvalidFormat(m)) => assert_eq!(m, "File too short for header"),
        _ => panic!("expected a short-header error"),
    }
    assert!(matches!(WaveformLutSet::from_bytes(&[b'W', b'F', b'M', 0, 1, 25]), Err(LutError::InvalidFormat(_))));
}
