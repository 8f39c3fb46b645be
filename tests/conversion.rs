use convert_nc::catalog::{MetaCatalog, MetaFields};
use convert_nc::container::{Container, Entry, NumericVariable};
use convert_nc::extract::{extract_profile, ExtractError, RealFallbacks, MISSING_INTEGER};
use convert_nc::pipeline::convert_file;
use convert_nc::record::assemble;

const FALLBACKS: RealFallbacks<f64> = RealFallbacks { time: 999999.0, position: 99999.0 };

fn fallbacks() -> RealFallbacks<f64> {
    RealFallbacks { time: FALLBACKS.time, position: FALLBACKS.position }
}

fn padded(s: &str, width: usize) -> Vec<u8> {
    let mut b = s.as_bytes().to_vec();
    b.resize(width, b' ');
    b
}

fn text(c: &mut Container<f64>, name: &str, value: &str, width: usize) {
    c.texts.push(Entry { name: name.to_string(), value: padded(value, width) });
}

fn numeric(c: &mut Container<f64>, name: &str, values: Vec<f64>, units: Option<&str>, long_name: Option<&str>) {
    c.numerics.push(Entry {
        name: name.to_string(),
        value: NumericVariable {
            values,
            units: units.map(|u| u.to_string()),
            long_name: long_name.map(|l| l.to_string()),
        },
    });
}

/// A profile file of platform `platform`, cycle `cycle`, mode `mode`, with
/// parameters PRES and TEMP over three levels.
fn profile_file(platform: &str, cycle: i32, mode: &str) -> Container<f64> {
    let mut c = Container { dimensions: Vec::new(), texts: Vec::new(), integers: Vec::new(), numerics: Vec::new() };
    c.dimensions.push(Entry { name: "N_PROF".to_string(), value: 1 });
    c.dimensions.push(Entry { name: "N_PARAM".to_string(), value: 2 });
    c.dimensions.push(Entry { name: "N_LEVELS".to_string(), value: 3 });
    text(&mut c, "DATA_TYPE", "Argo profile", 16);
    text(&mut c, "FORMAT_VERSION", "3.1", 4);
    text(&mut c, "HANDBOOK_VERSION", "1.2", 4);
    text(&mut c, "REFERENCE_DATE_TIME", "19500101000000", 14);
    text(&mut c, "DATE_CREATION", "20170101120000", 14);
    text(&mut c, "DATE_UPDATE", "20180101120000", 14);
    text(&mut c, "PLATFORM_NUMBER", platform, 8);
    text(&mut c, "PROJECT_NAME", "ARGO FRANCE", 64);
    text(&mut c, "PI_NAME", "Jane ROE, John DOE", 64);
    let mut params = padded("PRES", 16);
    params.extend(padded("TEMP", 16));
    c.texts.push(Entry { name: "STATION_PARAMETERS".to_string(), value: params });
    text(&mut c, "DIRECTION", "A", 1);
    text(&mut c, "DATA_CENTRE", "IF", 2);
    text(&mut c, "DC_REFERENCE", "12345", 32);
    text(&mut c, "DATA_STATE_INDICATOR", "2B", 4);
    text(&mut c, "DATA_MODE", mode, 1);
    text(&mut c, "PLATFORM_TYPE", "ARVOR", 32);
    text(&mut c, "FLOAT_SERIAL_NO", "AI2600", 32);
    text(&mut c, "FIRMWARE_VERSION", "5900A04", 32);
    text(&mut c, "WMO_INST_TYPE", "844", 4);
    text(&mut c, "JULD_QC", "1", 1);
    text(&mut c, "POSITION_QC", "1", 1);
    text(&mut c, "POSITIONING_SYSTEM", "GPS", 8);
    text(&mut c, "VERTICAL_SAMPLING_SCHEME", "Primary sampling", 256);
    text(&mut c, "PRES_QC", "112", 3);
    text(&mut c, "TEMP_QC", "114", 3);
    text(&mut c, "PRES_ADJUSTED_QC", "111", 3);
    text(&mut c, "TEMP_ADJUSTED_QC", "113", 3);
    text(&mut c, "PROFILE_PRES_QC", "A", 1);
    text(&mut c, "PROFILE_TEMP_QC", "B", 1);
    c.integers.push(Entry { name: "CYCLE_NUMBER".to_string(), value: cycle });
    c.integers.push(Entry { name: "CONFIG_MISSION_NUMBER".to_string(), value: 7 });
    numeric(&mut c, "JULD", vec![24000.5], None, None);
    numeric(&mut c, "JULD_LOCATION", vec![24000.25], None, None);
    numeric(&mut c, "LATITUDE", vec![-45.5], None, None);
    numeric(&mut c, "LONGITUDE", vec![12.25], None, None);
    numeric(&mut c, "PRES", vec![5.0, 10.0, 20.0], Some("decibar"), Some("Sea water pressure"));
    numeric(&mut c, "TEMP", vec![15.0, 14.5, 14.0], Some("degree_Celsius"), Some("Sea temperature"));
    numeric(&mut c, "PRES_ADJUSTED", vec![5.1, 10.1, 20.1], None, None);
    numeric(&mut c, "TEMP_ADJUSTED", vec![15.1, 14.6, 14.1], None, None);
    c
}

fn set_text(c: &mut Container<f64>, name: &str, value: &str, width: usize) {
    for e in c.texts.iter_mut() {
        if e.name == name {
            e.value = padded(value, width);
        }
    }
}

#[test]
fn batch_of_three_realtime_files_shares_one_metadata_record() {
    let mut catalog = MetaCatalog::new();
    let mut created = Vec::new();
    let mut profiles = Vec::new();
    for cycle in 1..=3 {
        let c = profile_file("2901237", cycle, "R");
        let out = convert_file(&c, fallbacks(), &mut catalog).unwrap();
        if let Some(m) = out.new_metadata {
            created.push(m.id);
        }
        profiles.push(out.profile);
    }
    assert_eq!(created, vec!["2901237_m0".to_string()]);
    assert_eq!(catalog.len(), 1);
    assert_eq!(catalog.records()[0].id, "2901237_m0");
    let ids: Vec<String> = profiles.iter().map(|p| p.id.clone()).collect();
    assert_eq!(ids, vec!["2901237_1", "2901237_2", "2901237_3"]);
    for p in &profiles {
        assert_eq!(p.metadata, vec!["2901237_m0".to_string()]);
        assert!(p.realtime_data.is_some());
        assert!(p.adjusted_data.is_none());
    }
}

#[test]
fn delayed_mode_file_carries_adjusted_data_only() {
    let mut catalog = MetaCatalog::new();
    let c = profile_file("2901237", 4, "D");
    let out = convert_file(&c, fallbacks(), &mut catalog).unwrap();
    let p = out.profile;
    assert!(p.realtime_data.is_none());
    let adjusted = p.adjusted_data.unwrap();
    assert_eq!(adjusted.len(), 2);
    assert_eq!(adjusted[0].name, "PRES");
    assert_eq!(adjusted[0].value, vec![5.1, 10.1, 20.1]);
    assert_eq!(adjusted[1].name, "TEMP");
    assert_eq!(adjusted[1].value, vec![15.1, 14.6, 14.1]);
    let adjusted_qc = p.adjusted_level_qc.unwrap();
    assert_eq!(adjusted_qc[1].value, vec!["1", "1", "3"]);
}

#[test]
fn realtime_file_fields_are_copied_through() {
    let mut catalog = MetaCatalog::new();
    let c = profile_file("2901237", 12, "R");
    let out = convert_file(&c, fallbacks(), &mut catalog).unwrap();
    let p = out.profile;
    assert_eq!(p.id, "2901237_12");
    assert_eq!(p.geolocation.longitude, 12.25);
    assert_eq!(p.geolocation.latitude, -45.5);
    assert_eq!(p.cycle_number, 12);
    assert_eq!(p.direction, "A");
    assert_eq!(p.data_state_indicator, "2B");
    assert_eq!(p.data_mode, "R");
    assert_eq!(p.date_creation, "20170101120000");
    assert_eq!(p.date_update, "20180101120000");
    assert_eq!(p.juld, 24000.5);
    assert_eq!(p.juld_qc, "1");
    assert_eq!(p.juld_location, 24000.25);
    assert_eq!(p.position_qc, "1");
    assert_eq!(p.vertical_sampling_scheme, "Primary sampling");
    assert_eq!(p.config_mission_number, 7);
    let data = p.realtime_data.unwrap();
    assert_eq!(data[0].name, "PRES");
    assert_eq!(data[0].value, vec![5.0, 10.0, 20.0]);
    let info = p.data_info.unwrap();
    assert_eq!(info[1].name, "TEMP");
    assert_eq!(info[1].value.data_mode, "R");
    assert_eq!(info[1].value.units, "degree_Celsius");
    assert_eq!(info[1].value.long_name, "Sea temperature");
    assert_eq!(info[1].value.profile_parameter_qc, "B");
    let qc = p.level_qc.unwrap();
    assert_eq!(qc[0].value, vec!["1", "1", "2"]);
    assert!(p.adjusted_level_qc.is_none());
    let m = out.new_metadata.unwrap();
    assert_eq!(m.fields.pi_name, vec!["Jane ROE".to_string(), "John DOE".to_string()]);
    assert_eq!(m.fields.data_centre, "IF");
    assert_eq!(m.fields.wmo_inst_type, "844");
}

#[test]
fn differing_metadata_gets_its_own_record() {
    let mut catalog = MetaCatalog::new();
    let a = profile_file("2901237", 1, "R");
    let mut b = profile_file("2901237", 2, "R");
    set_text(&mut b, "FIRMWARE_VERSION", "5900A05", 32);
    let c = profile_file("2901237", 3, "R");
    let ra = convert_file(&a, fallbacks(), &mut catalog).unwrap();
    let rb = convert_file(&b, fallbacks(), &mut catalog).unwrap();
    let rc = convert_file(&c, fallbacks(), &mut catalog).unwrap();
    assert_eq!(ra.profile.metadata, vec!["2901237_m0".to_string()]);
    assert_eq!(rb.profile.metadata, vec!["2901237_m1".to_string()]);
    assert_eq!(rc.profile.metadata, vec!["2901237_m0".to_string()]);
    assert!(rb.new_metadata.is_some());
    assert!(rc.new_metadata.is_none());
    assert_eq!(catalog.len(), 2);
}

#[test]
fn missing_dimension_fails_the_file() {
    let mut catalog = MetaCatalog::new();
    let mut c = profile_file("2901237", 1, "R");
    c.dimensions.retain(|d| d.name != "N_LEVELS");
    let r = convert_file(&c, fallbacks(), &mut catalog);
    assert_eq!(r.err(), Some(ExtractError::MissingDimension("N_LEVELS".to_string())));
    assert_eq!(catalog.len(), 0);
}

#[test]
fn missing_measurement_variable_fails_the_file() {
    let mut catalog = MetaCatalog::new();
    let mut c = profile_file("2901237", 1, "D");
    c.numerics.retain(|v| v.name != "TEMP_ADJUSTED");
    let r = convert_file(&c, fallbacks(), &mut catalog);
    assert_eq!(r.err(), Some(ExtractError::MissingVariable("TEMP_ADJUSTED".to_string())));
    assert_eq!(catalog.len(), 0);
}

#[test]
fn short_measurement_variable_fails_the_file() {
    let mut c = profile_file("2901237", 1, "R");
    for v in c.numerics.iter_mut() {
        if v.name == "PRES" {
            v.value.values.truncate(2);
        }
    }
    let r = extract_profile(&c, fallbacks());
    assert_eq!(r.err(), Some(ExtractError::ShortVariable("PRES".to_string())));
}

#[test]
fn absent_scalars_take_sentinels() {
    let mut c = profile_file("2901237", 1, "R");
    c.integers.clear();
    c.numerics.retain(|v| v.name != "JULD" && v.name != "LATITUDE");
    let f = extract_profile(&c, fallbacks()).unwrap();
    assert_eq!(f.cycle_number, MISSING_INTEGER);
    assert_eq!(f.cycle_number, 99999);
    assert_eq!(f.config_mission_number, 99999);
    assert_eq!(f.juld, 999999.0);
    assert_eq!(f.latitude, 99999.0);
    assert_eq!(f.longitude, 12.25);
    let mut catalog = MetaCatalog::new();
    let out = convert_file(&c, fallbacks(), &mut catalog).unwrap();
    assert_eq!(out.profile.id, "2901237_99999");
}

#[test]
fn absent_text_fields_are_empty() {
    let mut c = profile_file("2901237", 1, "R");
    c.texts.retain(|t| t.name != "DIRECTION" && t.name != "TEMP_QC");
    let f = extract_profile(&c, fallbacks()).unwrap();
    assert_eq!(f.direction, "");
    assert_eq!(f.parameters[1].level_qc, vec![String::new(), String::new(), String::new()]);
}

#[test]
fn negative_cycle_number_in_identifier() {
    let c = profile_file("6902000", -3, "R");
    let f = extract_profile(&c, fallbacks()).unwrap();
    let r = assemble(&f, &"6902000_m0".to_string());
    assert_eq!(r.id, "6902000_-3");
}

#[test]
fn assemble_is_deterministic() {
    let c = profile_file("2901237", 5, "D");
    let f = extract_profile(&c, fallbacks()).unwrap();
    let id = "2901237_m0".to_string();
    let r1 = assemble(&f, &id);
    let r2 = assemble(&f, &id);
    assert_eq!(r1, r2);
    assert_eq!(format!("{:?}", r1), format!("{:?}", r2));
}

#[test]
fn mode_selects_exactly_one_data_map() {
    for mode in ["R", "D", "A", ""] {
        let c = profile_file("2901237", 1, mode);
        let f = extract_profile(&c, fallbacks()).unwrap();
        let r = assemble(&f, &"x".to_string());
        assert_eq!(r.realtime_data.is_some(), mode == "R");
        assert_eq!(r.adjusted_data.is_some(), mode != "R");
    }
}

#[test]
fn catalog_resolve_and_retract() {
    let mut catalog = MetaCatalog::new();
    let c = profile_file("2901237", 1, "R");
    let f = extract_profile(&c, fallbacks()).unwrap();
    let (id, created) = catalog.resolve(&f.platform_number, f.meta.duplicate());
    assert_eq!((id.as_str(), created), ("2901237_m0", true));
    let (again, created_again) = catalog.resolve(&"9999999".to_string(), f.meta.duplicate());
    assert_eq!((again.as_str(), created_again), ("2901237_m0", false));
    let mut other: MetaFields = f.meta.duplicate();
    other.pi_name.push("Someone ELSE".to_string());
    let (third, created_third) = catalog.resolve(&"9999999".to_string(), other);
    assert_eq!((third.as_str(), created_third), ("9999999_m1", true));
    assert!(!catalog.retract(&"2901237_m0".to_string()));
    assert!(catalog.retract(&"9999999_m1".to_string()));
    assert_eq!(catalog.len(), 1);
    assert!(catalog.retract(&"2901237_m0".to_string()));
    assert_eq!(catalog.len(), 0);
    assert!(!catalog.retract(&"2901237_m0".to_string()));
}

#[test]
fn platform_identity_is_not_a_descriptive_field() {
    let mut catalog = MetaCatalog::new();
    let a = profile_file("2901237", 1, "R");
    let b = profile_file("2901238", 1, "R");
    let ra = convert_file(&a, fallbacks(), &mut catalog).unwrap();
    let rb = convert_file(&b, fallbacks(), &mut catalog).unwrap();
    assert_eq!(rb.profile.id, "2901238_1");
    assert_eq!(ra.profile.metadata, rb.profile.metadata);
}

#[test]
fn missing_own_variable_fails_adjusted_file() {
    let mut catalog = MetaCatalog::new();
    let mut c = profile_file("2901237", 1, "D");
    c.numerics.retain(|v| v.name != "TEMP");
    let r = convert_file(&c, fallbacks(), &mut catalog);
    assert_eq!(r.err(), Some(ExtractError::MissingVariable("TEMP".to_string())));
    assert_eq!(catalog.len(), 0);
}

#[test]
fn non_ascii_mode_byte_selects_adjusted_data() {
    let mut c = profile_file("2901237", 1, "R");
    for e in c.texts.iter_mut() {
        if e.name == "DATA_MODE" {
            e.value = vec![0xd2];
        }
    }
    let f = extract_profile(&c, fallbacks()).unwrap();
    assert_eq!(f.data_mode, "\u{FFFD}");
    let r = assemble(&f, &"x".to_string());
    assert!(r.realtime_data.is_none());
    assert!(r.adjusted_data.is_some());
}
