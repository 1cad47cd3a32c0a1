use waveform::number::ONE;
use waveform::{load_settings, Cell, WaveformConfig, WaveformError};

fn cell(text: &str) -> Cell {
    Cell::new(text.to_string(), text.parse::<f64>().ok().map(f64::to_bits))
}

fn grid(rows: &[&[&str]]) -> Vec<Vec<Cell>> {
    rows.iter().map(|row| row.iter().map(|text| cell(text)).collect()).collect()
}

fn not_found(name: &str) -> WaveformError {
    WaveformError::SettingNotFound { name: name.to_string() }
}

fn invalid(field: &str) -> WaveformError {
    WaveformError::InvalidConfigValue { field: field.to_string() }
}

const NAMES: [&str; 7] = [
    "Source",
    "Horizontal Units",
    "Vertical Units",
    "Record Length",
    "Note",
    "Horizontal Scale",
    "Vertical Scale",
];

const VALUES: [&str; 7] = ["CH1", "s", "V", "2500", "Square wave", "4.0e-04", "2.0e-01"];

fn one_setting_per_row() -> Vec<Vec<Cell>> {
    (0..7).map(|k| vec![cell(NAMES[k]), cell(VALUES[k])]).collect()
}

fn expected() -> WaveformConfig {
    WaveformConfig {
        source: "CH1".to_string(),
        x_units: "s".to_string(),
        y_units: "V".to_string(),
        length: 2500,
        caption: "Square wave".to_string(),
        scale_x: 4.0e-04f64.to_bits(),
        scale_y: 2.0e-01f64.to_bits(),
    }
}

#[test]
fn new_configuration_is_empty_with_unit_scales() {
    let config = WaveformConfig::new();
    assert_eq!(config.source, "");
    assert_eq!(config.x_units, "");
    assert_eq!(config.y_units, "");
    assert_eq!(config.length, 0);
    assert_eq!(config.caption, "");
    assert_eq!(config.scale_x, ONE);
    assert_eq!(config.scale_y, ONE);
    assert_eq!(f64::from_bits(config.scale_x), 1.0);
}

#[test]
fn settings_in_the_first_two_columns_are_recovered() {
    assert_eq!(load_settings(&one_setting_per_row()), Ok(expected()));
}

#[test]
fn settings_are_recovered_wherever_they_stand() {
    let rows = grid(&[
        &["", "", "", "-1.0", "0.5"],
        &["Vertical Scale", "2.0e-01", "Note", "Square wave"],
        &["x", "y", "z", "Source", "CH1"],
        &[],
        &["", "", "", "0.0", "0.25"],
        &["Record Length", "2500", "Horizontal Units", "s", "Vertical Units", "V"],
        &["", "", "", "1.0", "0.75"],
        &["-", "-", "-", "-", "-", "-", "-", "Horizontal Scale", "4.0e-04"],
    ]);
    assert_eq!(load_settings(&rows), Ok(expected()));
}

#[test]
fn settings_are_recovered_in_any_row_order() {
    let mut rows = one_setting_per_row();
    rows.reverse();
    assert_eq!(load_settings(&rows), Ok(expected()));
    rows.rotate_left(3);
    assert_eq!(load_settings(&rows), Ok(expected()));
}

#[test]
fn the_first_of_two_values_is_the_one_loaded() {
    let mut rows = one_setting_per_row();
    rows.push(vec![cell("Source"), cell("CH2")]);
    rows.push(vec![cell("Record Length"), cell("7")]);
    assert_eq!(load_settings(&rows), Ok(expected()));
    rows.insert(0, vec![cell("Source"), cell("CH3")]);
    let loaded = load_settings(&rows).unwrap();
    assert_eq!(loaded.source, "CH3");
    assert_eq!(loaded.length, 2500);
}

#[test]
fn each_missing_setting_is_named() {
    for missing in 0..7 {
        let mut rows = one_setting_per_row();
        rows.remove(missing);
        assert_eq!(load_settings(&rows), Err(not_found(NAMES[missing])));
    }
}

#[test]
fn the_first_missing_setting_in_lookup_order_is_named() {
    let mut rows = one_setting_per_row();
    rows.remove(6);
    rows.remove(4);
    rows.remove(1);
    assert_eq!(load_settings(&rows), Err(not_found("Horizontal Units")));
    assert_eq!(load_settings(&Vec::new()), Err(not_found("Source")));
}

#[test]
fn a_setting_without_a_value_cell_is_not_found() {
    let mut rows = one_setting_per_row();
    rows[4] = vec![cell("Note")];
    assert_eq!(load_settings(&rows), Err(not_found("Note")));
}

#[test]
fn record_length_must_be_a_count() {
    for text in ["", "abc", "2.5e+03", "25 00", "-3", "2147483648"] {
        let mut rows = one_setting_per_row();
        rows[3] = vec![cell("Record Length"), cell(text)];
        assert_eq!(load_settings(&rows), Err(invalid("Record Length")));
    }
}

#[test]
fn record_length_zero_is_accepted() {
    let mut rows = one_setting_per_row();
    rows[3] = vec![cell("Record Length"), cell("0")];
    assert_eq!(load_settings(&rows).unwrap().length, 0);
}

#[test]
fn scales_must_be_numbers() {
    for text in ["", "fast", "1,5", "0x10"] {
        let mut rows = one_setting_per_row();
        rows[5] = vec![cell("Horizontal Scale"), cell(text)];
        assert_eq!(load_settings(&rows), Err(invalid("Horizontal Scale")));
        let mut rows = one_setting_per_row();
        rows[6] = vec![cell("Vertical Scale"), cell(text)];
        assert_eq!(load_settings(&rows), Err(invalid("Vertical Scale")));
    }
}

#[test]
fn scales_must_be_finite_and_not_zero() {
    for text in ["0", "-0.0", "inf", "-inf", "NaN"] {
        let mut rows = one_setting_per_row();
        rows[5] = vec![cell("Horizontal Scale"), cell(text)];
        assert_eq!(load_settings(&rows), Err(invalid("Horizontal Scale")));
        let mut rows = one_setting_per_row();
        rows[6] = vec![cell("Vertical Scale"), cell(text)];
        assert_eq!(load_settings(&rows), Err(invalid("Vertical Scale")));
    }
}

#[test]
fn negative_scales_are_accepted() {
    let mut rows = one_setting_per_row();
    rows[5] = vec![cell("Horizontal Scale"), cell("-1000")];
    let loaded = load_settings(&rows).unwrap();
    assert_eq!(f64::from_bits(loaded.scale_x), -1000.0);
}

#[test]
fn an_invalid_value_is_reported_before_a_later_missing_setting() {
    let mut rows = one_setting_per_row();
    rows[3] = vec![cell("Record Length"), cell("many")];
    rows.remove(4);
    assert_eq!(load_settings(&rows), Err(invalid("Record Length")));
}

#[test]
fn a_missing_setting_is_reported_before_a_later_invalid_value() {
    let mut rows = one_setting_per_row();
    rows[6] = vec![cell("Vertical Scale"), cell("tall")];
    rows.remove(2);
    assert_eq!(load_settings(&rows), Err(not_found("Vertical Units")));
}

#[test]
fn text_values_are_kept_verbatim() {
    let mut rows = one_setting_per_row();
    rows[0] = vec![cell("Source"), cell("  CH 1 ")];
    rows[4] = vec![cell("Note"), cell("")];
    let loaded = load_settings(&rows).unwrap();
    assert_eq!(loaded.source, "  CH 1 ");
    assert_eq!(loaded.caption, "");
}

#[test]
fn the_scale_is_the_reading_that_the_cell_carries() {
    let mut rows = one_setting_per_row();
    rows[5] = vec![cell("Horizontal Scale"), Cell::new("shown".to_string(), Some(8.0f64.to_bits()))];
    assert_eq!(f64::from_bits(load_settings(&rows).unwrap().scale_x), 8.0);
}
