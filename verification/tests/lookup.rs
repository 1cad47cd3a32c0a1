use waveform::lookup::{find, locate};
use waveform::{Cell, Cli, Waveform, WaveformError};

use std::path::PathBuf;
use std::rc::Rc;

fn cell(text: &str) -> Cell {
    Cell::new(text.to_string(), text.parse::<f64>().ok().map(f64::to_bits))
}

fn grid(rows: &[&[&str]]) -> Vec<Vec<Cell>> {
    rows.iter().map(|row| row.iter().map(|text| cell(text)).collect()).collect()
}

fn empty_waveform() -> Waveform {
    Waveform::new(Rc::new(Cli {
        path: PathBuf::from("capture.csv"),
        channel: "CH1".to_string(),
        y_label: "Y".to_string(),
        x_label: "X".to_string(),
    }))
}

fn not_found(name: &str) -> WaveformError {
    WaveformError::SettingNotFound { name: name.to_string() }
}

#[test]
fn locate_gives_the_place_of_the_name() {
    let rows = grid(&[&["a", "b"], &["c", "Source", "CH1"]]);
    assert_eq!(locate(&rows, "Source"), Some((1, 1)));
    assert_eq!(locate(&rows, "a"), Some((0, 0)));
    assert_eq!(locate(&rows, "missing"), None);
}

#[test]
fn locate_on_an_empty_grid_finds_nothing() {
    let rows: Vec<Vec<Cell>> = Vec::new();
    assert_eq!(locate(&rows, "Source"), None);
    let rows = grid(&[&[], &[]]);
    assert_eq!(locate(&rows, "Source"), None);
}

#[test]
fn find_gives_the_cell_after_the_name() {
    let rows = grid(&[&["x", "Vertical Scale", "2.0e-01", "tail"]]);
    let found = find(&rows, "Vertical Scale").unwrap();
    assert_eq!(found.text, "2.0e-01");
    assert_eq!(found.number, Some(0.2f64.to_bits()));
}

#[test]
fn find_setting_gives_the_adjacent_text() {
    let rows = grid(&[&["Record Length", "2500", "", "-0.5", "0.1"], &["Source", "CH1"]]);
    let mut wf = empty_waveform();
    assert_eq!(wf.find_setting(&rows, "Record Length"), Ok("2500".to_string()));
    assert_eq!(wf.find_setting(&rows, "Source"), Ok("CH1".to_string()));
}

#[test]
fn first_occurrence_wins_by_row() {
    let rows = grid(&[&["pad", "Note", "first"], &["Note", "second"]]);
    let mut wf = empty_waveform();
    assert_eq!(wf.find_setting(&rows, "Note"), Ok("first".to_string()));
}

#[test]
fn first_occurrence_wins_by_column() {
    let rows = grid(&[&["Note", "left", "Note", "right"]]);
    let mut wf = empty_waveform();
    assert_eq!(wf.find_setting(&rows, "Note"), Ok("left".to_string()));
}

#[test]
fn a_value_that_is_the_name_again_is_still_the_value() {
    let rows = grid(&[&["Note", "Note", "x"]]);
    let mut wf = empty_waveform();
    assert_eq!(wf.find_setting(&rows, "Note"), Ok("Note".to_string()));
}

#[test]
fn absent_name_is_setting_not_found() {
    let rows = grid(&[&["Source", "CH1"], &["Note", "n"]]);
    let mut wf = empty_waveform();
    assert_eq!(wf.find_setting(&rows, "Vertical Units"), Err(not_found("Vertical Units")));
}

#[test]
fn name_in_the_last_cell_of_its_row_is_setting_not_found() {
    let rows = grid(&[&["a", "Source"], &["Source", "CH2"]]);
    let mut wf = empty_waveform();
    assert_eq!(wf.find_setting(&rows, "Source"), Err(not_found("Source")));
}

#[test]
fn names_are_compared_exactly() {
    let rows = grid(&[&["source", "lower"], &[" Source", "padded"], &["Source ", "trailing"]]);
    let mut wf = empty_waveform();
    assert_eq!(wf.find_setting(&rows, "Source"), Err(not_found("Source")));
    assert_eq!(wf.find_setting(&rows, "source"), Ok("lower".to_string()));
    assert_eq!(wf.find_setting(&rows, " Source"), Ok("padded".to_string()));
}

#[test]
fn lookups_repeat_and_leave_the_waveform_alone() {
    let rows = grid(&[&["Note", "n"], &["Source", "CH1"]]);
    let mut wf = empty_waveform();
    let first = wf.find_setting(&rows, "Source");
    let other = wf.find_setting(&rows, "Note");
    let again = wf.find_setting(&rows, "Source");
    assert_eq!(first, Ok("CH1".to_string()));
    assert_eq!(other, Ok("n".to_string()));
    assert_eq!(again, first);
    assert!(wf.series.xs.is_empty());
    assert_eq!(wf.config.source, "");
    assert_eq!(wf.args.x_label, "X");
}

#[test]
fn names_with_characters_beyond_ascii_are_found() {
    let rows = grid(&[&["Einheit", "µs"], &["Größe", "5"]]);
    let mut wf = empty_waveform();
    assert_eq!(wf.find_setting(&rows, "Größe"), Ok("5".to_string()));
    assert_eq!(wf.find_setting(&rows, "Einheit"), Ok("µs".to_string()));
}
