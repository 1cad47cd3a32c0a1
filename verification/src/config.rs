//! The configuration of a waveform: seven settings that the grid must hold,
//! looked up by name and, for three of them, read as numbers.

use crate::error::{ErrorView, WaveformError};
use crate::grid::{Cell, CellView, Grid};
use crate::integer::{count_of, parse_count};
use crate::lookup::{find, first_named_at, lemma_first_occurrence_wins, setting};
use crate::number::{is_usable_scale, usable_scale, ONE};
use vstd::prelude::*;

verus! {

/// What the settings of a file say about its waveform.
#[derive(Clone, Debug, PartialEq, Eq)]
pub struct WaveformConfig {
    /// The channel that the samples come from; the legend of the chart.
    pub source: String,
    /// The unit of the horizontal axis.
    pub x_units: String,
    /// The unit of the vertical axis.
    pub y_units: String,
    /// How many samples the file announces. Never negative once loaded.
    pub length: i32,
    /// The caption of the chart.
    pub caption: String,
    /// What horizontal values are divided by when drawn: a bit pattern that is
    /// finite and not zero.
    pub scale_x: u64,
    /// What vertical values are divided by when drawn.
    pub scale_y: u64,
}

/// A configuration with its texts as sequences of characters.
pub struct ConfigView {
    pub source: Seq<char>,
    pub x_units: Seq<char>,
    pub y_units: Seq<char>,
    pub length: i32,
    pub caption: Seq<char>,
    pub scale_x: u64,
    pub scale_y: u64,
}

impl View for WaveformConfig {
    type V = ConfigView;

    open spec fn view(&self) -> ConfigView {
        ConfigView {
            source: self.source@,
            x_units: self.x_units@,
            y_units: self.y_units@,
            length: self.length,
            caption: self.caption@,
            scale_x: self.scale_x,
            scale_y: self.scale_y,
        }
    }
}

impl ConfigView {
    /// The record length is not negative and both scale factors can be
    /// divided by.
    pub open spec fn well_formed(self) -> bool {
        &&& self.length >= 0
        &&& usable_scale(self.scale_x)
        &&& usable_scale(self.scale_y)
    }
}

/// The names of the required settings, in the order in which they are looked
/// up.
pub open spec fn required_settings() -> Seq<Seq<char>> {
    seq![
        "Source"@,
        "Horizontal Units"@,
        "Vertical Units"@,
        "Record Length"@,
        "Note"@,
        "Horizontal Scale"@,
        "Vertical Scale"@,
    ]
}

/// The scale factor that a cell holds: its number, if it has one that is
/// finite and not zero.
pub open spec fn scale_of(cell: CellView) -> Option<u64> {
    match cell.number {
        Some(bits) => if usable_scale(bits) {
            Some(bits)
        } else {
            None
        },
        None => None,
    }
}

/// The value of the `k`-th required setting is of the kind that its field
/// needs: a count for the record length, a scale factor for the two scales,
/// any text for the others.
pub open spec fn fits(k: int, cell: CellView) -> bool {
    if k == 3 {
        count_of(cell.text).is_some()
    } else if k == 5 || k == 6 {
        scale_of(cell).is_some()
    } else {
        true
    }
}

/// What is wrong with the `k`-th required setting, if anything: it is not
/// found, or its value does not fit.
pub open spec fn fault(grid: Grid, k: int) -> Option<ErrorView> {
    let name = required_settings()[k];
    match setting(grid, name) {
        None => Some(ErrorView::SettingNotFound { name }),
        Some(cell) => if fits(k, cell) {
            None
        } else {
            Some(ErrorView::InvalidConfigValue { field: name })
        },
    }
}

/// The `k`-th required setting is the first one, in lookup order, with
/// something wrong.
pub open spec fn first_fault_at(grid: Grid, k: int) -> bool {
    &&& 0 <= k < 7
    &&& fault(grid, k).is_some()
    &&& forall|j: int| 0 <= j < k ==> fault(grid, j).is_none()
}

/// The configuration that a grid holds when nothing is wrong with any of the
/// required settings: each field is the value of its setting.
pub open spec fn settings_of(grid: Grid) -> ConfigView {
    let names = required_settings();
    ConfigView {
        source: setting(grid, names[0]).unwrap().text,
        x_units: setting(grid, names[1]).unwrap().text,
        y_units: setting(grid, names[2]).unwrap().text,
        length: count_of(setting(grid, names[3]).unwrap().text).unwrap(),
        caption: setting(grid, names[4]).unwrap().text,
        scale_x: scale_of(setting(grid, names[5]).unwrap()).unwrap(),
        scale_y: scale_of(setting(grid, names[6]).unwrap()).unwrap(),
    }
}

/// What loading the configuration from a grid gives: the fault of the first
/// required setting that has one, or else the configuration.
pub open spec fn configuration(grid: Grid) -> Result<ConfigView, ErrorView> {
    if exists|k: int| first_fault_at(grid, k) {
        let k = choose|k: int| first_fault_at(grid, k);
        Err(fault(grid, k).unwrap())
    } else {
        Ok(settings_of(grid))
    }
}

/// At most one required setting is the first with something wrong.
pub proof fn lemma_first_fault_unique(grid: Grid, j: int, k: int)
    requires
        first_fault_at(grid, j),
        first_fault_at(grid, k),
    ensures
        j == k,
{
}

/// A setting with something wrong, all earlier ones being in order, decides
/// the outcome of the load.
pub proof fn lemma_first_fault_decides(grid: Grid, k: int)
    requires
        first_fault_at(grid, k),
    ensures
        configuration(grid) == Err::<ConfigView, ErrorView>(fault(grid, k).unwrap()),
{
    let chosen = choose|k: int| first_fault_at(grid, k);
    lemma_first_fault_unique(grid, chosen, k);
}

/// With nothing wrong anywhere, the load gives the configuration.
pub proof fn lemma_no_fault(grid: Grid)
    requires
        forall|k: int| 0 <= k < 7 ==> fault(grid, k).is_none(),
    ensures
        configuration(grid) == Ok::<ConfigView, ErrorView>(settings_of(grid)),
        settings_of(grid).well_formed(),
{
    assert(fault(grid, 3).is_none());
    assert(fault(grid, 5).is_none());
    assert(fault(grid, 6).is_none());
}

/// Missing setting: if a required setting has no value, and nothing is wrong
/// with the settings looked up before it, the load fails with
/// `SettingNotFound` naming that setting. In particular this is so when it is
/// the only one with anything wrong.
pub proof fn lemma_missing_setting_is_named(grid: Grid, k: int)
    requires
        0 <= k < 7,
        setting(grid, required_settings()[k]).is_none(),
        forall|j: int| 0 <= j < k ==> fault(grid, j).is_none(),
    ensures
        configuration(grid) == Err::<ConfigView, ErrorView>(
            ErrorView::SettingNotFound { name: required_settings()[k] },
        ),
{
    lemma_first_fault_decides(grid, k);
}

/// The cell after the place `(row, col)`.
pub open spec fn value_after(grid: Grid, place: (int, int)) -> CellView {
    grid[place.0][place.1 + 1]
}

/// Round trip: wherever the seven names first stand in the grid, each with a
/// cell after it, and with a count and two scale factors where numbers are
/// needed, the load recovers exactly the cells after those places.
pub proof fn lemma_configuration_round_trip(grid: Grid, places: Seq<(int, int)>)
    requires
        places.len() == 7,
        forall|k: int|
            0 <= k < 7 ==> {
                &&& first_named_at(grid, required_settings()[k], places[k].0, places[k].1)
                &&& places[k].1 + 1 < grid[places[k].0].len()
                &&& fits(k, value_after(grid, places[k]))
            },
    ensures
        configuration(grid) == Ok::<ConfigView, ErrorView>(
            ConfigView {
                source: value_after(grid, places[0]).text,
                x_units: value_after(grid, places[1]).text,
                y_units: value_after(grid, places[2]).text,
                length: count_of(value_after(grid, places[3]).text).unwrap(),
                caption: value_after(grid, places[4]).text,
                scale_x: value_after(grid, places[5]).number.unwrap(),
                scale_y: value_after(grid, places[6]).number.unwrap(),
            },
        ),
{
    assert forall|k: int| 0 <= k < 7 implies setting(grid, required_settings()[k]) == Some(
        value_after(grid, places[k]),
    ) && fault(grid, k).is_none() by {
        lemma_first_occurrence_wins(grid, required_settings()[k], places[k].0, places[k].1);
    }
    lemma_no_fault(grid);
    assert(fits(5, value_after(grid, places[5])));
    assert(fits(6, value_after(grid, places[6])));
}

impl WaveformConfig {
    /// The view of the configuration before any file is read.
    pub open spec fn new_view() -> ConfigView {
        ConfigView {
            source: Seq::empty(),
            x_units: Seq::empty(),
            y_units: Seq::empty(),
            length: 0,
            caption: Seq::empty(),
            scale_x: ONE,
            scale_y: ONE,
        }
    }

    /// The configuration before any file is read: empty texts, no samples
    /// announced, and both scale factors one.
    pub fn new() -> (config: WaveformConfig)
        ensures
            config@ == Self::new_view(),
            config@.well_formed(),
    {
        WaveformConfig {
            source: String::new(),
            x_units: String::new(),
            y_units: String::new(),
            length: 0,
            caption: String::new(),
            scale_x: ONE,
            scale_y: ONE,
        }
    }
}

/// Reads the scale factor that a cell holds.
fn read_scale(cell: &Cell) -> (r: Option<u64>)
    ensures
        r == scale_of(cell@),
{
    match cell.number {
        Some(bits) => if is_usable_scale(bits) {
            Some(bits)
        } else {
            None
        },
        None => None,
    }
}

/// Loads the configuration from a grid.
///
/// The seven required settings are looked up in order, each by a scan of its
/// own from the top of the grid. The first one that is not found, or whose
/// value does not fit its field, ends the load with its error; there is no
/// partial configuration.
pub fn load_settings(rows: &Vec<Vec<Cell>>) -> (r: Result<WaveformConfig, WaveformError>)
    ensures
        match r {
            Ok(config) => configuration(rows.deep_view()) == Ok::<ConfigView, ErrorView>(config@)
                && config@.well_formed(),
            Err(e) => configuration(rows.deep_view()) == Err::<ConfigView, ErrorView>(e@),
        },
{
    let ghost grid = rows.deep_view();
    let source: String = match find(rows, "Source") {
        Ok(cell) => cell.text.clone(),
        Err(e) => {
            proof {
                lemma_first_fault_decides(grid, 0);
            }
            return Err(e);
        },
    };
    assert(fault(grid, 0).is_none());
    let x_units: String = match find(rows, "Horizontal Units") {
        Ok(cell) => cell.text.clone(),
        Err(e) => {
            proof {
                lemma_first_fault_decides(grid, 1);
            }
            return Err(e);
        },
    };
    assert(fault(grid, 1).is_none());
    let y_units: String = match find(rows, "Vertical Units") {
        Ok(cell) => cell.text.clone(),
        Err(e) => {
            proof {
                lemma_first_fault_decides(grid, 2);
            }
            return Err(e);
        },
    };
    assert(fault(grid, 2).is_none());
    let length: i32 = match find(rows, "Record Length") {
        Ok(cell) => match parse_count(cell.text.as_str()) {
            Some(count) => count,
            None => {
                proof {
                    lemma_first_fault_decides(grid, 3);
                }
                return Err(WaveformError::InvalidConfigValue { field: "Record Length".to_owned() });
            },
        },
        Err(e) => {
            proof {
                lemma_first_fault_decides(grid, 3);
            }
            return Err(e);
        },
    };
    assert(fault(grid, 3).is_none());
    let caption: String = match find(rows, "Note") {
        Ok(cell) => cell.text.clone(),
        Err(e) => {
            proof {
                lemma_first_fault_decides(grid, 4);
            }
            return Err(e);
        },
    };
    assert(fault(grid, 4).is_none());
    let scale_x: u64 = match find(rows, "Horizontal Scale") {
        Ok(cell) => match read_scale(cell) {
            Some(bits) => bits,
            None => {
                proof {
                    lemma_first_fault_decides(grid, 5);
                }
                return Err(
                    WaveformError::InvalidConfigValue { field: "Horizontal Scale".to_owned() },
                );
            },
        },
        Err(e) => {
            proof {
                lemma_first_fault_decides(grid, 5);
            }
            return Err(e);
        },
    };
    assert(fault(grid, 5).is_none());
    let scale_y: u64 = match find(rows, "Vertical Scale") {
        Ok(cell) => match read_scale(cell) {
            Some(bits) => bits,
            None => {
                proof {
                    lemma_first_fault_decides(grid, 6);
                }
                return Err(
                    WaveformError::InvalidConfigValue { field: "Vertical Scale".to_owned() },
                );
            },
        },
        Err(e) => {
            proof {
                lemma_first_fault_decides(grid, 6);
            }
            return Err(e);
        },
    };
    assert(fault(grid, 6).is_none());
    proof {
        lemma_no_fault(grid);
    }
    Ok(WaveformConfig { source, x_units, y_units, length, caption, scale_x, scale_y })
}

} // verus!
