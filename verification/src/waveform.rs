//! The waveform: what one file holds, configuration and samples together,
//! and what a chart of it needs.

use crate::config::{configuration, load_settings, ConfigView, WaveformConfig};
use crate::error::{ErrorView, WaveformError};
use crate::grid::{Cell, Grid};
use crate::lookup::{find, setting};
use crate::series::{load_series, series, Extrema, Series, SeriesView};
use std::path::PathBuf;
use std::rc::Rc;
use vstd::prelude::*;
use vstd::string::StringExecFns;

verus! {

/// Declares `std::path::PathBuf`, so that the options can carry the path of
/// the input. The path is only carried: nothing here reads it.
#[verifier::external_type_specification]
#[verifier::external_body]
pub struct ExPathBuf(PathBuf);

/// What the user asks for on the command line.
#[derive(Debug)]
pub struct Cli {
    /// Path of the file to read.
    pub path: PathBuf,
    /// The channel of the waveform to display.
    pub channel: String,
    /// The label of the vertical axis.
    pub y_label: String,
    /// The label of the horizontal axis.
    pub x_label: String,
}

/// A waveform: the user's options, the configuration that the file states,
/// and the samples with their bounds.
pub struct Waveform {
    pub args: Rc<Cli>,
    pub config: WaveformConfig,
    pub series: Series,
}

/// Everything that a chart of a waveform is drawn from.
///
/// The series and the bounds are the stored values, unscaled. Whoever draws
/// divides each horizontal value and bound by `scale_x` and each vertical one
/// by `scale_y`.
#[derive(Clone, Debug, PartialEq, Eq)]
pub struct RenderSpec {
    pub xs: Vec<u64>,
    pub ys: Vec<u64>,
    pub extrema: Extrema,
    pub scale_x: u64,
    pub scale_y: u64,
    /// The description of the horizontal axis: label, then the unit in
    /// parentheses.
    pub x_desc: String,
    /// The description of the vertical axis.
    pub y_desc: String,
    pub caption: String,
    /// The label of the line in the legend: the source.
    pub legend: String,
}

/// What a chart is drawn from, with texts and series as sequences.
pub struct RenderView {
    pub xs: Seq<u64>,
    pub ys: Seq<u64>,
    pub extrema: Extrema,
    pub scale_x: u64,
    pub scale_y: u64,
    pub x_desc: Seq<char>,
    pub y_desc: Seq<char>,
    pub caption: Seq<char>,
    pub legend: Seq<char>,
}

impl View for RenderSpec {
    type V = RenderView;

    open spec fn view(&self) -> RenderView {
        RenderView {
            xs: self.xs@,
            ys: self.ys@,
            extrema: self.extrema,
            scale_x: self.scale_x,
            scale_y: self.scale_y,
            x_desc: self.x_desc@,
            y_desc: self.y_desc@,
            caption: self.caption@,
            legend: self.legend@,
        }
    }
}

/// The description of an axis: the label, a space, and the unit in
/// parentheses.
pub open spec fn axis_description(label: Seq<char>, units: Seq<char>) -> Seq<char> {
    label + seq![' ', '('] + units + seq![')']
}

/// What a chart of a waveform is drawn from.
pub open spec fn rendering(
    x_label: Seq<char>,
    y_label: Seq<char>,
    config: ConfigView,
    samples: SeriesView,
) -> RenderView {
    RenderView {
        xs: samples.xs,
        ys: samples.ys,
        extrema: samples.extrema,
        scale_x: config.scale_x,
        scale_y: config.scale_y,
        x_desc: axis_description(x_label, config.x_units),
        y_desc: axis_description(y_label, config.y_units),
        caption: config.caption,
        legend: config.source,
    }
}

/// What ingesting a grid gives: the configuration first, then the series; the
/// first of the two that fails decides.
pub open spec fn ingestion(grid: Grid) -> Result<(ConfigView, SeriesView), ErrorView> {
    match configuration(grid) {
        Err(e) => Err(e),
        Ok(config) => match series(grid) {
            Err(e) => Err(e),
            Ok(samples) => Ok((config, samples)),
        },
    }
}

/// Scaling happens at drawing, not before: whatever the scale factors of the
/// configuration are, the series and the bounds that a rendering hands out
/// are the stored ones, and the scale factors are handed out beside them.
pub proof fn lemma_rendering_is_unscaled(
    x_label: Seq<char>,
    y_label: Seq<char>,
    config: ConfigView,
    samples: SeriesView,
)
    ensures
        rendering(x_label, y_label, config, samples).xs == samples.xs,
        rendering(x_label, y_label, config, samples).ys == samples.ys,
        rendering(x_label, y_label, config, samples).extrema == samples.extrema,
        rendering(x_label, y_label, config, samples).scale_x == config.scale_x,
        rendering(x_label, y_label, config, samples).scale_y == config.scale_y,
{
}

/// Builds the description of an axis.
fn describe_axis(label: &str, units: &str) -> (r: String)
    ensures
        r@ == axis_description(label@, units@),
{
    proof {
        reveal_strlit(" (");
        reveal_strlit(")");
    }
    let mut text: String = label.to_owned();
    text.append(" (");
    text.append(units);
    text.append(")");
    assert(" ("@ =~= seq![' ', '(']);
    assert(")"@ =~= seq![')']);
    text
}

impl Waveform {
    /// The configuration is well formed, and so is the series.
    pub open spec fn well_formed(&self) -> bool {
        self.config@.well_formed() && self.series@.well_formed()
    }

    /// An empty waveform for the given options: no samples, the bounds at
    /// their seed, empty texts and both scale factors one.
    pub fn new(args: Rc<Cli>) -> (waveform: Waveform)
        ensures
            waveform.args == args,
            waveform.config@ == WaveformConfig::new_view(),
            waveform.series@ == Series::new_view(),
            waveform.well_formed(),
    {
        Waveform { args, config: WaveformConfig::new(), series: Series::new() }
    }

    /// Ingests a grid: loads the configuration, then the series, each by
    /// scans of its own from the top.
    ///
    /// On success the waveform holds what the grid states, and nothing of
    /// what it held before but the options. On failure it is left as it was:
    /// no part of a configuration or of a series is kept.
    pub fn read(&mut self, rows: &Vec<Vec<Cell>>) -> (r: Result<(), WaveformError>)
        ensures
            match r {
                Ok(_) => ingestion(rows.deep_view()) == Ok::<(ConfigView, SeriesView), ErrorView>(
                    (final(self).config@, final(self).series@),
                ) && final(self).args == old(self).args && final(self).well_formed(),
                Err(e) => ingestion(rows.deep_view()) == Err::<
                    (ConfigView, SeriesView),
                    ErrorView,
                >(e@) && *final(self) == *old(self),
            },
    {
        let config = match load_settings(rows) {
            Ok(config) => config,
            Err(e) => {
                return Err(e);
            },
        };
        let capacity: usize = config.length as usize;
        let samples = match load_series(rows, capacity) {
            Ok(samples) => samples,
            Err(e) => {
                return Err(e);
            },
        };
        self.config = config;
        self.series = samples;
        Ok(())
    }

    /// Finds a setting by name and gives the text of its value: the cell
    /// after the first cell, in scan order, whose text is exactly `name`.
    ///
    /// Every call scans from the top of the grid, and the waveform is left as
    /// it was. Fails with `SettingNotFound`, naming the setting, when no cell
    /// holds `name` and when the first one that does ends its row.
    pub fn find_setting(&mut self, rows: &Vec<Vec<Cell>>, name: &str) -> (r: Result<
        String,
        WaveformError,
    >)
        ensures
            *final(self) == *old(self),
            match r {
                Ok(text) => setting(rows.deep_view(), name@).is_some() && text@ == setting(
                    rows.deep_view(),
                    name@,
                ).unwrap().text,
                Err(e) => setting(rows.deep_view(), name@).is_none() && e@ == (
                ErrorView::SettingNotFound { name: name@ }),
            },
    {
        match find(rows, name) {
            Ok(cell) => Ok(cell.text.clone()),
            Err(e) => Err(e),
        }
    }

    /// Gives what a chart of the waveform is drawn from. The waveform is not
    /// changed, and the values handed out are the stored ones: scaling is
    /// left to the moment of drawing.
    pub fn render(&self) -> (r: RenderSpec)
        ensures
            r@ == rendering(self.args.x_label@, self.args.y_label@, self.config@, self.series@),
            self.well_formed() ==> r@.xs.len() == r@.ys.len(),
    {
        let xs: Vec<u64> = self.series.xs.clone();
        let ys: Vec<u64> = self.series.ys.clone();
        assert(xs@ =~= self.series.xs@);
        assert(ys@ =~= self.series.ys@);
        RenderSpec {
            xs,
            ys,
            extrema: self.series.extrema,
            scale_x: self.config.scale_x,
            scale_y: self.config.scale_y,
            x_desc: describe_axis(self.args.x_label.as_str(), self.config.x_units.as_str()),
            y_desc: describe_axis(self.args.y_label.as_str(), self.config.y_units.as_str()),
            caption: self.config.caption.clone(),
            legend: self.config.source.clone(),
        }
    }
}

} // verus!
