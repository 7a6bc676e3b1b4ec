//! The per-tick pipeline: sample intake, actuation, SOCD resolution, layer
//! selection and report assembly, with a counted recalibration cadence.
//! One call to [`Pipeline::tick`] is one full pass; the caller supplies the
//! tick's 80 readings and transmits the returned report.

use vstd::prelude::*;

use crate::actuation::actuate;
use crate::actuation::actuate_table_spec;
use crate::actuation::actuated_key_bounds;
use crate::calibrate::recalibrate;
use crate::calibrate::recalibrate_table_spec;
use crate::config::ACTUATION_THRESHOLD;
use crate::config::IGNORE_BELOW_MV;
use crate::config::NORTH_DOWN;
use crate::config::RAPID_TRIGGER_THRESHOLD;
use crate::config::RECALIBRATION_SEC;
use crate::config::SNAP_IGNORE_MASK;
use crate::config::TICKS_PER_SECOND;
use crate::config::ticks_of_seconds;
use crate::intake::intake;
use crate::intake::intake_table_spec;
use crate::keystate::KeyState;
use crate::keystate::NUM_KEYS;
use crate::keystate::key_wf;
use crate::keystate::fresh_table;
use crate::keystate::table_wf;
use crate::layer::rules_in_bounds;
use crate::layer::select_layer;
use crate::layer::selected_layer_spec;
use crate::report::Keymap;
use crate::report::assemble_report;
use crate::report::report_spec;
use crate::socd::pairs_in_bounds;
use crate::socd::resolve_socd;
use crate::socd::resolved_table_spec;

verus! {

/// The static, compiled-in configuration the pipeline runs under.
#[derive(Clone, Copy, PartialEq, Eq, Structural, Debug)]
pub struct Config {
    /// Voltage rises with depression; when false every reading is
    /// inverted against full scale before use.
    pub north_down: bool,
    /// Millivolts above baseline at which a released key engages.
    pub actuation_threshold: u16,
    /// Millivolts of recession from peak at which a pressed key releases.
    pub rapid_trigger_threshold: u16,
    /// Force conflicting snap pairs to neutral for the tick.
    pub snap_ignore_mask: bool,
    /// Corrected readings below this leave the key untouched.
    pub noise_floor_mv: u16,
    /// Ticks between baseline recalibration passes.
    pub recalibration_period_ticks: usize,
}

impl Config {
    /// The tick counter must be able to pass the period by one.
    pub open spec fn wf(self) -> bool {
        self.recalibration_period_ticks < usize::MAX
    }

    /// The board's compiled-in configuration.
    pub fn default_board() -> (c: Config)
        ensures
            c.wf(),
            c.north_down == NORTH_DOWN,
            c.actuation_threshold == ACTUATION_THRESHOLD,
            c.rapid_trigger_threshold == RAPID_TRIGGER_THRESHOLD,
            c.snap_ignore_mask == SNAP_IGNORE_MASK,
            c.noise_floor_mv == IGNORE_BELOW_MV,
            c.recalibration_period_ticks == RECALIBRATION_SEC * TICKS_PER_SECOND,
    {
        Config {
            north_down: NORTH_DOWN,
            actuation_threshold: ACTUATION_THRESHOLD,
            rapid_trigger_threshold: RAPID_TRIGGER_THRESHOLD,
            snap_ignore_mask: SNAP_IGNORE_MASK,
            noise_floor_mv: IGNORE_BELOW_MV,
            recalibration_period_ticks: ticks_of_seconds(RECALIBRATION_SEC, TICKS_PER_SECOND),
        }
    }
}

/// The whole sensing-to-report pipeline: the single key table, the static
/// tables, and the recalibration tick counter. The table is owned here and
/// only written by the tick in progress.
pub struct Pipeline {
    /// Static configuration.
    pub config: Config,
    /// One entry per physical switch.
    pub keys: Vec<KeyState>,
    /// Opposing-direction pairs.
    pub snap_pairs: Vec<(usize, usize)>,
    /// Activation rules, scanned in order; the last held rule wins.
    pub layer_rules: Vec<(usize, usize)>,
    /// Per-layer usage-code mapping.
    pub keymap: Keymap,
    /// Ticks since the last recalibration pass.
    pub ticks_since_recalibration: usize,
}

impl Pipeline {
    /// The pipeline invariant: a full, well-formed key table, static
    /// tables that index into it, and a counter within its period.
    pub open spec fn wf(self) -> bool {
        &&& self.config.wf()
        &&& table_wf(self.keys@)
        &&& pairs_in_bounds(self.snap_pairs@, self.keys@.len() as int)
        &&& rules_in_bounds(self.layer_rules@, self.keys@.len() as int)
        &&& self.keymap.wf()
        &&& self.ticks_since_recalibration <= self.config.recalibration_period_ticks
    }

    /// A pipeline at power-on: every key at rest, counter at zero.
    pub fn new(
        config: Config,
        snap_pairs: Vec<(usize, usize)>,
        layer_rules: Vec<(usize, usize)>,
        keymap: Keymap,
    ) -> (p: Pipeline)
        requires
            config.wf(),
            pairs_in_bounds(snap_pairs@, NUM_KEYS as int),
            rules_in_bounds(layer_rules@, NUM_KEYS as int),
            keymap.wf(),
        ensures
            p.wf(),
            p.config == config,
            p.snap_pairs@ == snap_pairs@,
            p.layer_rules@ == layer_rules@,
            p.keymap == keymap,
            p.ticks_since_recalibration == 0,
            p.keys@.len() == NUM_KEYS,
            forall|i: int| 0 <= i < NUM_KEYS ==> #[trigger] p.keys@[i] == KeyState::at_rest_spec(),
    {
        Pipeline {
            config,
            keys: fresh_table(),
            snap_pairs,
            layer_rules,
            keymap,
            ticks_since_recalibration: 0,
        }
    }

    /// One full pipeline pass over this tick's 80 raw millivolt readings,
    /// returning the tick's report.
    ///
    /// The ensures pins every stage: the table is sampled, then actuated;
    /// the report is assembled from the SOCD-resolved flags under the
    /// layer the activation rules select; on a recalibration tick (and
    /// only then) baselines are raised afterwards, so this tick's
    /// actuation still used the baselines as they stood before. SOCD
    /// suppression never touches the stored `actuated` flags.
    pub fn tick(&mut self, readings: &Vec<u16>) -> (report: Vec<u8>)
        requires
            old(self).wf(),
            readings@.len() == NUM_KEYS,
        ensures
            final(self).wf(),
            final(self).config == old(self).config,
            final(self).snap_pairs@ == old(self).snap_pairs@,
            final(self).layer_rules@ == old(self).layer_rules@,
            final(self).keymap == old(self).keymap,
            ({
                let cfg = old(self).config;
                let sampled = intake_table_spec(
                    old(self).keys@,
                    readings@,
                    cfg.north_down,
                    cfg.noise_floor_mv,
                );
                let acted = actuate_table_spec(
                    sampled,
                    cfg.actuation_threshold,
                    cfg.rapid_trigger_threshold,
                );
                let resolved = resolved_table_spec(acted, old(self).snap_pairs@, cfg.snap_ignore_mask);
                let layer = selected_layer_spec(resolved, old(self).layer_rules@);
                &&& report@ == report_spec(resolved, old(self).keymap, layer as int)
                &&& (if old(self).ticks_since_recalibration + 1 > cfg.recalibration_period_ticks {
                    final(self).keys@ == recalibrate_table_spec(acted, cfg.actuation_threshold)
                        && final(self).ticks_since_recalibration == 0
                } else {
                    final(self).keys@ == acted && final(self).ticks_since_recalibration
                        == old(self).ticks_since_recalibration + 1
                })
                &&& forall|i: int|
                    0 <= i < NUM_KEYS ==> #[trigger] final(self).keys@[i].actuated
                        == acted[i].actuated
            }),
    {
        let north_down: bool = self.config.north_down;
        let noise_floor: u16 = self.config.noise_floor_mv;
        let at: u16 = self.config.actuation_threshold;
        let rt: u16 = self.config.rapid_trigger_threshold;
        let ignore_mask: bool = self.config.snap_ignore_mask;

        intake(&mut self.keys, readings, north_down, noise_floor);
        actuate(&mut self.keys, at, rt);
        let resolved: Vec<bool> = resolve_socd(&self.keys, &self.snap_pairs, ignore_mask);
        let layer: usize = select_layer(&resolved, &self.layer_rules);
        let report: Vec<u8> = assemble_report(&resolved, &self.keymap, layer);

        self.ticks_since_recalibration = self.ticks_since_recalibration + 1;
        if self.ticks_since_recalibration > self.config.recalibration_period_ticks {
            self.ticks_since_recalibration = 0;
            recalibrate(&mut self.keys, at);
        }
        report
    }
}

} // verus!
