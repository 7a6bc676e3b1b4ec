//! Component-level behavior of each pipeline stage.

use hallkb::actuation::actuate;
use hallkb::actuation::actuate_key;
use hallkb::calibrate::recalibrate;
use hallkb::channel::key_index;
use hallkb::channel::mux_channel_of;
use hallkb::channel::mux_line_of;
use hallkb::intake::intake;
use hallkb::intake::intake_key;
use hallkb::intake::scale_reading;
use hallkb::keystate::KeyState;
use hallkb::layer::select_layer;
use hallkb::report::assemble_report;
use hallkb::report::Keymap;
use hallkb::socd::resolve_socd;

fn released(raw: u16, baseline: u16) -> KeyState {
    KeyState { raw, previous: 0, baseline, peak: baseline, actuated: false }
}

fn pressed(raw: u16, baseline: u16, peak: u16) -> KeyState {
    KeyState { raw, previous: 0, baseline, peak, actuated: true }
}

#[test]
fn channel_map_corners() {
    assert_eq!(key_index(0, 0), 0);
    assert_eq!(key_index(4, 15), 79);
    assert_eq!(key_index(2, 3), 35);
    assert_eq!(mux_line_of(35), 2);
    assert_eq!(mux_channel_of(35), 3);
    for idx in 0..80 {
        assert_eq!(key_index(mux_line_of(idx), mux_channel_of(idx)), idx);
    }
}

#[test]
fn scale_is_divide_by_four() {
    assert_eq!(scale_reading(400), 100);
    assert_eq!(scale_reading(3), 0);
}

#[test]
fn noise_gate_leaves_key_untouched() {
    let k = KeyState { raw: 100, previous: 90, baseline: 5, peak: 110, actuated: true };
    let mut keys = vec![k, k];
    let readings = vec![59u16, 60u16];
    intake(&mut keys, &readings, true, 60);
    // below the floor: bit-for-bit unchanged
    assert_eq!(keys[0], k);
    // at the floor: previous takes the old raw, raw takes the reading
    assert_eq!(keys[1].previous, 100);
    assert_eq!(keys[1].raw, 60);
    assert_eq!(keys[1].baseline, 5);
    assert_eq!(keys[1].peak, 110);
    assert!(keys[1].actuated);
}

#[test]
fn inverted_polarity_corrects_against_full_scale() {
    let k = released(0, 0);
    let mut keys = vec![k, k];
    let readings = vec![4000u16, 4990u16];
    intake(&mut keys, &readings, false, 60);
    assert_eq!(keys[0].raw, 1000);
    // 5000 - 4990 = 10 falls below the floor: untouched
    assert_eq!(keys[1], k);
}

#[test]
fn actuation_edge_fires_exactly_at_threshold() {
    // baseline 0, threshold 10: [5, 9, 10, 11] actuates exactly at 10
    let mut k = released(0, 0);
    let mut seen = Vec::new();
    for mv in [5u16, 9, 10, 11] {
        intake_key(&mut k, mv, true, 0);
        actuate_key(&mut k, 10, 5);
        seen.push(k.actuated);
    }
    assert_eq!(seen, vec![false, false, true, true]);
}

#[test]
fn press_records_reading_as_peak() {
    let mut k = released(42, 0);
    actuate_key(&mut k, 10, 5);
    assert!(k.actuated);
    assert_eq!(k.peak, 42);
}

#[test]
fn rapid_trigger_releases_at_exact_boundary() {
    // baseline 0, actuation 10, rapid trigger 5, peak 20:
    // raw 16 stays pressed (20 - 16 = 4 < 5), raw 15 releases (20 - 15 = 5)
    let mut stay = pressed(16, 0, 20);
    actuate_key(&mut stay, 10, 5);
    assert!(stay.actuated);
    assert_eq!(stay.peak, 20);

    let mut rel = pressed(15, 0, 20);
    actuate_key(&mut rel, 10, 5);
    assert!(!rel.actuated);
    // peak resets to the baseline on release
    assert_eq!(rel.peak, 0);
}

#[test]
fn rapid_trigger_sequence_releases_only_after_full_reversal() {
    let mut k = released(0, 0);
    let mut seen = Vec::new();
    for mv in [12u16, 20, 16, 15] {
        intake_key(&mut k, mv, true, 0);
        actuate_key(&mut k, 10, 5);
        seen.push(k.actuated);
    }
    assert_eq!(seen, vec![true, true, true, false]);
}

#[test]
fn release_fires_back_below_actuation_point() {
    // even without a rapid-trigger-sized reversal, coming back below
    // baseline + threshold releases
    let mut k = pressed(9, 0, 12);
    actuate_key(&mut k, 10, 5);
    assert!(!k.actuated);
}

#[test]
fn pressed_key_deepens_peak() {
    let mut k = pressed(30, 0, 20);
    actuate_key(&mut k, 10, 5);
    assert!(k.actuated);
    assert_eq!(k.peak, 30);
}

#[test]
fn recalibration_raises_baseline_only_past_threshold() {
    let mut keys = vec![
        released(25, 10), // raised to 25
        released(19, 10), // 19 < 10 + 10: untouched
        released(5, 10),  // untouched
    ];
    recalibrate(&mut keys, 10);
    assert_eq!(keys[0].baseline, 25);
    assert_eq!(keys[1].baseline, 10);
    assert_eq!(keys[2].baseline, 10);
}

#[test]
fn recalibration_baselines_never_decrease() {
    let mut keys = vec![released(50, 0), released(5, 0), pressed(200, 30, 220)];
    let mut last = vec![0u16, 0, 30];
    for _ in 0..5 {
        recalibrate(&mut keys, 10);
        for (i, k) in keys.iter().enumerate() {
            assert!(k.baseline >= last[i]);
            last[i] = k.baseline;
        }
    }
    // readings that satisfied the raise condition converged onto raw
    assert_eq!(keys[0].baseline, 50);
    // a key whose reading never satisfied it is unchanged throughout
    assert_eq!(keys[1], released(5, 0));
}

#[test]
fn socd_conflict_reads_neutral_without_touching_state() {
    let mut keys: Vec<KeyState> = (0..16).map(|_| released(0, 0)).collect();
    keys[1] = pressed(50, 0, 50);
    keys[3] = pressed(60, 0, 60);
    keys[7] = pressed(70, 0, 70);
    let pairs = vec![(1usize, 3usize)];
    let resolved = resolve_socd(&keys, &pairs, true);
    assert!(!resolved[1]);
    assert!(!resolved[3]);
    // a key in no pair passes through
    assert!(resolved[7]);
    // the stored press state is untouched for next-tick hysteresis
    assert!(keys[1].actuated);
    assert!(keys[3].actuated);
}

#[test]
fn socd_single_side_passes_through() {
    let mut keys: Vec<KeyState> = (0..16).map(|_| released(0, 0)).collect();
    keys[1] = pressed(50, 0, 50);
    let pairs = vec![(1usize, 3usize)];
    let resolved = resolve_socd(&keys, &pairs, true);
    assert!(resolved[1]);
    assert!(!resolved[3]);
}

#[test]
fn socd_disabled_policy_passes_conflicts() {
    let mut keys: Vec<KeyState> = (0..16).map(|_| released(0, 0)).collect();
    keys[1] = pressed(50, 0, 50);
    keys[3] = pressed(60, 0, 60);
    let pairs = vec![(1usize, 3usize)];
    let resolved = resolve_socd(&keys, &pairs, false);
    assert!(resolved[1]);
    assert!(resolved[3]);
}

#[test]
fn last_matching_rule_selects_layer() {
    let mut resolved = vec![false; 16];
    resolved[0] = true;
    resolved[2] = true;
    let rules = vec![(0usize, 1usize), (2usize, 5usize)];
    // both held: the later rule wins, and repeat runs agree
    assert_eq!(select_layer(&resolved, &rules), 5);
    assert_eq!(select_layer(&resolved, &rules), 5);
    // only the earlier rule held
    let mut only_first = vec![false; 16];
    only_first[0] = true;
    assert_eq!(select_layer(&only_first, &rules), 1);
    // nothing held: default layer 0
    let none = vec![false; 16];
    assert_eq!(select_layer(&none, &rules), 0);
    // no rules at all: default layer 0
    assert_eq!(select_layer(&resolved, &Vec::new()), 0);
}

#[test]
fn report_collects_mapped_actuated_keys_in_order() {
    let resolved = vec![true, false, true, true];
    let km = Keymap { layers: vec![vec![4u8, 5, 6, 0]] };
    // key 1 is not actuated, key 3 is unmapped (code 0)
    assert_eq!(assemble_report(&resolved, &km, 0), vec![4u8, 6]);
    // an absent layer maps nothing
    assert_eq!(assemble_report(&resolved, &km, 3), Vec::<u8>::new());
}

#[test]
fn report_assembly_is_idempotent() {
    let resolved = vec![true, true, false, true];
    let km = Keymap { layers: vec![vec![4u8, 5, 6, 7], vec![8u8, 9, 10, 11]] };
    let first = assemble_report(&resolved, &km, 1);
    let second = assemble_report(&resolved, &km, 1);
    assert_eq!(first, second);
    assert_eq!(first, vec![8u8, 9, 11]);
}

#[test]
fn duplicate_mappings_collapse_to_one_code() {
    // two actuated keys mapped to the same usage code: the report is a
    // set, so the code appears once
    let resolved = vec![true, true, false, true];
    let km = Keymap { layers: vec![vec![7u8, 7, 7, 9]] };
    assert_eq!(assemble_report(&resolved, &km, 0), vec![7u8, 9]);
}

#[test]
fn socd_suppressed_codes_stay_out_of_report() {
    let mut keys: Vec<KeyState> = (0..16).map(|_| released(0, 0)).collect();
    keys[1] = pressed(50, 0, 50);
    keys[3] = pressed(60, 0, 60);
    keys[7] = pressed(70, 0, 70);
    let pairs = vec![(1usize, 3usize)];
    let resolved = resolve_socd(&keys, &pairs, true);
    let mut row = vec![0u8; 16];
    row[1] = 4;
    row[3] = 5;
    row[7] = 6;
    let km = Keymap { layers: vec![row] };
    let report = assemble_report(&resolved, &km, 0);
    assert!(!report.contains(&4));
    assert!(!report.contains(&5));
    assert_eq!(report, vec![6u8]);
}

#[test]
fn whole_table_actuation_matches_per_key() {
    let mut keys = vec![released(15, 0), released(5, 0), pressed(10, 0, 20)];
    actuate(&mut keys, 10, 5);
    assert!(keys[0].actuated);
    assert!(!keys[1].actuated);
    assert!(!keys[2].actuated);
}
