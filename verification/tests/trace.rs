use shadow_trace::{get_trace, perform_trace_calculation, rho_elt_process, Trace, TraceError};

fn seqs(rows: &[&[&str]]) -> Vec<Vec<String>> {
    rows.iter().map(|r| r.iter().map(|s| s.to_string()).collect()).collect()
}

fn value(t: &Trace) -> f64 {
    t.num as f64 / 2f64.powi(t.halvings as i32)
}

#[test]
fn factor_rule_disagree_first() {
    let x = "x".to_string();
    let y = "y".to_string();
    // factor 0.5, carried doubled
    assert_eq!(rho_elt_process(&x, &y, &x, &x), 1);
}

#[test]
fn factor_rule_agree_both() {
    let x = "x".to_string();
    // factor 5.0, carried doubled
    assert_eq!(rho_elt_process(&x, &x, &x, &x), 10);
}

#[test]
fn factor_rule_agree_first_only() {
    let x = "x".to_string();
    let y = "y".to_string();
    // factor -4.0, carried doubled
    assert_eq!(rho_elt_process(&x, &x, &x, &y), -8);
}

#[test]
fn pair_product_empty_index_set() {
    let rows = seqs(&[&["x", "x"], &["x", "y"]]);
    assert_eq!(get_trace(&rows[0], &rows[1], &vec![]), Some(1));
}

#[test]
fn pair_product_two_positions() {
    let rows = seqs(&[&["x", "x", "x", "x"], &["x", "x", "x", "y"]]);
    // positions (0,1) agree fully (10), positions (2,3) agree first only (-8)
    assert_eq!(get_trace(&rows[0], &rows[1], &vec![0, 2]), Some(-80));
}

#[test]
fn pair_product_symmetry() {
    let rows = seqs(&[&["x", "y", "x", "x"], &["x", "x", "y", "x"]]);
    let idx = vec![0, 2];
    assert_eq!(
        get_trace(&rows[0], &rows[1], &idx),
        get_trace(&rows[1], &rows[0], &idx)
    );
}

#[test]
fn scenario_full_agreement() {
    let data = seqs(&[&["x", "x"], &["x", "x"]]);
    let t = perform_trace_calculation(data, vec![0]).unwrap();
    assert_eq!(t, Trace { num: 10, halvings: 1 });
    assert_eq!(value(&t), 5.0);
}

#[test]
fn scenario_first_position_differs() {
    let data = seqs(&[&["x", "y"], &["y", "x"]]);
    let t = perform_trace_calculation(data, vec![0]).unwrap();
    assert_eq!(t, Trace { num: 1, halvings: 1 });
    assert_eq!(value(&t), 0.5);
}

#[test]
fn scenario_second_position_differs() {
    let data = seqs(&[&["x", "x"], &["x", "y"]]);
    let t = perform_trace_calculation(data, vec![0]).unwrap();
    assert_eq!(t, Trace { num: -8, halvings: 1 });
    assert_eq!(value(&t), -4.0);
}

#[test]
fn scenario_three_sequences_no_probes() {
    let data = seqs(&[&["x"], &["y"], &["z"]]);
    let t = perform_trace_calculation(data, vec![]).unwrap();
    assert_eq!(t, Trace { num: 3, halvings: 0 });
    assert_eq!(value(&t), 3.0);
}

#[test]
fn empty_dataset_is_zero() {
    let t = perform_trace_calculation(Vec::new(), vec![0, 7]).unwrap();
    assert_eq!(t.num, 0);
    assert_eq!(value(&t), 0.0);
}

#[test]
fn single_sequence_is_zero() {
    let data = seqs(&[&["x", "x"]]);
    let t = perform_trace_calculation(data, vec![0]).unwrap();
    assert_eq!(t.num, 0);
    assert_eq!(value(&t), 0.0);
}

#[test]
fn empty_probe_set_counts_pairs() {
    let data = seqs(&[&["a"], &["b"], &["c"], &["d"], &["e"]]);
    let t = perform_trace_calculation(data, vec![]).unwrap();
    // five sequences make 5 * 4 / 2 pairs, each contributing 1.0
    assert_eq!(t, Trace { num: 10, halvings: 0 });
    assert_eq!(value(&t), 10.0);
}

#[test]
fn three_pairs_mixed_factors() {
    let data = seqs(&[&["x", "x"], &["x", "x"], &["x", "y"]]);
    let t = perform_trace_calculation(data, vec![0]).unwrap();
    // pairs: (0,1) -> 5.0, (0,2) -> -4.0, (1,2) -> -4.0
    assert_eq!(t, Trace { num: -6, halvings: 1 });
    assert_eq!(value(&t), -3.0);
}

#[test]
fn total_ignores_sequence_order() {
    let fwd = seqs(&[&["x", "x"], &["x", "y"], &["y", "y"]]);
    let rev = seqs(&[&["y", "y"], &["x", "y"], &["x", "x"]]);
    assert_eq!(
        perform_trace_calculation(fwd, vec![0]),
        perform_trace_calculation(rev, vec![0])
    );
}

#[test]
fn repeated_runs_agree_exactly() {
    let data = seqs(&[&["x", "y", "x", "x"], &["x", "x", "y", "x"], &["y", "x", "x", "y"]]);
    let first = perform_trace_calculation(data.clone(), vec![0, 1]);
    let second = perform_trace_calculation(data, vec![0, 1]);
    assert_eq!(first, second);
}

#[test]
fn probe_past_end_is_reported() {
    let data = seqs(&[&["x"], &["x"]]);
    let r = perform_trace_calculation(data, vec![0]);
    assert_eq!(
        r,
        Err(TraceError::IndexOutOfRange { sequence: 0, probe: 0 })
    );
}

#[test]
fn first_offending_sequence_is_named() {
    let data = seqs(&[&["x", "x", "x", "x"], &["x", "x"]]);
    let r = perform_trace_calculation(data, vec![0, 1]);
    // sequence 0 covers probes 0 and 1; sequence 1 is too short for probe 1
    assert_eq!(
        r,
        Err(TraceError::IndexOutOfRange { sequence: 1, probe: 1 })
    );
}

#[test]
fn huge_probe_is_out_of_range() {
    let data = seqs(&[&["x", "x"], &["x", "x"]]);
    let r = perform_trace_calculation(data, vec![usize::MAX]);
    assert_eq!(
        r,
        Err(TraceError::IndexOutOfRange { sequence: 0, probe: usize::MAX })
    );
}

#[test]
fn oversized_product_overflows() {
    // forty fully agreeing probe pairs give a numerator of 10^40 > i128::MAX
    let labels: Vec<&str> = std::iter::repeat("x").take(80).collect();
    let data = seqs(&[&labels[..], &labels[..]]);
    let subs: Vec<usize> = (0..40).collect();
    assert_eq!(perform_trace_calculation(data, subs), Err(TraceError::Overflow));
}

#[test]
fn widest_product_in_range_succeeds() {
    // 10^38 still fits in i128; the value is 5.0^38 exactly
    let labels: Vec<&str> = std::iter::repeat("x").take(76).collect();
    let data = seqs(&[&labels[..], &labels[..]]);
    let subs: Vec<usize> = (0..38).collect();
    let t = perform_trace_calculation(data, subs).unwrap();
    assert_eq!(t, Trace { num: 10i128.pow(38), halvings: 38 });
}
