use plan_ir::EwmMeanState;

const ALPHA: f64 = 0.5;
const EPS: f64 = 1e-15;

/// The standard floating-point steps, driving the library's state
/// machine over a whole stream.
fn ewm_mean(
    xs: Vec<Option<f64>>,
    alpha: f64,
    adjust: bool,
    min_periods: usize,
    ignore_nulls: bool,
) -> Vec<Option<f64>> {
    let mut state: EwmMeanState<f64> = EwmMeanState::new(alpha, adjust, min_periods, ignore_nulls);
    let new_value_weight = if adjust { 1.0 } else { alpha };
    let init = move |v: f64| (v, 1.0f64);
    let decay = move |w: f64| w * (1.0 - alpha);
    let blend = move |mean: f64, weight: f64, v: f64| {
        let new_weight = weight + new_value_weight;
        let mean2 = mean + (v - mean) * (new_value_weight / new_weight);
        let weight2 = if adjust { weight + 1.0 } else { 1.0 };
        (mean2, weight2)
    };
    state.update_iter(xs, &init, &decay, &blend)
}

fn assert_allclose(result: &[Option<f64>], expected: &[Option<f64>], eps: f64) {
    assert_eq!(result.len(), expected.len());
    for (r, e) in result.iter().zip(expected.iter()) {
        match (r, e) {
            (None, None) => {}
            (Some(rv), Some(ev)) => {
                assert!((rv - ev).abs() <= eps, "{rv} differs from {ev}");
            }
            _ => panic!("presence differs: {r:?} vs {e:?}"),
        }
    }
}

#[test]
fn test_ewm_mean_without_null() {
    let xs: Vec<Option<f64>> = vec![Some(1.0), Some(2.0), Some(3.0)];
    for adjust in [false, true] {
        for ignore_nulls in [false, true] {
            for min_periods in [0, 1] {
                let result = ewm_mean(xs.clone(), ALPHA, adjust, min_periods, ignore_nulls);
                let expected = match adjust {
                    false => vec![Some(1.0f64), Some(1.5f64), Some(2.25f64)],
                    true => vec![
                        Some(1.0),
                        Some(1.666_666_666_666_666_7),
                        Some(2.428_571_428_571_428_4),
                    ],
                };
                assert_allclose(&result, &expected, 1e-15);
            }
            let result = ewm_mean(xs.clone(), ALPHA, adjust, 2, ignore_nulls);
            let expected = match adjust {
                false => vec![None, Some(1.5f64), Some(2.25f64)],
                true => vec![
                    None,
                    Some(1.666_666_666_666_666_7),
                    Some(2.428_571_428_571_428_4),
                ],
            };
            assert_allclose(&result, &expected, EPS);
        }
    }
}

#[test]
fn test_ewm_mean_with_null() {
    let xs1 = vec![
        None,
        None,
        Some(5.0f64),
        Some(7.0f64),
        None,
        Some(2.0f64),
        Some(1.0f64),
        Some(4.0f64),
    ];
    assert_allclose(
        &ewm_mean(xs1.clone(), 0.5, true, 0, true),
        &[
            None,
            None,
            Some(5.0),
            Some(6.333_333_333_333_333),
            None,
            Some(3.857_142_857_142_857),
            Some(2.333_333_333_333_333_5),
            Some(3.193_548_387_096_774),
        ],
        EPS,
    );
    assert_allclose(
        &ewm_mean(xs1.clone(), 0.5, true, 0, false),
        &[
            None,
            None,
            Some(5.0),
            Some(6.333_333_333_333_333),
            None,
            Some(3.181_818_181_818_181_7),
            Some(1.888_888_888_888_888_8),
            Some(3.033_898_305_084_745_7),
        ],
        EPS,
    );
    assert_allclose(
        &ewm_mean(xs1.clone(), 0.5, false, 0, true),
        &[
            None,
            None,
            Some(5.0),
            Some(6.0),
            None,
            Some(4.0),
            Some(2.5),
            Some(3.25),
        ],
        EPS,
    );
    assert_allclose(
        &ewm_mean(xs1, 0.5, false, 0, false),
        &[
            None,
            None,
            Some(5.0),
            Some(6.0),
            None,
            Some(3.333_333_333_333_333_5),
            Some(2.166_666_666_666_667),
            Some(3.083_333_333_333_333_5),
        ],
        EPS,
    );
}

#[test]
fn state_counts_present_values_across_batches() {
    let mut state: EwmMeanState<f64> = EwmMeanState::new(0.5, true, 3, false);
    let init = |v: f64| (v, 1.0f64);
    let decay = |w: f64| w * 0.5;
    let blend = |mean: f64, weight: f64, v: f64| {
        let new_weight = weight + 1.0;
        (mean + (v - mean) / new_weight, weight + 1.0)
    };
    assert_eq!(state.count(), 0);
    let out = state.update(&vec![Some(1.0), None, Some(2.0)], &init, &decay, &blend);
    // Two present values so far: still below the three demanded.
    assert_eq!(out, vec![None, None, None]);
    assert_eq!(state.count(), 2);
    let out = state.update(&vec![Some(3.0), Some(4.0)], &init, &decay, &blend);
    // The third and fourth present values produce outputs.
    assert!(out[0].is_some());
    assert!(out[1].is_some());
    assert_eq!(state.count(), 4);
}
