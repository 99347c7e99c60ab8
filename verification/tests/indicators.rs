use ta_panther::errors::TaError;
use ta_panther::indicators::{
    CrossAbove, CrossBelow, HighestHighValue, LinearRegressionPrediction, LowestLowValue,
};
use ta_panther::{Next, Period, Reset, State};

#[test]
fn cross_above_fires_on_upward_crossings() {
    let mut cross = CrossAbove::new(10).unwrap();
    let inputs = [9i64, 11, 12, 9, 11];
    let expected = [false, true, false, false, true];
    for (i, &x) in inputs.iter().enumerate() {
        assert_eq!(cross.next(x), expected[i], "step {}", i);
    }
}

#[test]
fn cross_below_fires_on_downward_crossings() {
    let mut cross = CrossBelow::new(10).unwrap();
    let inputs = [11i64, 9, 8, 11, 9];
    let expected = [false, true, false, false, true];
    for (i, &x) in inputs.iter().enumerate() {
        assert_eq!(cross.next(x), expected[i], "step {}", i);
    }
}

#[test]
fn cross_boundary_equality_is_not_yet_crossed() {
    // A sample sitting exactly at the threshold does not itself trigger;
    // it counts as "at or below" for cross-above and "at or above" for
    // cross-below on the previous-sample test.
    let mut above = CrossAbove::new(10).unwrap();
    assert!(!above.next(10));
    assert!(above.next(11));
    let mut above2 = CrossAbove::new(10).unwrap();
    assert!(!above2.next(9));
    assert!(!above2.next(10));

    let mut below = CrossBelow::new(10).unwrap();
    assert!(!below.next(10));
    assert!(below.next(9));
    let mut below2 = CrossBelow::new(10).unwrap();
    assert!(!below2.next(11));
    assert!(!below2.next(10));
}

#[test]
fn cross_detectors_have_period_two() {
    assert_eq!(CrossAbove::new(5).unwrap().period(), 2);
    assert_eq!(CrossBelow::new(5).unwrap().period(), 2);
}

#[test]
fn hhv_tracks_window_maximum() {
    let mut hhv = HighestHighValue::new(3).unwrap();
    let inputs = [10i64, 12, 8, 13];
    let expected = [10i64, 12, 12, 13];
    for (i, &x) in inputs.iter().enumerate() {
        assert_eq!(hhv.next(x), expected[i], "step {}", i);
    }
}

#[test]
fn hhv_evicts_old_maximum() {
    let mut hhv = HighestHighValue::new(2).unwrap();
    assert_eq!(hhv.next(100), 100);
    assert_eq!(hhv.next(5), 100);
    assert_eq!(hhv.next(4), 5);
    assert_eq!(hhv.next(3), 4);
}

#[test]
fn llv_tracks_window_minimum() {
    let mut llv = LowestLowValue::new(3).unwrap();
    let inputs = [10i64, 8, 12, 7];
    let expected = [10i64, 8, 8, 7];
    for (i, &x) in inputs.iter().enumerate() {
        assert_eq!(llv.next(x), expected[i], "step {}", i);
    }
}

#[test]
fn llv_evicts_old_minimum() {
    let mut llv = LowestLowValue::new(2).unwrap();
    assert_eq!(llv.next(1), 1);
    assert_eq!(llv.next(50), 1);
    assert_eq!(llv.next(60), 50);
    assert_eq!(llv.next(70), 60);
}

#[test]
fn trackers_with_period_one_report_each_sample() {
    let mut hhv = HighestHighValue::new(1).unwrap();
    assert_eq!(hhv.next(3), 3);
    assert_eq!(hhv.next(-5), -5);
    let mut llv = LowestLowValue::new(1).unwrap();
    assert_eq!(llv.next(3), 3);
    assert_eq!(llv.next(7), 7);
}

#[test]
fn period_zero_is_invalid_parameter() {
    assert_eq!(HighestHighValue::new(0).unwrap_err(), TaError::InvalidParameter);
    assert_eq!(LowestLowValue::new(0).unwrap_err(), TaError::InvalidParameter);
    assert_eq!(
        LinearRegressionPrediction::new(0).unwrap_err(),
        TaError::InvalidParameter
    );
    assert!(HighestHighValue::new(1).is_ok());
    assert!(LowestLowValue::new(1).is_ok());
    assert!(LinearRegressionPrediction::new(1).is_ok());
    assert!(HighestHighValue::new(4096).is_ok());
}

#[test]
fn forecaster_extrapolates_one_step_ahead() {
    let mut lrp = LinearRegressionPrediction::new(3).unwrap();
    let inputs = [1i64, 2, 3, 4, 5];
    let expected = [1i64, 2, 4, 5, 6];
    for (i, &x) in inputs.iter().enumerate() {
        let out = lrp.next(x);
        assert!(out.eq_int(expected[i]), "step {}: got {}/{}", i, out.num, out.den);
        assert!(!out.eq_int(expected[i] + 1));
    }
}

#[test]
fn forecaster_returns_exact_unreduced_moments() {
    // One sample under period 3: the deviation square sum is 4, the cross
    // sum is 0, so the prediction is the exact ratio 4/4.
    let mut lrp = LinearRegressionPrediction::new(3).unwrap();
    let out = lrp.next(1);
    assert_eq!((out.num, out.den), (4, 4));
}

#[test]
fn forecaster_degenerate_variance_returns_mean() {
    // With period 1 the lone regressor position equals the regressor mean,
    // the variance is zero, and the prediction degenerates to the sample.
    let mut lrp = LinearRegressionPrediction::new(1).unwrap();
    let a = lrp.next(5);
    assert!(a.eq_int(5));
    let b = lrp.next(-7);
    assert!(b.eq_int(-7));
}

#[test]
fn forecaster_reports_declared_period() {
    let lrp = LinearRegressionPrediction::new(9).unwrap();
    assert_eq!(lrp.period(), 9);
    assert_eq!(HighestHighValue::new(7).unwrap().period(), 7);
    assert_eq!(LowestLowValue::new(4).unwrap().period(), 4);
}

#[test]
fn reset_is_idempotent_and_matches_fresh_instance() {
    let inputs = [9i64, 11, 12, 9, 11];

    let mut once = CrossAbove::new(10).unwrap();
    let mut twice = CrossAbove::new(10).unwrap();
    let fresh = CrossAbove::new(10).unwrap();
    for &x in inputs.iter() {
        once.next(x);
        twice.next(x);
    }
    once.reset();
    twice.reset();
    twice.reset();
    let mut fresh = fresh;
    for &x in inputs.iter() {
        let expect = fresh.next(x);
        assert_eq!(once.next(x), expect);
        assert_eq!(twice.next(x), expect);
    }
}

#[test]
fn reset_restores_trackers_and_forecaster() {
    let inputs = [10i64, 12, 8, 13, 7];

    let mut hhv = HighestHighValue::new(3).unwrap();
    let mut hhv_fresh = HighestHighValue::new(3).unwrap();
    for &x in inputs.iter() {
        hhv.next(x);
    }
    hhv.reset();
    hhv.reset();
    for &x in inputs.iter() {
        assert_eq!(hhv.next(x), hhv_fresh.next(x));
    }

    let mut llv = LowestLowValue::new(3).unwrap();
    let mut llv_fresh = LowestLowValue::new(3).unwrap();
    for &x in inputs.iter() {
        llv.next(x);
    }
    llv.reset();
    for &x in inputs.iter() {
        assert_eq!(llv.next(x), llv_fresh.next(x));
    }

    let mut lrp = LinearRegressionPrediction::new(3).unwrap();
    let mut lrp_fresh = LinearRegressionPrediction::new(3).unwrap();
    for &x in inputs.iter() {
        lrp.next(x);
    }
    lrp.reset();
    for &x in inputs.iter() {
        assert_eq!(lrp.next(x), lrp_fresh.next(x));
    }
}

#[test]
fn state_snapshot_returns_threshold_and_window() {
    let mut cross = CrossAbove::new(10).unwrap();
    cross.next(9);
    cross.next(11);
    assert_eq!(cross.samples_held(), 2);
    assert_eq!(cross.state(), (10, 9, 11));
}

#[test]
fn state_roundtrip_preserves_behaviour() {
    let mut original = CrossAbove::new(10).unwrap();
    original.next(9);
    original.next(11);

    let (threshold, prev, curr) = original.state();
    let mut restored = CrossAbove::from_state(threshold, vec![prev, curr]).unwrap();

    for &x in [12i64, 9, 11, 10, 11, 9].iter() {
        assert_eq!(restored.next(x), original.next(x));
    }
}

#[test]
fn tracker_state_roundtrip_preserves_behaviour() {
    let mut original = HighestHighValue::new(3).unwrap();
    for &x in [10i64, 12, 8, 13, 7].iter() {
        original.next(x);
    }
    let (period, window) = original.state();
    assert_eq!(period, 3);
    assert_eq!(window, vec![8, 13, 7]);
    let mut restored = HighestHighValue::from_state(period, window).unwrap();
    for &x in [6i64, 20, 1, 2, 3].iter() {
        assert_eq!(restored.next(x), original.next(x));
    }

    let mut low = LowestLowValue::new(3).unwrap();
    low.next(10);
    low.next(8);
    let (period, window) = low.state();
    assert_eq!((period, window.clone()), (3, vec![10, 8]));
    let mut low_restored = LowestLowValue::from_state(period, window).unwrap();
    for &x in [12i64, 7, 9].iter() {
        assert_eq!(low_restored.next(x), low.next(x));
    }
}

#[test]
fn forecaster_state_roundtrip_preserves_behaviour() {
    let mut original = LinearRegressionPrediction::new(3).unwrap();
    for &x in [1i64, 2, 3].iter() {
        original.next(x);
    }
    let (period, window) = original.state();
    assert_eq!((period, window.clone()), (3, vec![1, 2, 3]));
    let mut restored = LinearRegressionPrediction::from_state(period, window).unwrap();
    for &x in [4i64, 5, 10, -3].iter() {
        assert_eq!(restored.next(x), original.next(x));
    }
}

#[test]
fn tracker_from_state_truncates_and_validates() {
    // Five persisted samples against a period of three: only the newest
    // three remain, so the reported maximum is taken over [30, 5, 7].
    let mut hhv = HighestHighValue::from_state(3, vec![90, 80, 30, 5, 7]).unwrap();
    assert_eq!(hhv.next(6), 7);
    assert_eq!(
        HighestHighValue::from_state(0, vec![1]).unwrap_err(),
        TaError::InvalidParameter
    );
    assert_eq!(
        LowestLowValue::from_state(0, vec![]).unwrap_err(),
        TaError::InvalidParameter
    );
    assert_eq!(
        LinearRegressionPrediction::from_state(0, vec![]).unwrap_err(),
        TaError::InvalidParameter
    );
    let mut llv = LowestLowValue::from_state(2, vec![1, 50, 60]).unwrap();
    assert_eq!(llv.next(70), 60);
}

#[test]
fn from_state_truncates_oversized_window_to_newest() {
    // An oversized persisted buffer is normalized by dropping entries from
    // the front, never by failing: only the two newest samples remain.
    let mut restored = CrossAbove::from_state(10, vec![99, 42, 9, 11]).unwrap();
    assert_eq!(restored.samples_held(), 2);
    assert_eq!(restored.state(), (10, 9, 11));
    // The retained window is [9, 11]: 12 crosses nothing, then 9 -> 11 does.
    assert!(!restored.next(12));

    let mut short = CrossAbove::from_state(7, vec![5]).unwrap();
    assert_eq!(short.samples_held(), 1);
    assert!(!short.next(6));
    assert!(short.next(8));
}

#[test]
fn defaults_match_documented_construction() {
    let mut above = CrossAbove::default();
    assert!(!above.next(-1));
    assert!(above.next(1));
    let mut below = CrossBelow::default();
    assert!(!below.next(1));
    assert!(below.next(-1));
    assert_eq!(HighestHighValue::default().period(), 7);
    assert_eq!(LowestLowValue::default().period(), 7);
    assert_eq!(LinearRegressionPrediction::default().period(), 9);
}

#[test]
fn error_kinds_describe_themselves() {
    assert_eq!(TaError::InvalidParameter.message(), "invalid parameter");
    assert_eq!(TaError::DataItemIncomplete.message(), "data item is incomplete");
    assert_eq!(TaError::DataItemInvalid.message(), "data item is invalid");
}
