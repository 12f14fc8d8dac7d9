use visgen_graph::easing::{ease_apply, lerp_i64, EasingKind};
use visgen_graph::{DoubleMicro, FloatMicro, Interpolate, Value, FACTOR_ONE};

fn all_kinds() -> Vec<EasingKind> {
    vec![
        EasingKind::Identity,
        EasingKind::QuadIn,
        EasingKind::QuadOut,
        EasingKind::Smooth,
    ]
}

#[test]
fn every_easing_fixes_both_ends() {
    for k in all_kinds() {
        assert_eq!(ease_apply(k, 0), 0);
        assert_eq!(ease_apply(k, FACTOR_ONE), FACTOR_ONE);
    }
}

#[test]
fn easing_midpoints_match_their_formulas() {
    let half = FACTOR_ONE / 2;
    assert_eq!(ease_apply(EasingKind::Identity, half), 500_000);
    assert_eq!(ease_apply(EasingKind::QuadIn, half), 250_000);
    assert_eq!(ease_apply(EasingKind::QuadOut, half), 750_000);
    assert_eq!(ease_apply(EasingKind::Smooth, half), 500_000);
}

#[test]
fn lerp_endpoints_for_every_easing_and_numeric_kind() {
    // lerp(a, b, ease(0)) == a and lerp(a, b, ease(1)) == b, for every
    // easing curve, since every curve fixes both ends.
    for k in all_kinds() {
        let zero = ease_apply(k, 0);
        let one = ease_apply(k, FACTOR_ONE);

        let pairs_int = [(3i32, 9i32), (-5, 5), (7, -7)];
        for (a, b) in pairs_int {
            match Value::interpolation(zero, &Value::Int(a), &Value::Int(b)) {
                Value::Int(r) => assert_eq!(r, a),
                other => panic!("unexpected value kind {:?}", other),
            }
            match Value::interpolation(one, &Value::Int(a), &Value::Int(b)) {
                Value::Int(r) => assert_eq!(r, b),
                other => panic!("unexpected value kind {:?}", other),
            }
        }

        let pairs_float = [(0i64, 10_000_000i64), (-1_500_000, 2_500_000)];
        for (a, b) in pairs_float {
            match Value::interpolation(
                zero,
                &Value::Float(FloatMicro(a)),
                &Value::Float(FloatMicro(b)),
            ) {
                Value::Float(r) => assert_eq!(r.0, a),
                other => panic!("unexpected value kind {:?}", other),
            }
            match Value::interpolation(
                one,
                &Value::Float(FloatMicro(a)),
                &Value::Float(FloatMicro(b)),
            ) {
                Value::Float(r) => assert_eq!(r.0, b),
                other => panic!("unexpected value kind {:?}", other),
            }
        }
    }
}

#[test]
fn lerp_midpoint_is_halfway() {
    let half = FACTOR_ONE / 2;
    assert_eq!(lerp_i64(0, 10_000_000, half), 5_000_000);
    assert_eq!(lerp_i64(10_000_000, 0, half), 5_000_000);
    match Value::interpolation(
        half,
        &Value::Long(100),
        &Value::Long(200),
    ) {
        Value::Long(r) => assert_eq!(r, 150),
        other => panic!("unexpected value kind {:?}", other),
    }
    match Value::interpolation(
        half,
        &Value::Double(DoubleMicro(0)),
        &Value::Double(DoubleMicro(8_000_000)),
    ) {
        Value::Double(r) => assert_eq!(r.0, 4_000_000),
        other => panic!("unexpected value kind {:?}", other),
    }
}

#[test]
fn non_numeric_pairs_interpolate_to_nil() {
    let r = Value::interpolation(
        0,
        &Value::Text("a".to_string()),
        &Value::Text("b".to_string()),
    );
    assert!(matches!(r, Value::Nil));
    let r = Value::interpolation(0, &Value::Int(1), &Value::Float(FloatMicro(1)));
    assert!(matches!(r, Value::Nil));
    let r = Value::interpolation(0, &Value::Bool(true), &Value::Bool(false));
    assert!(matches!(r, Value::Nil));
}
