//! Fixed-point easing curves and variant-matched linear interpolation.
//!
//! Interpolation progress runs from `0` to [`FACTOR_ONE`] fixed-point steps.
//! Every easing curve maps that range onto itself and fixes both ends, which
//! is what makes a fade start exactly at the previous value and end exactly
//! at the target.
use vstd::prelude::*;
use vstd::arithmetic::div_mod::*;
use crate::parameter::values_view;
use crate::value::{DoubleMicro, FloatMicro, Value, ValueView};

verus! {

/// One full unit of interpolation progress, in fixed-point steps.
pub const FACTOR_ONE: i64 = 1_000_000;

/// The fixed set of easing curves a program can select.
#[derive(Clone, Copy, Debug, PartialEq, Eq, Structural)]
pub enum EasingKind {
    /// The fade progresses linearly.
    Identity,
    /// Quadratic curve `t * t`: slow start, hard end.
    QuadIn,
    /// Quadratic curve `(2 - t) * t`: hard start, slow end.
    QuadOut,
    /// Cubic curve `3 t^2 - 2 t^3`: slow start and slow end.
    Smooth,
}

/// The value of easing curve `k` at progress `t`, both in fixed-point steps.
pub open spec fn spec_ease(k: EasingKind, t: int) -> int {
    let s = FACTOR_ONE as int;
    match k {
        EasingKind::Identity => t,
        EasingKind::QuadIn => (t * t) / s,
        EasingKind::QuadOut => ((2 * s - t) * t) / s,
        EasingKind::Smooth => ((3 * s - 2 * t) * (t * t)) / (s * s),
    }
}

/// Every easing curve maps the progress range onto itself.
pub proof fn lemma_ease_range(k: EasingKind, t: int)
    requires
        0 <= t <= FACTOR_ONE as int,
    ensures
        0 <= spec_ease(k, t) <= FACTOR_ONE as int,
{
    let s = FACTOR_ONE as int;
    match k {
        EasingKind::Identity => {},
        EasingKind::QuadIn => {
            assert(t * t >= 0) by (nonlinear_arith)
                requires 0 <= t;
            assert(t * t <= s * s) by (nonlinear_arith)
                requires 0 <= t <= s;
            lemma_div_pos_is_pos(t * t, s);
            lemma_div_is_ordered(t * t, s * s, s);
            assert((s * s) / s == s);
        },
        EasingKind::QuadOut => {
            assert((2 * s - t) * t >= 0) by (nonlinear_arith)
                requires 0 <= t <= s;
            assert((2 * s - t) * t <= s * s) by (nonlinear_arith)
                requires 0 <= t <= s;
            lemma_div_pos_is_pos((2 * s - t) * t, s);
            lemma_div_is_ordered((2 * s - t) * t, s * s, s);
            assert((s * s) / s == s);
        },
        EasingKind::Smooth => {
            assert((3 * s - 2 * t) * (t * t) >= 0) by (nonlinear_arith)
                requires 0 <= t <= s;
            assert((3 * s - 2 * t) * (t * t) <= s * s * s) by (nonlinear_arith)
                requires 0 <= t <= s;
            lemma_div_pos_is_pos((3 * s - 2 * t) * (t * t), s * s);
            lemma_div_is_ordered((3 * s - 2 * t) * (t * t), s * s * s, s * s);
            assert((s * s * s) / (s * s) == s);
        },
    }
}

/// Every easing curve fixes both ends of the progress range:
/// `ease(0) == 0` and `ease(1) == 1`.
pub proof fn lemma_ease_endpoints(k: EasingKind)
    ensures
        spec_ease(k, 0) == 0,
        spec_ease(k, FACTOR_ONE as int) == FACTOR_ONE as int,
{
    let s = FACTOR_ONE as int;
    match k {
        EasingKind::Identity => {},
        EasingKind::QuadIn => {
            assert((0int * 0) / s == 0);
            assert((s * s) / s == s);
        },
        EasingKind::QuadOut => {
            assert(((2 * s - 0) * 0int) / s == 0);
            assert(((2 * s - s) * s) / s == s);
        },
        EasingKind::Smooth => {
            assert(((3 * s - 2 * 0) * (0int * 0)) / (s * s) == 0);
            assert(((3 * s - 2 * s) * (s * s)) / (s * s) == s);
        },
    }
}

/// Applies easing curve `k` at progress `t`.
pub fn ease_apply(k: EasingKind, t: i64) -> (r: i64)
    requires
        0 <= t <= FACTOR_ONE,
    ensures
        r == spec_ease(k, t as int),
        0 <= r <= FACTOR_ONE,
{
    proof {
        lemma_ease_range(k, t as int);
    }
    let s = FACTOR_ONE as u64;
    let tu = t as u64;
    match k {
        EasingKind::Identity => t,
        EasingKind::QuadIn => ((tu * tu) / s) as i64,
        EasingKind::QuadOut => (((2 * s - tu) * tu) / s) as i64,
        EasingKind::Smooth => {
            proof {
                assert(t as u64 * (t as u64) <= 1_000_000_000_000) by (nonlinear_arith)
                    requires 0 <= t <= 1_000_000;
            }
            let r = ((3 * s - 2 * tu) as u128 * (tu * tu) as u128) / (s as u128 * s as u128);
            r as i64
        },
    }
}

/// Linear interpolation from `a` to `b` at progress `f`: at `0` it yields
/// `a`, at [`FACTOR_ONE`] it yields `b`, in between it moves proportionally,
/// rounding towards the side it starts from.
pub open spec fn spec_lerp(a: int, b: int, f: int) -> int {
    let s = FACTOR_ONE as int;
    if b >= a {
        a + ((b - a) * f) / s
    } else {
        b + ((a - b) * (s - f)) / s
    }
}

/// Linear interpolation fixes both ends: `lerp(a, b, 0) == a` and
/// `lerp(a, b, 1) == b`.
pub proof fn lemma_lerp_endpoints(a: int, b: int)
    ensures
        spec_lerp(a, b, 0) == a,
        spec_lerp(a, b, FACTOR_ONE as int) == b,
{
    let s = FACTOR_ONE as int;
    if b >= a {
        assert((b - a) * 0int == 0);
        lemma_div_of0(s);
        lemma_div_multiples_vanish(b - a, s);
        assert(s * (b - a) == (b - a) * s) by (nonlinear_arith);
    } else {
        assert((a - b) * 0int == 0);
        lemma_div_of0(s);
        lemma_div_multiples_vanish(a - b, s);
        assert(s * (a - b) == (a - b) * s) by (nonlinear_arith);
    }
}

/// The interpolated value stays between the two ends.
pub proof fn lemma_lerp_bounds(a: int, b: int, f: int)
    requires
        0 <= f <= FACTOR_ONE as int,
    ensures
        b >= a ==> a <= spec_lerp(a, b, f) <= b,
        b < a ==> b <= spec_lerp(a, b, f) <= a,
{
    let s = FACTOR_ONE as int;
    if b >= a {
        assert((b - a) * f >= 0) by (nonlinear_arith)
            requires b >= a && f >= 0;
        assert((b - a) * f <= (b - a) * s) by (nonlinear_arith)
            requires b >= a && f <= s;
        lemma_div_pos_is_pos((b - a) * f, s);
        lemma_div_is_ordered((b - a) * f, (b - a) * s, s);
        lemma_div_multiples_vanish(b - a, s);
        assert(s * (b - a) == (b - a) * s) by (nonlinear_arith);
    } else {
        assert((a - b) * (s - f) >= 0) by (nonlinear_arith)
            requires a > b && f <= s;
        assert((a - b) * (s - f) <= (a - b) * s) by (nonlinear_arith)
            requires a > b && f >= 0;
        lemma_div_pos_is_pos((a - b) * (s - f), s);
        lemma_div_is_ordered((a - b) * (s - f), (a - b) * s, s);
        lemma_div_multiples_vanish(a - b, s);
        assert(s * (a - b) == (a - b) * s) by (nonlinear_arith);
    }
}

/// Linear interpolation between two wide integers.
pub fn lerp_i64(a: i64, b: i64, f: i64) -> (r: i64)
    requires
        0 <= f <= FACTOR_ONE,
    ensures
        r == spec_lerp(a as int, b as int, f as int),
{
    proof {
        lemma_lerp_bounds(a as int, b as int, f as int);
    }
    let s = FACTOR_ONE as u128;
    if b >= a {
        let diff = (b as i128 - a as i128) as u128;
        let step = (diff * (f as u128)) / s;
        (a as i128 + step as i128) as i64
    } else {
        let diff = (a as i128 - b as i128) as u128;
        let step = (diff * ((FACTOR_ONE - f) as u128)) / s;
        (b as i128 + step as i128) as i64
    }
}

/// Linear interpolation between two narrow integers.
pub fn lerp_i32(a: i32, b: i32, f: i64) -> (r: i32)
    requires
        0 <= f <= FACTOR_ONE,
    ensures
        r == spec_lerp(a as int, b as int, f as int),
{
    proof {
        lemma_lerp_bounds(a as int, b as int, f as int);
    }
    lerp_i64(a as i64, b as i64, f) as i32
}

/// Variant-matched interpolation of tagged values: the four numeric kinds
/// interpolate linearly when both sides have the same kind; every other
/// pairing yields the `Nil` sentinel.
pub open spec fn spec_value_lerp(f: int, a: ValueView, b: ValueView) -> ValueView {
    match (a, b) {
        (ValueView::Int(x), ValueView::Int(y)) => ValueView::Int(
            spec_lerp(x as int, y as int, f) as i32,
        ),
        (ValueView::Float(x), ValueView::Float(y)) => ValueView::Float(
            spec_lerp(x as int, y as int, f) as i64,
        ),
        (ValueView::Long(x), ValueView::Long(y)) => ValueView::Long(
            spec_lerp(x as int, y as int, f) as i64,
        ),
        (ValueView::Double(x), ValueView::Double(y)) => ValueView::Double(
            spec_lerp(x as int, y as int, f) as i64,
        ),
        _ => ValueView::Nil,
    }
}

/// Whether `a` and `b` are a pair that interpolates (same numeric kind).
pub open spec fn interpolatable(a: ValueView, b: ValueView) -> bool {
    ||| a is Int && b is Int
    ||| a is Float && b is Float
    ||| a is Long && b is Long
    ||| a is Double && b is Double
}

/// For every easing curve and every interpolatable pair, a fade at progress
/// `0` yields the first value and a fade at full progress yields the second,
/// because every easing curve fixes both ends.
pub proof fn lemma_value_lerp_endpoints(k: EasingKind, a: ValueView, b: ValueView)
    requires
        interpolatable(a, b),
    ensures
        spec_value_lerp(spec_ease(k, 0), a, b) == a,
        spec_value_lerp(spec_ease(k, FACTOR_ONE as int), a, b) == b,
{
    lemma_ease_endpoints(k);
    match (a, b) {
        (ValueView::Int(x), ValueView::Int(y)) => {
            lemma_lerp_endpoints(x as int, y as int);
        },
        (ValueView::Float(x), ValueView::Float(y)) => {
            lemma_lerp_endpoints(x as int, y as int);
        },
        (ValueView::Long(x), ValueView::Long(y)) => {
            lemma_lerp_endpoints(x as int, y as int);
        },
        (ValueView::Double(x), ValueView::Double(y)) => {
            lemma_lerp_endpoints(x as int, y as int);
        },
        _ => {},
    }
}

/// Linear interpolation between two values of the same type.
pub trait Interpolate: View + Sized {
    /// The mathematical meaning of the interpolation.
    spec fn spec_interpolation(f: int, a: Self::V, b: Self::V) -> Self::V;

    /// Interpolates from `a` to `b`: progress `0` yields `a`, progress
    /// [`FACTOR_ONE`] yields `b`.
    fn interpolation(f: i64, a: &Self, b: &Self) -> (r: Self)
        requires
            0 <= f <= FACTOR_ONE,
        ensures
            r@ == Self::spec_interpolation(f as int, a@, b@),
    ;

    /// Interpolates from `self` to `b`.
    fn interpol(&self, f: i64, b: &Self) -> (r: Self)
        requires
            0 <= f <= FACTOR_ONE,
        ensures
            r@ == Self::spec_interpolation(f as int, self@, b@),
    ;
}

impl Interpolate for Value {
    open spec fn spec_interpolation(f: int, a: ValueView, b: ValueView) -> ValueView {
        spec_value_lerp(f, a, b)
    }

    fn interpolation(f: i64, a: &Value, b: &Value) -> (r: Value) {
        match (a, b) {
            (Value::Int(x), Value::Int(y)) => Value::Int(lerp_i32(*x, *y, f)),
            (Value::Float(x), Value::Float(y)) => Value::Float(FloatMicro(lerp_i64(x.0, y.0, f))),
            (Value::Long(x), Value::Long(y)) => Value::Long(lerp_i64(*x, *y, f)),
            (Value::Double(x), Value::Double(y)) => Value::Double(
                DoubleMicro(lerp_i64(x.0, y.0, f)),
            ),
            _ => Value::Nil,
        }
    }

    fn interpol(&self, f: i64, b: &Value) -> (r: Value) {
        Self::interpolation(f, self, b)
    }
}

/// Pairwise interpolation of two value sequences, truncated to the shorter
/// one, as the fade engine applies it to one parameter's values.
pub open spec fn spec_lerp_values(a: Seq<ValueView>, b: Seq<ValueView>, f: int) -> Seq<ValueView> {
    let n = if a.len() <= b.len() {
        a.len()
    } else {
        b.len()
    };
    Seq::new(n, |i: int| spec_value_lerp(f, a[i], b[i]))
}

/// Pairwise interpolation of two value vectors at progress `f`.
pub fn lerp_value_vecs(a: &Vec<Value>, b: &Vec<Value>, f: i64) -> (r: Vec<Value>)
    requires
        0 <= f <= FACTOR_ONE,
    ensures
        values_view(r@) == spec_lerp_values(values_view(a@), values_view(b@), f as int),
{
    let n: usize = if a.len() <= b.len() {
        a.len()
    } else {
        b.len()
    };
    let mut r: Vec<Value> = Vec::new();
    let mut k: usize = 0;
    while k < n
        invariant
            0 <= f <= FACTOR_ONE,
            k <= n,
            n <= a@.len() && n <= b@.len(),
            n == spec_lerp_values(values_view(a@), values_view(b@), f as int).len(),
            r@.len() == k,
            forall|i: int| 0 <= i < k ==> r@[i]@ == spec_value_lerp(f as int, a@[i]@, b@[i]@),
        decreases n - k,
    {
        r.push(Value::interpolation(f, &a[k], &b[k]));
        k = k + 1;
    }
    proof {
        assert(values_view(r@) =~= spec_lerp_values(values_view(a@), values_view(b@), f as int));
    }
    r
}

} // verus!
