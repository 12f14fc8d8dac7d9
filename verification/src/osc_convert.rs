//! Typed conversion between plain control types and the tagged [`Value`].
use vstd::prelude::*;
use crate::value::{DoubleMicro, FloatMicro, OscColorDef, OscMidiMessageDef, Value, ValueView};

verus! {

/// Conversion between a typed control value and the tagged [`Value`] kind
/// that carries it.  Each implementing type owns exactly one variant:
/// `from_osc` succeeds precisely on that variant and inverts `into_osc`.
pub trait FromOscType: View + Sized {
    /// Which typed value, if any, the tagged value `t` carries.
    spec fn spec_from_osc(t: ValueView) -> Option<Self::V>;

    /// The tagged value that carries the typed value `v`.
    spec fn spec_into_osc(v: Self::V) -> ValueView;

    fn from_osc(t: &Value) -> (r: Option<Self>)
        ensures
            match r {
                Some(v) => Self::spec_from_osc(t@) == Some(v@),
                None => Self::spec_from_osc(t@) is None,
            },
    ;

    fn into_osc(self) -> (r: Value)
        ensures
            r@ == Self::spec_into_osc(self@),
    ;

    /// The fallback value used when a read cannot be served.
    spec fn spec_default() -> Self::V;

    fn default_value() -> (r: Self)
        ensures
            r@ == Self::spec_default(),
    ;

    /// A copy of the typed value; unlike a generic `Clone`, its contract
    /// states that the view is preserved.
    fn dup(&self) -> (r: Self)
        ensures
            r@ == self@,
    ;

    /// Round trip: converting a typed value into a tagged one and back
    /// yields the same typed value.
    proof fn lemma_osc_round_trip(v: Self::V)
        ensures
            Self::spec_from_osc(Self::spec_into_osc(v)) == Some(v),
    ;
}

impl FromOscType for i32 {
    open spec fn spec_from_osc(t: ValueView) -> Option<i32> {
        match t {
            ValueView::Int(i) => Some(i),
            _ => None,
        }
    }

    open spec fn spec_into_osc(v: i32) -> ValueView {
        ValueView::Int(v)
    }

    fn from_osc(t: &Value) -> (r: Option<i32>) {
        match t {
            Value::Int(i) => Some(*i),
            _ => None,
        }
    }

    fn into_osc(self) -> (r: Value) {
        Value::Int(self)
    }

    open spec fn spec_default() -> i32 {
        0
    }

    fn default_value() -> (r: i32) {
        0
    }

    fn dup(&self) -> (r: i32) {
        *self
    }

    proof fn lemma_osc_round_trip(v: i32) {
    }
}

impl FromOscType for FloatMicro {
    open spec fn spec_from_osc(t: ValueView) -> Option<FloatMicro> {
        match t {
            ValueView::Float(f) => Some(FloatMicro(f)),
            _ => None,
        }
    }

    open spec fn spec_into_osc(v: FloatMicro) -> ValueView {
        ValueView::Float(v.0)
    }

    fn from_osc(t: &Value) -> (r: Option<FloatMicro>) {
        match t {
            Value::Float(f) => Some(*f),
            _ => None,
        }
    }

    fn into_osc(self) -> (r: Value) {
        Value::Float(self)
    }

    open spec fn spec_default() -> FloatMicro {
        FloatMicro(0)
    }

    fn default_value() -> (r: FloatMicro) {
        FloatMicro(0)
    }

    fn dup(&self) -> (r: FloatMicro) {
        *self
    }

    proof fn lemma_osc_round_trip(v: FloatMicro) {
    }
}

impl FromOscType for String {
    open spec fn spec_from_osc(t: ValueView) -> Option<Seq<char>> {
        match t {
            ValueView::Text(s) => Some(s),
            _ => None,
        }
    }

    open spec fn spec_into_osc(v: Seq<char>) -> ValueView {
        ValueView::Text(v)
    }

    fn from_osc(t: &Value) -> (r: Option<String>) {
        match t {
            Value::Text(s) => Some(s.clone()),
            _ => None,
        }
    }

    fn into_osc(self) -> (r: Value) {
        Value::Text(self)
    }

    open spec fn spec_default() -> Seq<char> {
        Seq::<char>::empty()
    }

    fn default_value() -> (r: String) {
        String::new()
    }

    fn dup(&self) -> (r: String) {
        self.clone()
    }

    proof fn lemma_osc_round_trip(v: Seq<char>) {
    }
}

impl FromOscType for Vec<u8> {
    open spec fn spec_from_osc(t: ValueView) -> Option<Seq<u8>> {
        match t {
            ValueView::Blob(b) => Some(b),
            _ => None,
        }
    }

    open spec fn spec_into_osc(v: Seq<u8>) -> ValueView {
        ValueView::Blob(v)
    }

    fn from_osc(t: &Value) -> (r: Option<Vec<u8>>) {
        match t {
            Value::Blob(b) => Some(vstd::slice::slice_to_vec(b.as_slice())),
            _ => None,
        }
    }

    fn into_osc(self) -> (r: Value) {
        Value::Blob(self)
    }

    open spec fn spec_default() -> Seq<u8> {
        Seq::<u8>::empty()
    }

    fn default_value() -> (r: Vec<u8>) {
        Vec::new()
    }

    fn dup(&self) -> (r: Vec<u8>) {
        vstd::slice::slice_to_vec(self.as_slice())
    }

    proof fn lemma_osc_round_trip(v: Seq<u8>) {
    }
}

impl FromOscType for i64 {
    open spec fn spec_from_osc(t: ValueView) -> Option<i64> {
        match t {
            ValueView::Long(l) => Some(l),
            _ => None,
        }
    }

    open spec fn spec_into_osc(v: i64) -> ValueView {
        ValueView::Long(v)
    }

    fn from_osc(t: &Value) -> (r: Option<i64>) {
        match t {
            Value::Long(l) => Some(*l),
            _ => None,
        }
    }

    fn into_osc(self) -> (r: Value) {
        Value::Long(self)
    }

    open spec fn spec_default() -> i64 {
        0
    }

    fn default_value() -> (r: i64) {
        0
    }

    fn dup(&self) -> (r: i64) {
        *self
    }

    proof fn lemma_osc_round_trip(v: i64) {
    }
}

impl FromOscType for DoubleMicro {
    open spec fn spec_from_osc(t: ValueView) -> Option<DoubleMicro> {
        match t {
            ValueView::Double(d) => Some(DoubleMicro(d)),
            _ => None,
        }
    }

    open spec fn spec_into_osc(v: DoubleMicro) -> ValueView {
        ValueView::Double(v.0)
    }

    fn from_osc(t: &Value) -> (r: Option<DoubleMicro>) {
        match t {
            Value::Double(d) => Some(*d),
            _ => None,
        }
    }

    fn into_osc(self) -> (r: Value) {
        Value::Double(self)
    }

    open spec fn spec_default() -> DoubleMicro {
        DoubleMicro(0)
    }

    fn default_value() -> (r: DoubleMicro) {
        DoubleMicro(0)
    }

    fn dup(&self) -> (r: DoubleMicro) {
        *self
    }

    proof fn lemma_osc_round_trip(v: DoubleMicro) {
    }
}

impl FromOscType for char {
    open spec fn spec_from_osc(t: ValueView) -> Option<char> {
        match t {
            ValueView::Char(c) => Some(c),
            _ => None,
        }
    }

    open spec fn spec_into_osc(v: char) -> ValueView {
        ValueView::Char(v)
    }

    fn from_osc(t: &Value) -> (r: Option<char>) {
        match t {
            Value::Char(c) => Some(*c),
            _ => None,
        }
    }

    fn into_osc(self) -> (r: Value) {
        Value::Char(self)
    }

    open spec fn spec_default() -> char {
        '\0'
    }

    fn default_value() -> (r: char) {
        '\0'
    }

    fn dup(&self) -> (r: char) {
        *self
    }

    proof fn lemma_osc_round_trip(v: char) {
    }
}

impl FromOscType for bool {
    open spec fn spec_from_osc(t: ValueView) -> Option<bool> {
        match t {
            ValueView::Bool(b) => Some(b),
            _ => None,
        }
    }

    open spec fn spec_into_osc(v: bool) -> ValueView {
        ValueView::Bool(v)
    }

    fn from_osc(t: &Value) -> (r: Option<bool>) {
        match t {
            Value::Bool(b) => Some(*b),
            _ => None,
        }
    }

    fn into_osc(self) -> (r: Value) {
        Value::Bool(self)
    }

    open spec fn spec_default() -> bool {
        false
    }

    fn default_value() -> (r: bool) {
        false
    }

    fn dup(&self) -> (r: bool) {
        *self
    }

    proof fn lemma_osc_round_trip(v: bool) {
    }
}

impl FromOscType for OscColorDef {
    open spec fn spec_from_osc(t: ValueView) -> Option<OscColorDef> {
        match t {
            ValueView::Color(c) => Some(c),
            _ => None,
        }
    }

    open spec fn spec_into_osc(v: OscColorDef) -> ValueView {
        ValueView::Color(v)
    }

    fn from_osc(t: &Value) -> (r: Option<OscColorDef>) {
        match t {
            Value::Color(c) => Some(*c),
            _ => None,
        }
    }

    fn into_osc(self) -> (r: Value) {
        Value::Color(self)
    }

    open spec fn spec_default() -> OscColorDef {
        (OscColorDef { red: 0, green: 0, blue: 0, alpha: 0 })
    }

    fn default_value() -> (r: OscColorDef) {
        OscColorDef { red: 0, green: 0, blue: 0, alpha: 0 }
    }

    fn dup(&self) -> (r: OscColorDef) {
        *self
    }

    proof fn lemma_osc_round_trip(v: OscColorDef) {
    }
}

impl FromOscType for OscMidiMessageDef {
    open spec fn spec_from_osc(t: ValueView) -> Option<OscMidiMessageDef> {
        match t {
            ValueView::Midi(m) => Some(m),
            _ => None,
        }
    }

    open spec fn spec_into_osc(v: OscMidiMessageDef) -> ValueView {
        ValueView::Midi(v)
    }

    fn from_osc(t: &Value) -> (r: Option<OscMidiMessageDef>) {
        match t {
            Value::Midi(m) => Some(*m),
            _ => None,
        }
    }

    fn into_osc(self) -> (r: Value) {
        Value::Midi(self)
    }

    open spec fn spec_default() -> OscMidiMessageDef {
        (OscMidiMessageDef { port: 0, status: 0, data1: 0, data2: 0 })
    }

    fn default_value() -> (r: OscMidiMessageDef) {
        OscMidiMessageDef { port: 0, status: 0, data1: 0, data2: 0 }
    }

    fn dup(&self) -> (r: OscMidiMessageDef) {
        *self
    }

    proof fn lemma_osc_round_trip(v: OscMidiMessageDef) {
    }
}

} // verus!
