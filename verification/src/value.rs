//! The closed set of control-value kinds that parameters can hold.
//!
//! Fractional kinds (`Float`, `Double`) are held in fixed-point micro-units:
//! one unit of the control scale is `MICRO` steps, so `1.5` is stored as
//! `1_500_000`.  The host converts at the transport boundary.
use vstd::prelude::*;

verus! {

/// Number of fixed-point steps that make one unit of a fractional value.
pub const MICRO: i64 = 1_000_000;

/// An RGBA color payload, one byte per channel.
#[derive(Clone, Copy, Debug, PartialEq, Eq, Structural)]
pub struct OscColorDef {
    pub red: u8,
    pub green: u8,
    pub blue: u8,
    pub alpha: u8,
}

/// A raw MIDI event payload: port, status byte and two data bytes.
#[derive(Clone, Copy, Debug, PartialEq, Eq, Structural)]
pub struct OscMidiMessageDef {
    pub port: u8,
    pub status: u8,
    pub data1: u8,
    pub data2: u8,
}

/// A fractional control value in fixed-point micro-units (`Value::Float`).
#[derive(Clone, Copy, Debug, PartialEq, Eq, Structural)]
pub struct FloatMicro(pub i64);

/// A wide fractional control value in fixed-point micro-units (`Value::Double`).
#[derive(Clone, Copy, Debug, PartialEq, Eq, Structural)]
pub struct DoubleMicro(pub i64);

impl View for OscColorDef {
    type V = OscColorDef;

    open spec fn view(&self) -> OscColorDef {
        *self
    }
}

impl View for OscMidiMessageDef {
    type V = OscMidiMessageDef;

    open spec fn view(&self) -> OscMidiMessageDef {
        *self
    }
}

impl View for FloatMicro {
    type V = FloatMicro;

    open spec fn view(&self) -> FloatMicro {
        *self
    }
}

impl View for DoubleMicro {
    type V = DoubleMicro;

    open spec fn view(&self) -> DoubleMicro {
        *self
    }
}

/// A tagged control value, the unit that parameters store and control
/// messages carry.
#[derive(Clone, Debug)]
pub enum Value {
    Int(i32),
    Float(FloatMicro),
    Text(String),
    Blob(Vec<u8>),
    Time(u32, u32),
    Long(i64),
    Double(DoubleMicro),
    Char(char),
    Color(OscColorDef),
    Midi(OscMidiMessageDef),
    Bool(bool),
    Nil,
    Inf,
}

/// The mathematical shape of a `Value`: strings and blobs become sequences,
/// numeric payloads stay as bounded integers.
pub ghost enum ValueView {
    Int(i32),
    Float(i64),
    Text(Seq<char>),
    Blob(Seq<u8>),
    Time(u32, u32),
    Long(i64),
    Double(i64),
    Char(char),
    Color(OscColorDef),
    Midi(OscMidiMessageDef),
    Bool(bool),
    Nil,
    Inf,
}

impl View for Value {
    type V = ValueView;

    open spec fn view(&self) -> ValueView {
        match self {
            Value::Int(i) => ValueView::Int(*i),
            Value::Float(f) => ValueView::Float(f.0),
            Value::Text(s) => ValueView::Text(s@),
            Value::Blob(b) => ValueView::Blob(b@),
            Value::Time(s, f) => ValueView::Time(*s, *f),
            Value::Long(l) => ValueView::Long(*l),
            Value::Double(d) => ValueView::Double(d.0),
            Value::Char(c) => ValueView::Char(*c),
            Value::Color(c) => ValueView::Color(*c),
            Value::Midi(m) => ValueView::Midi(*m),
            Value::Bool(b) => ValueView::Bool(*b),
            Value::Nil => ValueView::Nil,
            Value::Inf => ValueView::Inf,
        }
    }
}

impl Value {
    /// A structural copy of the value; unlike the derived `Clone`, its
    /// contract states that the view is preserved.
    pub fn duplicate(&self) -> (r: Value)
        ensures
            r@ == self@,
    {
        match self {
            Value::Int(i) => Value::Int(*i),
            Value::Float(f) => Value::Float(*f),
            Value::Text(s) => Value::Text(s.clone()),
            Value::Blob(b) => Value::Blob(vstd::slice::slice_to_vec(b.as_slice())),
            Value::Time(s, f) => Value::Time(*s, *f),
            Value::Long(l) => Value::Long(*l),
            Value::Double(d) => Value::Double(*d),
            Value::Char(c) => Value::Char(*c),
            Value::Color(c) => Value::Color(*c),
            Value::Midi(m) => Value::Midi(*m),
            Value::Bool(b) => Value::Bool(*b),
            Value::Nil => Value::Nil,
            Value::Inf => Value::Inf,
        }
    }
}

} // verus!
