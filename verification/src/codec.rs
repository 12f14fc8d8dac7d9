//! The persistence format of the program bank: a compact binary encoding
//! with a proved round trip.
//!
//! The format is a flat sequence of little-endian 64-bit words plus raw
//! byte runs for blobs: every count, tag, id and numeric payload is one
//! word; text is a count followed by one word per character.  [`dec_table`]
//! is the exact inverse of [`enc_table`] on every encodable table, which is
//! what makes storing and loading a program bank lossless.
use vstd::prelude::*;
use vstd::bytes::*;
use vstd::slice::{slice_subrange, slice_to_vec};
use crate::parameter::{params_view, values_view, ParamView, Parameter};
use crate::program::{
    easing_to_id, spec_easing_from_id, spec_easing_to_id, table_keys_unique, Pid, Program,
    ProgramView,
};
use crate::value::{Value, ValueView};

verus! {

/// One encoded 64-bit word, little-endian.
pub open spec fn enc_u64(x: u64) -> Seq<u8> {
    spec_u64_to_le_bytes(x)
}

/// Reads one 64-bit word off the front.
pub open spec fn dec_u64(b: Seq<u8>) -> Option<(u64, Seq<u8>)> {
    if b.len() >= 8 {
        Some((spec_u64_from_le_bytes(b.take(8)), b.skip(8)))
    } else {
        None
    }
}

pub proof fn lemma_dec_u64(x: u64, rest: Seq<u8>)
    ensures
        enc_u64(x).len() == 8,
        dec_u64(enc_u64(x) + rest) == Some((x, rest)),
{
    lemma_auto_spec_u64_to_from_le_bytes();
    assert((enc_u64(x) + rest).take(8) =~= enc_u64(x));
    assert((enc_u64(x) + rest).skip(8) =~= rest);
}

/// The characters of a text, one word each.
pub open spec fn enc_chars(s: Seq<char>) -> Seq<u8>
    decreases s.len(),
{
    if s.len() == 0 {
        Seq::empty()
    } else {
        enc_u64((s[0] as u32) as u64) + enc_chars(s.skip(1))
    }
}

/// Whether a word holds a unicode scalar value.
pub open spec fn valid_char_word(w: u64) -> bool {
    w < 0xD800 || (0xE000 <= w && w <= 0x10FFFF)
}

/// Reads `n` characters off the front, one word each.
pub open spec fn dec_chars(b: Seq<u8>, n: nat) -> Option<(Seq<char>, Seq<u8>)>
    decreases n,
{
    if n == 0 {
        Some((Seq::empty(), b))
    } else {
        match dec_u64(b) {
            Some((w, r)) => if valid_char_word(w) {
                match dec_chars(r, (n - 1) as nat) {
                    Some((s, r2)) => Some((seq![(w as u32) as char] + s, r2)),
                    None => None,
                }
            } else {
                None
            },
            None => None,
        }
    }
}

/// Casting a character's scalar value back to a character is the identity.
pub proof fn lemma_char_cast(c: char)
    ensures
        ((c as u32) as char) == c,
{
}

/// Every character's scalar value is a valid, invertible word.
pub proof fn lemma_char_word(c: char)
    ensures
        valid_char_word((c as u32) as u64),
        ((((c as u32) as u64) as u32) as char) == c,
{
}

pub proof fn lemma_dec_chars(s: Seq<char>, rest: Seq<u8>)
    ensures
        dec_chars(enc_chars(s) + rest, s.len()) == Some((s, rest)),
    decreases s.len(),
{
    if s.len() == 0 {
        assert(enc_chars(s) + rest =~= rest);
    } else {
        let c = s[0];
        let w = (c as u32) as u64;
        let tail = s.skip(1);
        lemma_char_word(c);
        assert(enc_chars(s) + rest =~= enc_u64(w) + (enc_chars(tail) + rest));
        lemma_dec_u64(w, enc_chars(tail) + rest);
        lemma_dec_chars(tail, rest);
        assert(seq![c] + tail =~= s);
    }
}

/// Reads `n` raw bytes off the front.
pub open spec fn dec_bytes(b: Seq<u8>, n: nat) -> Option<(Seq<u8>, Seq<u8>)> {
    if b.len() >= n {
        Some((b.take(n as int), b.skip(n as int)))
    } else {
        None
    }
}

pub proof fn lemma_dec_bytes(blob: Seq<u8>, rest: Seq<u8>)
    ensures
        dec_bytes(blob + rest, blob.len()) == Some((blob, rest)),
{
    assert((blob + rest).take(blob.len() as int) =~= blob);
    assert((blob + rest).skip(blob.len() as int) =~= rest);
}

/// The word cap on every count in the format.
pub open spec fn fits_u64(n: nat) -> bool {
    n < 0x1_0000_0000_0000_0000
}

/// Whether a value's variable-sized payload fits the format's counts.
pub open spec fn value_bounded(v: ValueView) -> bool {
    match v {
        ValueView::Text(s) => fits_u64(s.len()),
        ValueView::Blob(b) => fits_u64(b.len()),
        _ => true,
    }
}

/// One encoded value: a tag word, then the payload.
pub open spec fn enc_value(v: ValueView) -> Seq<u8> {
    match v {
        ValueView::Int(i) => enc_u64(0) + enc_u64(i as u64),
        ValueView::Float(f) => enc_u64(1) + enc_u64(f as u64),
        ValueView::Text(s) => enc_u64(2) + enc_u64(s.len() as u64) + enc_chars(s),
        ValueView::Blob(b) => enc_u64(3) + enc_u64(b.len() as u64) + b,
        ValueView::Time(a, b) => enc_u64(4) + enc_u64(a as u64) + enc_u64(b as u64),
        ValueView::Long(l) => enc_u64(5) + enc_u64(l as u64),
        ValueView::Double(d) => enc_u64(6) + enc_u64(d as u64),
        ValueView::Char(c) => enc_u64(7) + enc_u64((c as u32) as u64),
        ValueView::Color(c) => enc_u64(8) + enc_u64(c.red as u64) + enc_u64(c.green as u64)
            + enc_u64(c.blue as u64) + enc_u64(c.alpha as u64),
        ValueView::Midi(m) => enc_u64(9) + enc_u64(m.port as u64) + enc_u64(m.status as u64)
            + enc_u64(m.data1 as u64) + enc_u64(m.data2 as u64),
        ValueView::Bool(x) => enc_u64(10) + enc_u64(
            if x {
                1
            } else {
                0
            },
        ),
        ValueView::Nil => enc_u64(11),
        ValueView::Inf => enc_u64(12),
    }
}

/// Reads one value off the front.
pub open spec fn dec_value(b: Seq<u8>) -> Option<(ValueView, Seq<u8>)> {
    match dec_u64(b) {
        Some((tag, r)) => if tag == 0 {
            match dec_u64(r) {
                Some((w, r2)) => Some((ValueView::Int(w as i32), r2)),
                None => None,
            }
        } else if tag == 1 {
            match dec_u64(r) {
                Some((w, r2)) => Some((ValueView::Float(w as i64), r2)),
                None => None,
            }
        } else if tag == 2 {
            match dec_u64(r) {
                Some((n, r2)) => match dec_chars(r2, n as nat) {
                    Some((s, r3)) => Some((ValueView::Text(s), r3)),
                    None => None,
                },
                None => None,
            }
        } else if tag == 3 {
            match dec_u64(r) {
                Some((n, r2)) => match dec_bytes(r2, n as nat) {
                    Some((bb, r3)) => Some((ValueView::Blob(bb), r3)),
                    None => None,
                },
                None => None,
            }
        } else if tag == 4 {
            match dec_u64(r) {
                Some((a, r2)) => match dec_u64(r2) {
                    Some((bb, r3)) => Some((ValueView::Time(a as u32, bb as u32), r3)),
                    None => None,
                },
                None => None,
            }
        } else if tag == 5 {
            match dec_u64(r) {
                Some((w, r2)) => Some((ValueView::Long(w as i64), r2)),
                None => None,
            }
        } else if tag == 6 {
            match dec_u64(r) {
                Some((w, r2)) => Some((ValueView::Double(w as i64), r2)),
                None => None,
            }
        } else if tag == 7 {
            match dec_u64(r) {
                Some((w, r2)) => if valid_char_word(w) {
                    Some((ValueView::Char((w as u32) as char), r2))
                } else {
                    None
                },
                None => None,
            }
        } else if tag == 8 {
            match dec_u64(r) {
                Some((red, r2)) => match dec_u64(r2) {
                    Some((green, r3)) => match dec_u64(r3) {
                        Some((blue, r4)) => match dec_u64(r4) {
                            Some((alpha, r5)) => Some(
                                (
                                    ValueView::Color(
                                        crate::value::OscColorDef {
                                            red: red as u8,
                                            green: green as u8,
                                            blue: blue as u8,
                                            alpha: alpha as u8,
                                        },
                                    ),
                                    r5,
                                ),
                            ),
                            None => None,
                        },
                        None => None,
                    },
                    None => None,
                },
                None => None,
            }
        } else if tag == 9 {
            match dec_u64(r) {
                Some((port, r2)) => match dec_u64(r2) {
                    Some((status, r3)) => match dec_u64(r3) {
                        Some((data1, r4)) => match dec_u64(r4) {
                            Some((data2, r5)) => Some(
                                (
                                    ValueView::Midi(
                                        crate::value::OscMidiMessageDef {
                                            port: port as u8,
                                            status: status as u8,
                                            data1: data1 as u8,
                                            data2: data2 as u8,
                                        },
                                    ),
                                    r5,
                                ),
                            ),
                            None => None,
                        },
                        None => None,
                    },
                    None => None,
                },
                None => None,
            }
        } else if tag == 10 {
            match dec_u64(r) {
                Some((w, r2)) => if w == 0 {
                    Some((ValueView::Bool(false), r2))
                } else if w == 1 {
                    Some((ValueView::Bool(true), r2))
                } else {
                    None
                },
                None => None,
            }
        } else if tag == 11 {
            Some((ValueView::Nil, r))
        } else if tag == 12 {
            Some((ValueView::Inf, r))
        } else {
            None
        },
        None => None,
    }
}

pub proof fn lemma_cast_i32(x: i32)
    ensures
        ((x as u64) as i32) == x,
{
    assert(((x as u64) as i32) == x) by (bit_vector);
}

pub proof fn lemma_cast_i64(x: i64)
    ensures
        ((x as u64) as i64) == x,
{
    assert(((x as u64) as i64) == x) by (bit_vector);
}

pub proof fn lemma_dec_value(v: ValueView, rest: Seq<u8>)
    requires
        value_bounded(v),
    ensures
        dec_value(enc_value(v) + rest) == Some((v, rest)),
{
    match v {
        ValueView::Int(i) => {
            assert(enc_value(v) + rest =~= enc_u64(0) + (enc_u64(i as u64) + rest));
            lemma_dec_u64(0, enc_u64(i as u64) + rest);
            lemma_dec_u64(i as u64, rest);
            lemma_cast_i32(i);
        },
        ValueView::Float(f) => {
            assert(enc_value(v) + rest =~= enc_u64(1) + (enc_u64(f as u64) + rest));
            lemma_dec_u64(1, enc_u64(f as u64) + rest);
            lemma_dec_u64(f as u64, rest);
            lemma_cast_i64(f);
        },
        ValueView::Text(s) => {
            assert(enc_value(v) + rest =~= enc_u64(2) + (enc_u64(s.len() as u64) + (enc_chars(s)
                + rest)));
            lemma_dec_u64(2, enc_u64(s.len() as u64) + (enc_chars(s) + rest));
            lemma_dec_u64(s.len() as u64, enc_chars(s) + rest);
            lemma_dec_chars(s, rest);
            assert((s.len() as u64) as nat == s.len());
        },
        ValueView::Blob(bb) => {
            assert(enc_value(v) + rest =~= enc_u64(3) + (enc_u64(bb.len() as u64) + (bb + rest)));
            lemma_dec_u64(3, enc_u64(bb.len() as u64) + (bb + rest));
            lemma_dec_u64(bb.len() as u64, bb + rest);
            lemma_dec_bytes(bb, rest);
            assert((bb.len() as u64) as nat == bb.len());
        },
        ValueView::Time(a, b) => {
            assert(enc_value(v) + rest =~= enc_u64(4) + (enc_u64(a as u64) + (enc_u64(b as u64)
                + rest)));
            lemma_dec_u64(4, enc_u64(a as u64) + (enc_u64(b as u64) + rest));
            lemma_dec_u64(a as u64, enc_u64(b as u64) + rest);
            lemma_dec_u64(b as u64, rest);
        },
        ValueView::Long(l) => {
            assert(enc_value(v) + rest =~= enc_u64(5) + (enc_u64(l as u64) + rest));
            lemma_dec_u64(5, enc_u64(l as u64) + rest);
            lemma_dec_u64(l as u64, rest);
            lemma_cast_i64(l);
        },
        ValueView::Double(d) => {
            assert(enc_value(v) + rest =~= enc_u64(6) + (enc_u64(d as u64) + rest));
            lemma_dec_u64(6, enc_u64(d as u64) + rest);
            lemma_dec_u64(d as u64, rest);
            lemma_cast_i64(d);
        },
        ValueView::Char(c) => {
            let w = (c as u32) as u64;
            assert(enc_value(v) + rest =~= enc_u64(7) + (enc_u64(w) + rest));
            lemma_dec_u64(7, enc_u64(w) + rest);
            lemma_dec_u64(w, rest);
            lemma_char_word(c);
        },
        ValueView::Color(c) => {
            assert(enc_value(v) + rest =~= enc_u64(8) + (enc_u64(c.red as u64) + (enc_u64(
                c.green as u64,
            ) + (enc_u64(c.blue as u64) + (enc_u64(c.alpha as u64) + rest)))));
            lemma_dec_u64(
                8,
                enc_u64(c.red as u64) + (enc_u64(c.green as u64) + (enc_u64(c.blue as u64)
                    + (enc_u64(c.alpha as u64) + rest))),
            );
            lemma_dec_u64(
                c.red as u64,
                enc_u64(c.green as u64) + (enc_u64(c.blue as u64) + (enc_u64(c.alpha as u64)
                    + rest)),
            );
            lemma_dec_u64(
                c.green as u64,
                enc_u64(c.blue as u64) + (enc_u64(c.alpha as u64) + rest),
            );
            lemma_dec_u64(c.blue as u64, enc_u64(c.alpha as u64) + rest);
            lemma_dec_u64(c.alpha as u64, rest);
        },
        ValueView::Midi(m) => {
            assert(enc_value(v) + rest =~= enc_u64(9) + (enc_u64(m.port as u64) + (enc_u64(
                m.status as u64,
            ) + (enc_u64(m.data1 as u64) + (enc_u64(m.data2 as u64) + rest)))));
            lemma_dec_u64(
                9,
                enc_u64(m.port as u64) + (enc_u64(m.status as u64) + (enc_u64(m.data1 as u64)
                    + (enc_u64(m.data2 as u64) + rest))),
            );
            lemma_dec_u64(
                m.port as u64,
                enc_u64(m.status as u64) + (enc_u64(m.data1 as u64) + (enc_u64(m.data2 as u64)
                    + rest)),
            );
            lemma_dec_u64(
                m.status as u64,
                enc_u64(m.data1 as u64) + (enc_u64(m.data2 as u64) + rest),
            );
            lemma_dec_u64(m.data1 as u64, enc_u64(m.data2 as u64) + rest);
            lemma_dec_u64(m.data2 as u64, rest);
        },
        ValueView::Bool(x) => {
            let w: u64 = if x {
                1
            } else {
                0
            };
            assert(enc_value(v) + rest =~= enc_u64(10) + (enc_u64(w) + rest));
            lemma_dec_u64(10, enc_u64(w) + rest);
            lemma_dec_u64(w, rest);
        },
        ValueView::Nil => {
            assert(enc_value(v) + rest =~= enc_u64(11) + rest);
            lemma_dec_u64(11, rest);
        },
        ValueView::Inf => {
            assert(enc_value(v) + rest =~= enc_u64(12) + rest);
            lemma_dec_u64(12, rest);
        },
    }
}

/// Whether every value of a sequence fits the format.
pub open spec fn values_bounded(vs: Seq<ValueView>) -> bool {
    &&& fits_u64(vs.len())
    &&& forall|i: int| 0 <= i < vs.len() ==> value_bounded(#[trigger] vs[i])
}

/// The values of one parameter, back to back.
pub open spec fn enc_value_seq(vs: Seq<ValueView>) -> Seq<u8>
    decreases vs.len(),
{
    if vs.len() == 0 {
        Seq::empty()
    } else {
        enc_value(vs[0]) + enc_value_seq(vs.skip(1))
    }
}

/// Reads `n` values off the front.
pub open spec fn dec_value_seq(b: Seq<u8>, n: nat) -> Option<(Seq<ValueView>, Seq<u8>)>
    decreases n,
{
    if n == 0 {
        Some((Seq::empty(), b))
    } else {
        match dec_value(b) {
            Some((v, r)) => match dec_value_seq(r, (n - 1) as nat) {
                Some((vs, r2)) => Some((seq![v] + vs, r2)),
                None => None,
            },
            None => None,
        }
    }
}

pub proof fn lemma_dec_value_seq(vs: Seq<ValueView>, rest: Seq<u8>)
    requires
        forall|i: int| 0 <= i < vs.len() ==> value_bounded(#[trigger] vs[i]),
    ensures
        dec_value_seq(enc_value_seq(vs) + rest, vs.len()) == Some((vs, rest)),
    decreases vs.len(),
{
    if vs.len() == 0 {
        assert(enc_value_seq(vs) + rest =~= rest);
    } else {
        let v = vs[0];
        let tail = vs.skip(1);
        assert(enc_value_seq(vs) + rest =~= enc_value(v) + (enc_value_seq(tail) + rest));
        lemma_dec_value(v, enc_value_seq(tail) + rest);
        lemma_dec_value_seq(tail, rest);
        assert(seq![v] + tail =~= vs);
    }
}

/// Whether a parameter fits the format.
pub open spec fn param_bounded(p: ParamView) -> bool {
    &&& fits_u64(p.addr.len())
    &&& values_bounded(p.values)
}

/// One encoded parameter: its address, then its values, count-prefixed.
pub open spec fn enc_param(p: ParamView) -> Seq<u8> {
    enc_u64(p.addr.len() as u64) + enc_chars(p.addr) + enc_u64(p.values.len() as u64)
        + enc_value_seq(p.values)
}

/// Reads one parameter off the front.
pub open spec fn dec_param(b: Seq<u8>) -> Option<(ParamView, Seq<u8>)> {
    match dec_u64(b) {
        Some((n, r)) => match dec_chars(r, n as nat) {
            Some((addr, r2)) => match dec_u64(r2) {
                Some((m, r3)) => match dec_value_seq(r3, m as nat) {
                    Some((vals, r4)) => Some((ParamView { addr, values: vals }, r4)),
                    None => None,
                },
                None => None,
            },
            None => None,
        },
        None => None,
    }
}

pub proof fn lemma_dec_param(p: ParamView, rest: Seq<u8>)
    requires
        param_bounded(p),
    ensures
        dec_param(enc_param(p) + rest) == Some((p, rest)),
{
    assert(enc_param(p) + rest =~= enc_u64(p.addr.len() as u64) + (enc_chars(p.addr) + (enc_u64(
        p.values.len() as u64,
    ) + (enc_value_seq(p.values) + rest))));
    lemma_dec_u64(
        p.addr.len() as u64,
        enc_chars(p.addr) + (enc_u64(p.values.len() as u64) + (enc_value_seq(p.values) + rest)),
    );
    lemma_dec_chars(p.addr, enc_u64(p.values.len() as u64) + (enc_value_seq(p.values) + rest));
    lemma_dec_u64(p.values.len() as u64, enc_value_seq(p.values) + rest);
    lemma_dec_value_seq(p.values, rest);
    assert((p.addr.len() as u64) as nat == p.addr.len());
    assert((p.values.len() as u64) as nat == p.values.len());
}

/// Whether a snapshot fits the format.
pub open spec fn params_bounded(ps: Seq<ParamView>) -> bool {
    &&& fits_u64(ps.len())
    &&& forall|i: int| 0 <= i < ps.len() ==> param_bounded(#[trigger] ps[i])
}

/// The parameters of one snapshot, back to back.
pub open spec fn enc_params(ps: Seq<ParamView>) -> Seq<u8>
    decreases ps.len(),
{
    if ps.len() == 0 {
        Seq::empty()
    } else {
        enc_param(ps[0]) + enc_params(ps.skip(1))
    }
}

/// Reads `n` parameters off the front.
pub open spec fn dec_params(b: Seq<u8>, n: nat) -> Option<(Seq<ParamView>, Seq<u8>)>
    decreases n,
{
    if n == 0 {
        Some((Seq::empty(), b))
    } else {
        match dec_param(b) {
            Some((p, r)) => match dec_params(r, (n - 1) as nat) {
                Some((ps, r2)) => Some((seq![p] + ps, r2)),
                None => None,
            },
            None => None,
        }
    }
}

pub proof fn lemma_dec_params(ps: Seq<ParamView>, rest: Seq<u8>)
    requires
        forall|i: int| 0 <= i < ps.len() ==> param_bounded(#[trigger] ps[i]),
    ensures
        dec_params(enc_params(ps) + rest, ps.len()) == Some((ps, rest)),
    decreases ps.len(),
{
    if ps.len() == 0 {
        assert(enc_params(ps) + rest =~= rest);
    } else {
        let p = ps[0];
        let tail = ps.skip(1);
        assert(enc_params(ps) + rest =~= enc_param(p) + (enc_params(tail) + rest));
        lemma_dec_param(p, enc_params(tail) + rest);
        lemma_dec_params(tail, rest);
        assert(seq![p] + tail =~= ps);
    }
}

/// Whether a program fits the format.
pub open spec fn program_bounded(p: ProgramView) -> bool {
    params_bounded(p.config)
}

/// An encoded optional program id: a flag word, then the id word if set.
pub open spec fn enc_opt_pid(o: Option<Pid>) -> Seq<u8> {
    match o {
        Some(p) => enc_u64(1) + enc_u64(p as u64),
        None => enc_u64(0),
    }
}

/// Reads an optional program id off the front.
pub open spec fn dec_opt_pid(b: Seq<u8>) -> Option<(Option<Pid>, Seq<u8>)> {
    match dec_u64(b) {
        Some((flag, r)) => if flag == 0 {
            Some((None, r))
        } else if flag == 1 {
            match dec_u64(r) {
                Some((w, r2)) => Some((Some(w as u32), r2)),
                None => None,
            }
        } else {
            None
        },
        None => None,
    }
}

pub proof fn lemma_dec_opt_pid(o: Option<Pid>, rest: Seq<u8>)
    ensures
        dec_opt_pid(enc_opt_pid(o) + rest) == Some((o, rest)),
{
    match o {
        Some(p) => {
            assert(enc_opt_pid(o) + rest =~= enc_u64(1) + (enc_u64(p as u64) + rest));
            lemma_dec_u64(1, enc_u64(p as u64) + rest);
            lemma_dec_u64(p as u64, rest);
        },
        None => {
            assert(enc_opt_pid(o) + rest =~= enc_u64(0) + rest);
            lemma_dec_u64(0, rest);
        },
    }
}

/// One encoded program: delay, easing id, auto-chain id, then the
/// snapshot, count-prefixed.
pub open spec fn enc_program(p: ProgramView) -> Seq<u8> {
    enc_u64(p.delay as u64) + enc_u64(spec_easing_to_id(p.interpol) as u64) + enc_opt_pid(
        p.auto_next,
    ) + enc_u64(p.config.len() as u64) + enc_params(p.config)
}

/// Reads one program off the front.
pub open spec fn dec_program(b: Seq<u8>) -> Option<(ProgramView, Seq<u8>)> {
    match dec_u64(b) {
        Some((delay, r)) => match dec_u64(r) {
            Some((easing, r2)) => if easing > 3 {
                None
            } else {
                match dec_opt_pid(r2) {
                Some((auto, r3)) => match dec_u64(r3) {
                    Some((n, r4)) => match dec_params(r4, n as nat) {
                        Some((config, r5)) => Some(
                            (
                                ProgramView {
                                    delay: delay as i64,
                                    interpol: spec_easing_from_id(easing as int),
                                    auto_next: auto,
                                    config,
                                },
                                r5,
                            ),
                        ),
                        None => None,
                    },
                    None => None,
                },
                None => None,
                }
            },
            None => None,
        },
        None => None,
    }
}

pub proof fn lemma_dec_program(p: ProgramView, rest: Seq<u8>)
    requires
        program_bounded(p),
    ensures
        dec_program(enc_program(p) + rest) == Some((p, rest)),
{
    let eid = spec_easing_to_id(p.interpol) as u64;
    assert(enc_program(p) + rest =~= enc_u64(p.delay as u64) + (enc_u64(eid) + (enc_opt_pid(
        p.auto_next,
    ) + (enc_u64(p.config.len() as u64) + (enc_params(p.config) + rest)))));
    lemma_dec_u64(
        p.delay as u64,
        enc_u64(eid) + (enc_opt_pid(p.auto_next) + (enc_u64(p.config.len() as u64) + (enc_params(
            p.config,
        ) + rest))),
    );
    lemma_dec_u64(
        eid,
        enc_opt_pid(p.auto_next) + (enc_u64(p.config.len() as u64) + (enc_params(p.config)
            + rest)),
    );
    lemma_dec_opt_pid(p.auto_next, enc_u64(p.config.len() as u64) + (enc_params(p.config) + rest));
    lemma_dec_u64(p.config.len() as u64, enc_params(p.config) + rest);
    lemma_dec_params(p.config, rest);
    lemma_cast_i64(p.delay);
    crate::program::lemma_easing_id_round_trip(p.interpol);
    assert((p.config.len() as u64) as nat == p.config.len());
}

/// Whether a program table fits the format.
pub open spec fn table_bounded(t: Seq<(Pid, ProgramView)>) -> bool {
    &&& fits_u64(t.len())
    &&& forall|i: int| 0 <= i < t.len() ==> program_bounded((#[trigger] t[i]).1)
}

/// The entries of the table, back to back: an id word, then the program.
pub open spec fn enc_entries(t: Seq<(Pid, ProgramView)>) -> Seq<u8>
    decreases t.len(),
{
    if t.len() == 0 {
        Seq::empty()
    } else {
        enc_u64(t[0].0 as u64) + enc_program(t[0].1) + enc_entries(t.skip(1))
    }
}

/// Reads `n` table entries off the front.
pub open spec fn dec_entries(b: Seq<u8>, n: nat) -> Option<(Seq<(Pid, ProgramView)>, Seq<u8>)>
    decreases n,
{
    if n == 0 {
        Some((Seq::empty(), b))
    } else {
        match dec_u64(b) {
            Some((w, r)) => match dec_program(r) {
                Some((p, r2)) => match dec_entries(r2, (n - 1) as nat) {
                    Some((t, r3)) => Some((seq![(w as u32, p)] + t, r3)),
                    None => None,
                },
                None => None,
            },
            None => None,
        }
    }
}

pub proof fn lemma_dec_entries(t: Seq<(Pid, ProgramView)>, rest: Seq<u8>)
    requires
        forall|i: int| 0 <= i < t.len() ==> program_bounded((#[trigger] t[i]).1),
    ensures
        dec_entries(enc_entries(t) + rest, t.len()) == Some((t, rest)),
    decreases t.len(),
{
    if t.len() == 0 {
        assert(enc_entries(t) + rest =~= rest);
    } else {
        let e = t[0];
        let tail = t.skip(1);
        assert(enc_entries(t) + rest =~= enc_u64(e.0 as u64) + (enc_program(e.1) + (enc_entries(
            tail,
        ) + rest)));
        lemma_dec_u64(e.0 as u64, enc_program(e.1) + (enc_entries(tail) + rest));
        lemma_dec_program(e.1, enc_entries(tail) + rest);
        lemma_dec_entries(tail, rest);
        assert(seq![e] + tail =~= t);
    }
}

/// The whole encoded program bank: an entry count, then the entries.
pub open spec fn enc_table(t: Seq<(Pid, ProgramView)>) -> Seq<u8> {
    enc_u64(t.len() as u64) + enc_entries(t)
}

/// Reads a whole program bank: the entry count, the entries, nothing left
/// over, and pairwise distinct ids.
pub open spec fn dec_table(b: Seq<u8>) -> Option<Seq<(Pid, ProgramView)>> {
    match dec_u64(b) {
        Some((n, r)) => match dec_entries(r, n as nat) {
            Some((t, r2)) => if r2.len() == 0 && table_keys_unique(t) {
                Some(t)
            } else {
                None
            },
            None => None,
        },
        None => None,
    }
}

/// The round trip of the persistence format: decoding an encoded program
/// bank yields exactly the programs that were stored, addresses and values
/// included.
pub proof fn lemma_table_round_trip(t: Seq<(Pid, ProgramView)>)
    requires
        table_bounded(t),
        table_keys_unique(t),
    ensures
        dec_table(enc_table(t)) == Some(t),
{
    assert(enc_table(t) =~= enc_u64(t.len() as u64) + (enc_entries(t) + Seq::<u8>::empty()));
    lemma_dec_u64(t.len() as u64, enc_entries(t) + Seq::<u8>::empty());
    assert(enc_entries(t) + Seq::<u8>::empty() =~= enc_entries(t));
    lemma_dec_entries(t, Seq::<u8>::empty());
    assert((t.len() as u64) as nat == t.len());
}

/// The views of the entries of a program table.
pub open spec fn table_view(t: Seq<(Pid, Program)>) -> Seq<(Pid, ProgramView)> {
    t.map_values(|e: (Pid, Program)| (e.0, e.1@))
}

pub proof fn lemma_enc_chars_snoc(s: Seq<char>, c: char)
    ensures
        enc_chars(s.push(c)) == enc_chars(s) + enc_u64((c as u32) as u64),
    decreases s.len(),
{
    if s.len() == 0 {
        let w = enc_u64((c as u32) as u64);
        assert(s.push(c)[0] == c);
        assert(s.push(c).skip(1) =~= Seq::<char>::empty());
        assert(enc_chars(s.push(c)) == w + enc_chars(Seq::<char>::empty()));
        assert(w + enc_chars(Seq::<char>::empty()) =~= w);
        assert(enc_chars(s) + w =~= w);
    } else {
        let h = enc_u64((s[0] as u32) as u64);
        let w = enc_u64((c as u32) as u64);
        lemma_enc_chars_snoc(s.skip(1), c);
        assert(s.push(c).skip(1) =~= s.skip(1).push(c));
        assert(s.push(c)[0] == s[0]);
        assert(enc_chars(s.push(c)) == h + enc_chars(s.skip(1).push(c)));
        assert(h + (enc_chars(s.skip(1)) + w) =~= (h + enc_chars(s.skip(1))) + w);
    }
}

pub proof fn lemma_enc_value_seq_snoc(vs: Seq<ValueView>, v: ValueView)
    ensures
        enc_value_seq(vs.push(v)) == enc_value_seq(vs) + enc_value(v),
    decreases vs.len(),
{
    if vs.len() == 0 {
        let w = enc_value(v);
        assert(vs.push(v)[0] == v);
        assert(vs.push(v).skip(1) =~= Seq::<ValueView>::empty());
        assert(enc_value_seq(vs.push(v)) == w + enc_value_seq(Seq::<ValueView>::empty()));
        assert(w + enc_value_seq(Seq::<ValueView>::empty()) =~= w);
        assert(enc_value_seq(vs) + w =~= w);
    } else {
        let h = enc_value(vs[0]);
        let w = enc_value(v);
        lemma_enc_value_seq_snoc(vs.skip(1), v);
        assert(vs.push(v).skip(1) =~= vs.skip(1).push(v));
        assert(vs.push(v)[0] == vs[0]);
        assert(enc_value_seq(vs.push(v)) == h + enc_value_seq(vs.skip(1).push(v)));
        assert(h + (enc_value_seq(vs.skip(1)) + w) =~= (h + enc_value_seq(vs.skip(1))) + w);
    }
}

pub proof fn lemma_enc_params_snoc(ps: Seq<ParamView>, p: ParamView)
    ensures
        enc_params(ps.push(p)) == enc_params(ps) + enc_param(p),
    decreases ps.len(),
{
    if ps.len() == 0 {
        let w = enc_param(p);
        assert(ps.push(p)[0] == p);
        assert(ps.push(p).skip(1) =~= Seq::<ParamView>::empty());
        assert(enc_params(ps.push(p)) == w + enc_params(Seq::<ParamView>::empty()));
        assert(w + enc_params(Seq::<ParamView>::empty()) =~= w);
        assert(enc_params(ps) + w =~= w);
    } else {
        let h = enc_param(ps[0]);
        let w = enc_param(p);
        lemma_enc_params_snoc(ps.skip(1), p);
        assert(ps.push(p).skip(1) =~= ps.skip(1).push(p));
        assert(ps.push(p)[0] == ps[0]);
        assert(enc_params(ps.push(p)) == h + enc_params(ps.skip(1).push(p)));
        assert(h + (enc_params(ps.skip(1)) + w) =~= (h + enc_params(ps.skip(1))) + w);
    }
}

pub proof fn lemma_enc_entries_snoc(t: Seq<(Pid, ProgramView)>, e: (Pid, ProgramView))
    ensures
        enc_entries(t.push(e)) == enc_entries(t) + enc_u64(e.0 as u64) + enc_program(e.1),
    decreases t.len(),
{
    if t.len() == 0 {
        let w = enc_u64(e.0 as u64) + enc_program(e.1);
        assert(t.push(e)[0] == e);
        assert(t.push(e).skip(1) =~= Seq::<(Pid, ProgramView)>::empty());
        assert(enc_entries(t.push(e)) == enc_u64(e.0 as u64) + enc_program(e.1) + enc_entries(
            Seq::<(Pid, ProgramView)>::empty(),
        ));
        assert(enc_entries(t.push(e)) =~= enc_entries(t) + enc_u64(e.0 as u64) + enc_program(e.1));
    } else {
        let h = enc_u64(t[0].0 as u64) + enc_program(t[0].1);
        let w = enc_u64(e.0 as u64) + enc_program(e.1);
        lemma_enc_entries_snoc(t.skip(1), e);
        assert(t.push(e).skip(1) =~= t.skip(1).push(e));
        assert(t.push(e)[0] == t[0]);
        assert(enc_entries(t.push(e)) == enc_u64(t[0].0 as u64) + enc_program(t[0].1)
            + enc_entries(t.skip(1).push(e)));
        assert(enc_entries(t.push(e)) =~= enc_entries(t) + enc_u64(e.0 as u64) + enc_program(e.1));
    }
}

/// Appends one 64-bit word, little-endian.
fn push_word(out: &mut Vec<u8>, x: u64)
    ensures
        final(out)@ == old(out)@ + enc_u64(x),
{
    let mut b = u64_to_le_bytes(x);
    out.append(&mut b);
}

/// Appends one encoded value.
fn push_value(out: &mut Vec<u8>, v: &Value)
    ensures
        final(out)@ == old(out)@ + enc_value(v@),
{
    match v {
        Value::Int(i) => {
            push_word(out, 0);
            push_word(out, *i as u64);
            proof {
                assert(out@ =~= old(out)@ + enc_value(v@));
            }
        },
        Value::Float(f) => {
            push_word(out, 1);
            push_word(out, f.0 as u64);
            proof {
                assert(out@ =~= old(out)@ + enc_value(v@));
            }
        },
        Value::Text(s) => {
            push_word(out, 2);
            push_text_body(out, s);
            proof {
                assert(out@ =~= old(out)@ + enc_value(v@));
            }
        },
        Value::Blob(b) => {
            push_word(out, 3);
            push_word(out, b.len() as u64);
            let mut bb = slice_to_vec(b.as_slice());
            out.append(&mut bb);
            proof {
                assert(out@ =~= old(out)@ + enc_value(v@));
            }
        },
        Value::Time(a, b) => {
            push_word(out, 4);
            push_word(out, *a as u64);
            push_word(out, *b as u64);
            proof {
                assert(out@ =~= old(out)@ + enc_value(v@));
            }
        },
        Value::Long(l) => {
            push_word(out, 5);
            push_word(out, *l as u64);
            proof {
                assert(out@ =~= old(out)@ + enc_value(v@));
            }
        },
        Value::Double(d) => {
            push_word(out, 6);
            push_word(out, d.0 as u64);
            proof {
                assert(out@ =~= old(out)@ + enc_value(v@));
            }
        },
        Value::Char(c) => {
            push_word(out, 7);
            push_word(out, (*c as u32) as u64);
            proof {
                assert(out@ =~= old(out)@ + enc_value(v@));
            }
        },
        Value::Color(c) => {
            push_word(out, 8);
            push_word(out, c.red as u64);
            push_word(out, c.green as u64);
            push_word(out, c.blue as u64);
            push_word(out, c.alpha as u64);
            proof {
                assert(out@ =~= old(out)@ + enc_value(v@));
            }
        },
        Value::Midi(m) => {
            push_word(out, 9);
            push_word(out, m.port as u64);
            push_word(out, m.status as u64);
            push_word(out, m.data1 as u64);
            push_word(out, m.data2 as u64);
            proof {
                assert(out@ =~= old(out)@ + enc_value(v@));
            }
        },
        Value::Bool(x) => {
            push_word(out, 10);
            push_word(
                out,
                if *x {
                    1
                } else {
                    0
                },
            );
            proof {
                assert(out@ =~= old(out)@ + enc_value(v@));
            }
        },
        Value::Nil => {
            push_word(out, 11);
            proof {
                assert(out@ =~= old(out)@ + enc_value(v@));
            }
        },
        Value::Inf => {
            push_word(out, 12);
            proof {
                assert(out@ =~= old(out)@ + enc_value(v@));
            }
        },
    }
}

/// Appends an encoded text: its character count, then one word per
/// character.
fn push_text_body(out: &mut Vec<u8>, s: &String)
    ensures
        final(out)@ == old(out)@ + enc_u64(s@.len() as u64) + enc_chars(s@),
{
    let st = s.as_str();
    let n = st.unicode_len();
    push_word(out, n as u64);
    let ghost mid = out@;
    let mut k: usize = 0;
    while k < n
        invariant
            k <= n,
            n == s@.len(),
            st@ == s@,
            out@ == mid + enc_chars(s@.take(k as int)),
        decreases n - k,
    {
        let c = st.get_char(k);
        push_word(out, (c as u32) as u64);
        proof {
            lemma_enc_chars_snoc(s@.take(k as int), c);
            assert(s@.take(k as int).push(c) =~= s@.take(k as int + 1));
        }
        k = k + 1;
    }
    proof {
        assert(s@.take(n as int) =~= s@);
        assert(out@ =~= old(out)@ + enc_u64(s@.len() as u64) + enc_chars(s@));
    }
}

/// Appends one encoded parameter.
fn push_param(out: &mut Vec<u8>, p: &Parameter)
    ensures
        final(out)@ == old(out)@ + enc_param(p@),
{
    push_text_body(out, &p.address);
    push_word(out, p.values.len() as u64);
    let ghost mid = out@;
    let mut k: usize = 0;
    while k < p.values.len()
        invariant
            k <= p.values@.len(),
            out@ == mid + enc_value_seq(values_view(p.values@).take(k as int)),
        decreases p.values@.len() - k,
    {
        push_value(out, &p.values[k]);
        proof {
            let vs = values_view(p.values@);
            lemma_enc_value_seq_snoc(vs.take(k as int), vs[k as int]);
            assert(vs.take(k as int).push(vs[k as int]) =~= vs.take(k as int + 1));
            assert(p.values@[k as int]@ == vs[k as int]);
        }
        k = k + 1;
    }
    proof {
        assert(values_view(p.values@).take(p.values@.len() as int) =~= values_view(p.values@));
        assert(out@ =~= old(out)@ + enc_param(p@));
    }
}

/// Appends one encoded program.
fn push_program(out: &mut Vec<u8>, p: &Program)
    ensures
        final(out)@ == old(out)@ + enc_program(p@),
{
    push_word(out, p.delay() as u64);
    push_word(out, easing_to_id(p.interpol()) as u64);
    match p.auto_next() {
        Some(np) => {
            push_word(out, 1);
            push_word(out, np as u64);
        },
        None => {
            push_word(out, 0);
        },
    }
    let config = p.config();
    push_word(out, config.len() as u64);
    let ghost mid = out@;
    let mut k: usize = 0;
    while k < config.len()
        invariant
            k <= config@.len(),
            params_view(config@) == p@.config,
            out@ == mid + enc_params(p@.config.take(k as int)),
        decreases config@.len() - k,
    {
        push_param(out, &config[k]);
        proof {
            let ps = p@.config;
            lemma_enc_params_snoc(ps.take(k as int), ps[k as int]);
            assert(ps.take(k as int).push(ps[k as int]) =~= ps.take(k as int + 1));
            assert(config@[k as int]@ == ps[k as int]);
        }
        k = k + 1;
    }
    proof {
        assert(p@.config.take(p@.config.len() as int) =~= p@.config);
        assert(out@ =~= old(out)@ + enc_program(p@));
    }
}

/// Encodes a whole program table.
pub fn encode_table(t: &Vec<(Pid, Program)>) -> (r: Vec<u8>)
    ensures
        r@ == enc_table(table_view(t@)),
{
    let mut out: Vec<u8> = Vec::new();
    push_word(&mut out, t.len() as u64);
    let ghost mid = out@;
    let mut k: usize = 0;
    while k < t.len()
        invariant
            k <= t@.len(),
            table_view(t@).len() == t@.len(),
            out@ == mid + enc_entries(table_view(t@).take(k as int)),
        decreases t@.len() - k,
    {
        push_word(&mut out, t[k].0 as u64);
        push_program(&mut out, &t[k].1);
        proof {
            let tv = table_view(t@);
            lemma_enc_entries_snoc(tv.take(k as int), tv[k as int]);
            assert(tv.take(k as int).push(tv[k as int]) =~= tv.take(k as int + 1));
            assert(tv[k as int] == (t@[k as int].0, t@[k as int].1@));
        }
        k = k + 1;
    }
    proof {
        assert(table_view(t@).take(t@.len() as int) =~= table_view(t@));
        assert(out@ =~= enc_table(table_view(t@)));
    }
    out
}

/// Relies on char::from_u32: it accepts exactly the unicode scalar values
/// and returns the character with the given scalar value.
#[verifier::external_body]
fn char_from_u32(u: u32) -> (r: Option<char>)
    ensures
        r is Some <==> (u < 0xD800 || (0xE000 <= u && u <= 0x10FFFF)),
        match r {
            Some(c) => c as u32 == u,
            None => true,
        },
{
    char::from_u32(u)
}

/// Relies on String::push: it appends exactly one character.
#[verifier::external_body]
fn push_char(s: &mut String, c: char)
    ensures
        final(s)@ == old(s)@.push(c),
{
    s.push(c);
}

/// Reads one word at `pos`.
fn take_word(bytes: &Vec<u8>, pos: usize) -> (r: Option<(u64, usize)>)
    requires
        pos <= bytes@.len(),
    ensures
        match r {
            Some(x) => pos <= x.1 <= bytes@.len() && dec_u64(bytes@.skip(pos as int)) == Some(
                (x.0, bytes@.skip(x.1 as int)),
            ),
            None => dec_u64(bytes@.skip(pos as int)) is None,
        },
{
    if bytes.len() - pos >= 8 {
        let sl = slice_subrange(bytes.as_slice(), pos, pos + 8);
        let x = u64_from_le_bytes(sl);
        proof {
            assert(bytes@.skip(pos as int).take(8) =~= bytes@.subrange(
                pos as int,
                pos as int + 8,
            ));
            assert(bytes@.skip(pos as int).skip(8) =~= bytes@.skip(pos as int + 8));
        }
        Some((x, pos + 8))
    } else {
        None
    }
}

/// Reads `n` characters at `pos`.
fn take_chars(bytes: &Vec<u8>, pos: usize, n: u64) -> (r: Option<(String, usize)>)
    requires
        pos <= bytes@.len(),
    ensures
        match r {
            Some(x) => pos <= x.1 <= bytes@.len() && dec_chars(bytes@.skip(pos as int), n as nat)
                == Some((x.0@, bytes@.skip(x.1 as int))),
            None => dec_chars(bytes@.skip(pos as int), n as nat) is None,
        },
{
    let mut acc = String::new();
    let mut cur = pos;
    let mut k: u64 = 0;
    while k < n
        invariant
            pos <= cur <= bytes@.len(),
            k <= n,
            match dec_chars(bytes@.skip(cur as int), (n - k) as nat) {
                Some(y) => dec_chars(bytes@.skip(pos as int), n as nat) == Some(
                    (acc@ + y.0, y.1),
                ),
                None => dec_chars(bytes@.skip(pos as int), n as nat) is None,
            },
        decreases n - k,
    {
        match take_word(bytes, cur) {
            Some((w, p2)) => {
                if w > 0x10FFFF {
                    return None;
                }
                match char_from_u32(w as u32) {
                    Some(c) => {
                        proof {
                            assert(valid_char_word(w));
                            lemma_char_cast(c);
                            assert((w as u32) as char == c);
                            let tail_n = (n - k - 1) as nat;
                            match dec_chars(bytes@.skip(p2 as int), tail_n) {
                                Some(y) => {
                                    assert(dec_chars(bytes@.skip(cur as int), (n - k) as nat)
                                        == Some((seq![c] + y.0, y.1)));
                                    assert(acc@.push(c) + y.0 =~= acc@ + (seq![c] + y.0));
                                },
                                None => {
                                    assert(dec_chars(
                                        bytes@.skip(cur as int),
                                        (n - k) as nat,
                                    ) is None);
                                },
                            }
                        }
                        push_char(&mut acc, c);
                        cur = p2;
                        k = k + 1;
                    },
                    None => {
                        proof {
                            assert(!valid_char_word(w));
                        }
                        return None;
                    },
                }
            },
            None => {
                return None;
            },
        }
    }
    proof {
        assert(dec_chars(bytes@.skip(cur as int), 0) == Some(
            (Seq::<char>::empty(), bytes@.skip(cur as int)),
        ));
        assert(acc@ + Seq::<char>::empty() =~= acc@);
    }
    Some((acc, cur))
}

/// Reads `n` raw bytes at `pos`.
fn take_bytes(bytes: &Vec<u8>, pos: usize, n: u64) -> (r: Option<(Vec<u8>, usize)>)
    requires
        pos <= bytes@.len(),
    ensures
        match r {
            Some(x) => pos <= x.1 <= bytes@.len() && dec_bytes(bytes@.skip(pos as int), n as nat)
                == Some((x.0@, bytes@.skip(x.1 as int))),
            None => dec_bytes(bytes@.skip(pos as int), n as nat) is None,
        },
{
    if n <= (bytes.len() - pos) as u64 {
        let m = n as usize;
        let sl = slice_subrange(bytes.as_slice(), pos, pos + m);
        let v = slice_to_vec(sl);
        proof {
            assert(bytes@.skip(pos as int).take(n as int) =~= bytes@.subrange(
                pos as int,
                pos as int + n as int,
            ));
            assert(bytes@.skip(pos as int).skip(n as int) =~= bytes@.skip(pos as int + n as int));
        }
        Some((v, pos + m))
    } else {
        None
    }
}

/// Reads one value at `pos`.
fn take_value(bytes: &Vec<u8>, pos: usize) -> (r: Option<(Value, usize)>)
    requires
        pos <= bytes@.len(),
    ensures
        match r {
            Some(x) => pos <= x.1 <= bytes@.len() && dec_value(bytes@.skip(pos as int)) == Some(
                (x.0@, bytes@.skip(x.1 as int)),
            ),
            None => dec_value(bytes@.skip(pos as int)) is None,
        },
{
    let (tag, p1) = match take_word(bytes, pos) {
        Some(x) => x,
        None => {
            return None;
        },
    };
    if tag == 0 {
        match take_word(bytes, p1) {
            Some((w, p2)) => Some((Value::Int(#[verifier::truncate] (w as i32)), p2)),
            None => None,
        }
    } else if tag == 1 {
        match take_word(bytes, p1) {
            Some((w, p2)) => Some(
                (Value::Float(crate::value::FloatMicro(#[verifier::truncate] (w as i64))), p2),
            ),
            None => None,
        }
    } else if tag == 2 {
        match take_word(bytes, p1) {
            Some((n, p2)) => match take_chars(bytes, p2, n) {
                Some((s, p3)) => Some((Value::Text(s), p3)),
                None => None,
            },
            None => None,
        }
    } else if tag == 3 {
        match take_word(bytes, p1) {
            Some((n, p2)) => match take_bytes(bytes, p2, n) {
                Some((b, p3)) => Some((Value::Blob(b), p3)),
                None => None,
            },
            None => None,
        }
    } else if tag == 4 {
        match take_word(bytes, p1) {
            Some((a, p2)) => match take_word(bytes, p2) {
                Some((b, p3)) => Some(
                    (
                        Value::Time(
                            #[verifier::truncate] (a as u32),
                            #[verifier::truncate] (b as u32),
                        ),
                        p3,
                    ),
                ),
                None => None,
            },
            None => None,
        }
    } else if tag == 5 {
        match take_word(bytes, p1) {
            Some((w, p2)) => Some((Value::Long(#[verifier::truncate] (w as i64)), p2)),
            None => None,
        }
    } else if tag == 6 {
        match take_word(bytes, p1) {
            Some((w, p2)) => Some(
                (Value::Double(crate::value::DoubleMicro(#[verifier::truncate] (w as i64))), p2),
            ),
            None => None,
        }
    } else if tag == 7 {
        match take_word(bytes, p1) {
            Some((w, p2)) => {
                if w > 0x10FFFF {
                    return None;
                }
                match char_from_u32(#[verifier::truncate] (w as u32)) {
                    Some(c) => {
                        proof {
                            assert(valid_char_word(w));
                            lemma_char_cast(c);
                            assert((w as u32) as char == c);
                        }
                        Some((Value::Char(c), p2))
                    },
                    None => {
                        proof {
                            assert(!valid_char_word(w));
                        }
                        None
                    },
                }
            },
            None => None,
        }
    } else if tag == 8 {
        match take_word(bytes, p1) {
            Some((red, p2)) => match take_word(bytes, p2) {
                Some((green, p3)) => match take_word(bytes, p3) {
                    Some((blue, p4)) => match take_word(bytes, p4) {
                        Some((alpha, p5)) => Some(
                            (
                                Value::Color(
                                    crate::value::OscColorDef {
                                        red: #[verifier::truncate] (red as u8),
                                        green: #[verifier::truncate] (green as u8),
                                        blue: #[verifier::truncate] (blue as u8),
                                        alpha: #[verifier::truncate] (alpha as u8),
                                    },
                                ),
                                p5,
                            ),
                        ),
                        None => None,
                    },
                    None => None,
                },
                None => None,
            },
            None => None,
        }
    } else if tag == 9 {
        match take_word(bytes, p1) {
            Some((port, p2)) => match take_word(bytes, p2) {
                Some((status, p3)) => match take_word(bytes, p3) {
                    Some((data1, p4)) => match take_word(bytes, p4) {
                        Some((data2, p5)) => Some(
                            (
                                Value::Midi(
                                    crate::value::OscMidiMessageDef {
                                        port: #[verifier::truncate] (port as u8),
                                        status: #[verifier::truncate] (status as u8),
                                        data1: #[verifier::truncate] (data1 as u8),
                                        data2: #[verifier::truncate] (data2 as u8),
                                    },
                                ),
                                p5,
                            ),
                        ),
                        None => None,
                    },
                    None => None,
                },
                None => None,
            },
            None => None,
        }
    } else if tag == 10 {
        match take_word(bytes, p1) {
            Some((w, p2)) => {
                if w == 0 {
                    Some((Value::Bool(false), p2))
                } else if w == 1 {
                    Some((Value::Bool(true), p2))
                } else {
                    None
                }
            },
            None => None,
        }
    } else if tag == 11 {
        Some((Value::Nil, p1))
    } else if tag == 12 {
        Some((Value::Inf, p1))
    } else {
        None
    }
}

/// Reads `n` values at `pos`.
fn take_value_seq(bytes: &Vec<u8>, pos: usize, n: u64) -> (r: Option<(Vec<Value>, usize)>)
    requires
        pos <= bytes@.len(),
    ensures
        match r {
            Some(x) => pos <= x.1 <= bytes@.len() && dec_value_seq(
                bytes@.skip(pos as int),
                n as nat,
            ) == Some((values_view(x.0@), bytes@.skip(x.1 as int))),
            None => dec_value_seq(bytes@.skip(pos as int), n as nat) is None,
        },
{
    let mut acc: Vec<Value> = Vec::new();
    let mut cur = pos;
    let mut k: u64 = 0;
    while k < n
        invariant
            pos <= cur <= bytes@.len(),
            k <= n,
            match dec_value_seq(bytes@.skip(cur as int), (n - k) as nat) {
                Some(y) => dec_value_seq(bytes@.skip(pos as int), n as nat) == Some(
                    (values_view(acc@) + y.0, y.1),
                ),
                None => dec_value_seq(bytes@.skip(pos as int), n as nat) is None,
            },
        decreases n - k,
    {
        match take_value(bytes, cur) {
            Some((v, p2)) => {
                proof {
                    let tail_n = (n - k - 1) as nat;
                    match dec_value_seq(bytes@.skip(p2 as int), tail_n) {
                        Some(y) => {
                            assert(dec_value_seq(bytes@.skip(cur as int), (n - k) as nat) == Some(
                                (seq![v@] + y.0, y.1),
                            ));
                            assert(values_view(acc@.push(v)) =~= values_view(acc@).push(v@));
                            assert(values_view(acc@).push(v@) + y.0 =~= values_view(acc@) + (seq![
                                v@,
                            ] + y.0));
                        },
                        None => {
                            assert(dec_value_seq(bytes@.skip(cur as int), (n - k) as nat) is None);
                        },
                    }
                }
                acc.push(v);
                cur = p2;
                k = k + 1;
            },
            None => {
                return None;
            },
        }
    }
    proof {
        assert(dec_value_seq(bytes@.skip(cur as int), 0) == Some(
            (Seq::<ValueView>::empty(), bytes@.skip(cur as int)),
        ));
        assert(values_view(acc@) + Seq::<ValueView>::empty() =~= values_view(acc@));
    }
    Some((acc, cur))
}

/// Reads one parameter at `pos`.
fn take_param(bytes: &Vec<u8>, pos: usize) -> (r: Option<(Parameter, usize)>)
    requires
        pos <= bytes@.len(),
    ensures
        match r {
            Some(x) => pos <= x.1 <= bytes@.len() && dec_param(bytes@.skip(pos as int)) == Some(
                (x.0@, bytes@.skip(x.1 as int)),
            ),
            None => dec_param(bytes@.skip(pos as int)) is None,
        },
{
    let (n, p1) = match take_word(bytes, pos) {
        Some(x) => x,
        None => {
            return None;
        },
    };
    let (addr, p2) = match take_chars(bytes, p1, n) {
        Some(x) => x,
        None => {
            return None;
        },
    };
    let (m, p3) = match take_word(bytes, p2) {
        Some(x) => x,
        None => {
            return None;
        },
    };
    let (vals, p4) = match take_value_seq(bytes, p3, m) {
        Some(x) => x,
        None => {
            return None;
        },
    };
    Some((Parameter::new(addr, vals), p4))
}

/// Reads `n` parameters at `pos`.
fn take_params(bytes: &Vec<u8>, pos: usize, n: u64) -> (r: Option<(Vec<Parameter>, usize)>)
    requires
        pos <= bytes@.len(),
    ensures
        match r {
            Some(x) => pos <= x.1 <= bytes@.len() && dec_params(bytes@.skip(pos as int), n as nat)
                == Some((params_view(x.0@), bytes@.skip(x.1 as int))),
            None => dec_params(bytes@.skip(pos as int), n as nat) is None,
        },
{
    let mut acc: Vec<Parameter> = Vec::new();
    let mut cur = pos;
    let mut k: u64 = 0;
    while k < n
        invariant
            pos <= cur <= bytes@.len(),
            k <= n,
            match dec_params(bytes@.skip(cur as int), (n - k) as nat) {
                Some(y) => dec_params(bytes@.skip(pos as int), n as nat) == Some(
                    (params_view(acc@) + y.0, y.1),
                ),
                None => dec_params(bytes@.skip(pos as int), n as nat) is None,
            },
        decreases n - k,
    {
        match take_param(bytes, cur) {
            Some((p, p2)) => {
                proof {
                    let tail_n = (n - k - 1) as nat;
                    match dec_params(bytes@.skip(p2 as int), tail_n) {
                        Some(y) => {
                            assert(dec_params(bytes@.skip(cur as int), (n - k) as nat) == Some(
                                (seq![p@] + y.0, y.1),
                            ));
                            assert(params_view(acc@.push(p)) =~= params_view(acc@).push(p@));
                            assert(params_view(acc@).push(p@) + y.0 =~= params_view(acc@) + (seq![
                                p@,
                            ] + y.0));
                        },
                        None => {
                            assert(dec_params(bytes@.skip(cur as int), (n - k) as nat) is None);
                        },
                    }
                }
                acc.push(p);
                cur = p2;
                k = k + 1;
            },
            None => {
                return None;
            },
        }
    }
    proof {
        assert(dec_params(bytes@.skip(cur as int), 0) == Some(
            (Seq::<ParamView>::empty(), bytes@.skip(cur as int)),
        ));
        assert(params_view(acc@) + Seq::<ParamView>::empty() =~= params_view(acc@));
    }
    Some((acc, cur))
}

/// Reads one program at `pos`.
fn take_program(bytes: &Vec<u8>, pos: usize) -> (r: Option<(Program, usize)>)
    requires
        pos <= bytes@.len(),
    ensures
        match r {
            Some(x) => pos <= x.1 <= bytes@.len() && dec_program(bytes@.skip(pos as int)) == Some(
                (x.0@, bytes@.skip(x.1 as int)),
            ),
            None => dec_program(bytes@.skip(pos as int)) is None,
        },
{
    let (delay, p1) = match take_word(bytes, pos) {
        Some(x) => x,
        None => {
            return None;
        },
    };
    let (eid, p2) = match take_word(bytes, p1) {
        Some(x) => x,
        None => {
            return None;
        },
    };
    if eid > 3 {
        return None;
    }
    let (flag, p3) = match take_word(bytes, p2) {
        Some(x) => x,
        None => {
            return None;
        },
    };
    let (auto, p4): (Option<Pid>, usize) = if flag == 0 {
        (None, p3)
    } else if flag == 1 {
        match take_word(bytes, p3) {
            Some((w, p4)) => (Some(#[verifier::truncate] (w as u32)), p4),
            None => {
                return None;
            },
        }
    } else {
        return None;
    };
    let (config, p5) = match take_word(bytes, p4) {
        Some((n, pn)) => match take_params(bytes, pn, n) {
            Some(x) => x,
            None => {
                return None;
            },
        },
        None => {
            return None;
        },
    };
    let kind = crate::program::easing_from_id(eid as i32);
    proof {
        assert(kind == spec_easing_from_id(eid as int));
    }
    let prg = Program::from_parts(#[verifier::truncate] (delay as i64), kind, auto, config);
    Some((prg, p5))
}

/// Reads `n` table entries at `pos`.
fn take_entries(bytes: &Vec<u8>, pos: usize, n: u64) -> (r: Option<(Vec<(Pid, Program)>, usize)>)
    requires
        pos <= bytes@.len(),
    ensures
        match r {
            Some(x) => pos <= x.1 <= bytes@.len() && dec_entries(bytes@.skip(pos as int), n as nat)
                == Some((table_view(x.0@), bytes@.skip(x.1 as int))),
            None => dec_entries(bytes@.skip(pos as int), n as nat) is None,
        },
{
    let mut acc: Vec<(Pid, Program)> = Vec::new();
    let mut cur = pos;
    let mut k: u64 = 0;
    while k < n
        invariant
            pos <= cur <= bytes@.len(),
            k <= n,
            match dec_entries(bytes@.skip(cur as int), (n - k) as nat) {
                Some(y) => dec_entries(bytes@.skip(pos as int), n as nat) == Some(
                    (table_view(acc@) + y.0, y.1),
                ),
                None => dec_entries(bytes@.skip(pos as int), n as nat) is None,
            },
        decreases n - k,
    {
        let (w, p2) = match take_word(bytes, cur) {
            Some(x) => x,
            None => {
                return None;
            },
        };
        match take_program(bytes, p2) {
            Some((prg, p3)) => {
                let pid: Pid = #[verifier::truncate] (w as u32);
                proof {
                    let tail_n = (n - k - 1) as nat;
                    match dec_entries(bytes@.skip(p3 as int), tail_n) {
                        Some(y) => {
                            assert(dec_entries(bytes@.skip(cur as int), (n - k) as nat) == Some(
                                (seq![(pid, prg@)] + y.0, y.1),
                            ));
                            assert(table_view(acc@.push((pid, prg))) =~= table_view(acc@).push(
                                (pid, prg@),
                            ));
                            assert(table_view(acc@).push((pid, prg@)) + y.0 =~= table_view(acc@)
                                + (seq![(pid, prg@)] + y.0));
                        },
                        None => {
                            assert(dec_entries(bytes@.skip(cur as int), (n - k) as nat) is None);
                        },
                    }
                }
                acc.push((pid, prg));
                cur = p3;
                k = k + 1;
            },
            None => {
                return None;
            },
        }
    }
    proof {
        assert(dec_entries(bytes@.skip(cur as int), 0) == Some(
            (Seq::<(Pid, ProgramView)>::empty(), bytes@.skip(cur as int)),
        ));
        assert(table_view(acc@) + Seq::<(Pid, ProgramView)>::empty() =~= table_view(acc@));
    }
    Some((acc, cur))
}

/// Whether the decoded table's program ids are pairwise distinct.
fn keys_unique(t: &Vec<(Pid, Program)>) -> (r: bool)
    ensures
        r == table_keys_unique(table_view(t@)),
{
    let ghost tv = table_view(t@);
    let mut i: usize = 0;
    while i < t.len()
        invariant
            i <= t@.len(),
            tv == table_view(t@),
            tv.len() == t@.len(),
            forall|a: int, b: int| 0 <= a < i && a < b < tv.len() ==> tv[a].0 != tv[b].0,
        decreases t@.len() - i,
    {
        let mut j: usize = i + 1;
        while j < t.len()
            invariant
                i < j <= t@.len() || (i + 1 == j && j > t@.len()),
                i < t@.len(),
                tv == table_view(t@),
                tv.len() == t@.len(),
                forall|b: int| i < b < j ==> tv[i as int].0 != tv[b].0,
            decreases t@.len() - j,
        {
            if t[i].0 == t[j].0 {
                proof {
                    assert(tv[i as int] == (t@[i as int].0, t@[i as int].1@));
                    assert(tv[j as int] == (t@[j as int].0, t@[j as int].1@));
                    assert(tv[i as int].0 == tv[j as int].0);
                    assert(!table_keys_unique(tv));
                }
                return false;
            }
            proof {
                assert(tv[i as int] == (t@[i as int].0, t@[i as int].1@));
                assert(tv[j as int] == (t@[j as int].0, t@[j as int].1@));
            }
            j = j + 1;
        }
        i = i + 1;
    }
    proof {
        assert forall|a: int, b: int|
            0 <= a < tv.len() && 0 <= b < tv.len() && a != b implies tv[a].0 != tv[b].0 by {
            if a < b {
                assert(tv[a].0 != tv[b].0);
            } else {
                assert(tv[b].0 != tv[a].0);
            }
        }
    }
    true
}

/// Decodes a whole program bank: the entry count, the entries, nothing
/// left over, pairwise distinct ids.
pub fn decode_table(bytes: &Vec<u8>) -> (r: Option<Vec<(Pid, Program)>>)
    ensures
        match r {
            Some(t) => dec_table(bytes@) == Some(table_view(t@)) && table_keys_unique(
                table_view(t@),
            ),
            None => dec_table(bytes@) is None,
        },
{
    proof {
        assert(bytes@.skip(0) =~= bytes@);
    }
    let (n, p1) = match take_word(bytes, 0) {
        Some(x) => x,
        None => {
            return None;
        },
    };
    let (t, p2) = match take_entries(bytes, p1, n) {
        Some(x) => x,
        None => {
            return None;
        },
    };
    if p2 != bytes.len() {
        proof {
            assert(bytes@.skip(p2 as int).len() != 0);
        }
        return None;
    }
    if !keys_unique(&t) {
        return None;
    }
    proof {
        assert(bytes@.skip(p2 as int).len() == 0);
    }
    Some(t)
}

} // verus!
