//! Keyframe programs and the engine that fades the parameter store
//! between them.
//!
//! A [`Program`] is a full snapshot of the store plus fade metadata.  A
//! [`ProgramSwitcher`] drives the store from a previous snapshot towards a
//! program's snapshot over the program's delay.  The [`ProgramManager`] maps
//! program ids to programs, owns its own meta-parameters and reacts to
//! control messages.
use vstd::prelude::*;
use vstd::arithmetic::div_mod::*;
use crate::easing::{
    ease_apply, interpolatable, lemma_value_lerp_endpoints, lerp_value_vecs, spec_ease,
    spec_lerp_values, EasingKind, FACTOR_ONE,
};
use crate::osc_convert::FromOscType;
use crate::parameter::{
    addrs_unique, dup_params, params_view, spec_store_update, ControlMessage, MsgView, ParamView,
    Parameter, ParameterEnd, ParameterEndpoint, ParameterFactory, ParameterStore,
};
use crate::value::{FloatMicro, Value, ValueView};

verus! {

/// Identifies a stored program.
pub type Pid = u32;

/// A fade completes when its progress reaches this many fixed-point steps,
/// chosen just under full progress so completion does not depend on an exact
/// final tick.
pub const COMPLETE_THRESHOLD: i64 = 999_900;

/// What went wrong while persisting or restoring the program bank.
#[derive(Clone, Copy, Debug, PartialEq, Eq, Structural)]
pub enum LoadStoreError {
    /// Reading or writing the backing file failed.
    IoError,
    /// The program bank could not be encoded.
    SerializeError,
    /// The bytes read do not form an encoded program bank.
    DeserializeError,
}

/// Fade progress at `time` for a fade started at `start` with fade time
/// `delay`, in fixed-point steps: `0` before the start, full progress once
/// the delay has elapsed, proportional in between.  A fade with a delay of
/// zero or less completes in a single step.
pub open spec fn spec_progress(time: int, start: int, delay: int) -> int {
    let s = FACTOR_ONE as int;
    if delay <= 0 {
        s
    } else {
        let run = time - start;
        if run <= 0 {
            0
        } else if run >= delay {
            s
        } else {
            (run * s) / delay
        }
    }
}

/// Fade progress at `time` for a fade started at `start` with fade time
/// `delay`.
pub fn progress(time: i64, start: i64, delay: i64) -> (t: i64)
    ensures
        t == spec_progress(time as int, start as int, delay as int),
        0 <= t <= FACTOR_ONE,
{
    if delay <= 0 {
        return FACTOR_ONE;
    }
    let run = time as i128 - start as i128;
    if run <= 0 {
        0
    } else if run >= delay as i128 {
        FACTOR_ONE
    } else {
        proof {
            let s = FACTOR_ONE as int;
            let runi = time - start as int;
            assert(runi * s >= 0) by (nonlinear_arith)
                requires runi > 0 && s > 0;
            assert(runi * s <= delay as int * s) by (nonlinear_arith)
                requires runi <= delay as int && s > 0;
            lemma_div_pos_is_pos(runi * s, delay as int);
            lemma_div_is_ordered(runi * s, delay as int * s, delay as int);
            lemma_div_multiples_vanish(s, delay as int);
            assert(delay as int * s == s * delay as int) by (nonlinear_arith);
        }
        ((run as u128 * FACTOR_ONE as u128) / (delay as u128)) as i64
    }
}

/// The easing curve stored under interpolation id `id`; unknown ids fall
/// back to the linear curve.
pub open spec fn spec_easing_from_id(id: int) -> EasingKind {
    if id == 1 {
        EasingKind::QuadIn
    } else if id == 2 {
        EasingKind::QuadOut
    } else if id == 3 {
        EasingKind::Smooth
    } else {
        EasingKind::Identity
    }
}

/// The interpolation id under which an easing curve is stored.
pub open spec fn spec_easing_to_id(k: EasingKind) -> int {
    match k {
        EasingKind::Identity => 0,
        EasingKind::QuadIn => 1,
        EasingKind::QuadOut => 2,
        EasingKind::Smooth => 3,
    }
}

/// Ids and easing curves translate back and forth without loss.
pub proof fn lemma_easing_id_round_trip(k: EasingKind)
    ensures
        spec_easing_from_id(spec_easing_to_id(k)) == k,
        0 <= spec_easing_to_id(k) <= 3,
{
}

/// The easing curve stored under interpolation id `id`.
pub fn easing_from_id(id: i32) -> (k: EasingKind)
    ensures
        k == spec_easing_from_id(id as int),
{
    if id == 1 {
        EasingKind::QuadIn
    } else if id == 2 {
        EasingKind::QuadOut
    } else if id == 3 {
        EasingKind::Smooth
    } else {
        EasingKind::Identity
    }
}

/// The interpolation id under which an easing curve is stored.
pub fn easing_to_id(k: EasingKind) -> (id: i32)
    ensures
        id as int == spec_easing_to_id(k),
{
    match k {
        EasingKind::Identity => 0,
        EasingKind::QuadIn => 1,
        EasingKind::QuadOut => 2,
        EasingKind::Smooth => 3,
    }
}

/// The mathematical shape of a program: fade metadata plus the snapshot it
/// fades to.
pub ghost struct ProgramView {
    pub delay: i64,
    pub interpol: EasingKind,
    pub auto_next: Option<Pid>,
    pub config: Seq<ParamView>,
}

/// A keyframe: a full snapshot of the parameter store, the time the fade to
/// it takes (in the same micro-unit scale as timestamps), the easing curve
/// shaping the fade, and an optional program to chain to afterwards.
#[derive(Debug)]
pub struct Program {
    delay: i64,
    interpol: EasingKind,
    auto_next: Option<Pid>,
    config: Vec<Parameter>,
}

impl View for Program {
    type V = ProgramView;

    closed spec fn view(&self) -> ProgramView {
        ProgramView {
            delay: self.delay,
            interpol: self.interpol,
            auto_next: self.auto_next,
            config: params_view(self.config@),
        }
    }
}

impl Program {
    /// A new program snapshotting the current state of `store`.
    ///
    /// `delay` is the fade time towards this program; `inter_id` selects the
    /// easing curve, falling back to linear when unknown; `auto_next`
    /// optionally chains to another program once the fade completes.
    pub fn new(delay: i64, inter_id: i32, auto_next: Option<Pid>, store: &ParameterStore) -> (r:
        Self)
        ensures
            r@ == (ProgramView {
                delay,
                interpol: spec_easing_from_id(inter_id as int),
                auto_next,
                config: store@,
            }),
    {
        Self {
            delay,
            interpol: easing_from_id(inter_id),
            auto_next,
            config: store.config_copy(),
        }
    }

    /// Rebuilds a program from its parts; used when restoring a persisted
    /// program bank.
    pub fn from_parts(
        delay: i64,
        interpol: EasingKind,
        auto_next: Option<Pid>,
        config: Vec<Parameter>,
    ) -> (r: Self)
        ensures
            r@ == (ProgramView { delay, interpol, auto_next, config: params_view(config@) }),
    {
        Self { delay, interpol, auto_next, config }
    }

    /// The fade time towards this program.
    pub fn delay(&self) -> (r: i64)
        ensures
            r == self@.delay,
    {
        self.delay
    }

    /// The easing curve of this program's fade.
    pub fn interpol(&self) -> (r: EasingKind)
        ensures
            r == self@.interpol,
    {
        self.interpol
    }

    /// The program chained to after this one, if any.
    pub fn auto_next(&self) -> (r: Option<Pid>)
        ensures
            r == self@.auto_next,
    {
        self.auto_next
    }

    /// Read access to the snapshot this program fades to.
    pub fn config(&self) -> (r: &Vec<Parameter>)
        ensures
            params_view(r@) == self@.config,
    {
        &self.config
    }

    /// A structural copy whose contract states that the view is preserved.
    pub fn duplicate(&self) -> (r: Program)
        ensures
            r@ == self@,
    {
        Program {
            delay: self.delay,
            interpol: self.interpol,
            auto_next: self.auto_next,
            config: dup_params(&self.config),
        }
    }
}

/// The mathematical shape of a running fade.
pub ghost struct SwitcherView {
    pub last: Seq<ParamView>,
    pub prog: ProgramView,
    pub start_time: i64,
}

/// A running fade: the snapshot the store had when the fade started, the
/// program being faded to, and the start timestamp.
pub struct ProgramSwitcher {
    last_config: Vec<Parameter>,
    prog: Program,
    start_time: i64,
}

impl View for ProgramSwitcher {
    type V = SwitcherView;

    closed spec fn view(&self) -> SwitcherView {
        SwitcherView {
            last: params_view(self.last_config@),
            prog: self.prog@,
            start_time: self.start_time,
        }
    }
}

/// Whether a fade from snapshot `last` to the snapshot of `prog` is sound:
/// both must list the same addresses in the same order, so values are never
/// applied to the wrong parameter.
pub open spec fn configs_aligned(last: Seq<ParamView>, prog: Seq<ParamView>) -> bool {
    &&& last.len() == prog.len()
    &&& forall|i: int| 0 <= i < last.len() ==> last[i].addr == prog[i].addr
}

/// The store contents after a fade step of `sw` at time `time`: every
/// parameter covered by the fade holds the pairwise interpolation of the
/// previous and target snapshots, everything else is untouched.
pub open spec fn spec_fade_store(pre: Seq<ParamView>, sw: SwitcherView, time: int) -> Seq<
    ParamView,
> {
    let factor = spec_ease(
        sw.prog.interpol,
        spec_progress(time, sw.start_time as int, sw.prog.delay as int),
    );
    Seq::new(
        pre.len(),
        |i: int|
            if i < sw.last.len() {
                ParamView {
                    addr: pre[i].addr,
                    values: spec_lerp_values(sw.last[i].values, sw.prog.config[i].values, factor),
                }
            } else {
                pre[i]
            },
    )
}

impl ProgramSwitcher {
    /// The snapshots of a sound switcher are aligned.
    pub open spec fn wf(&self) -> bool {
        configs_aligned(self@.last, self@.prog.config)
    }

    /// A new fade from the current state of `store` to `prog`, started at
    /// `time`.  Returns `None` — and no fade starts — exactly when the
    /// store and the program disagree on the parameter set: different
    /// lengths or differently ordered addresses.
    pub fn new(prog: &Program, time: i64, store: &ParameterStore) -> (r: Option<Self>)
        ensures
            r is Some <==> configs_aligned(store@, prog@.config),
            match r {
                Some(sw) => sw.wf() && sw@ == (SwitcherView {
                    last: store@,
                    prog: prog@,
                    start_time: time,
                }),
                None => true,
            },
    {
        let last_config = store.config_copy();
        if last_config.len() != prog.config.len() {
            return None;
        }
        let mut k: usize = 0;
        while k < last_config.len()
            invariant
                k <= last_config@.len(),
                params_view(last_config@) == store@,
                last_config@.len() == prog@.config.len(),
                forall|i: int| 0 <= i < k ==> store@[i].addr == prog@.config[i].addr,
            decreases last_config@.len() - k,
        {
            if !(last_config[k].address == prog.config[k].address) {
                proof {
                    assert(params_view(last_config@)[k as int] == last_config@[k as int]@);
                    assert(prog@.config[k as int] == prog.config@[k as int]@);
                }
                return None;
            }
            proof {
                assert(params_view(last_config@)[k as int] == last_config@[k as int]@);
                assert(prog@.config[k as int] == prog.config@[k as int]@);
            }
            k = k + 1;
        }
        Some(Self { last_config, prog: prog.duplicate(), start_time: time })
    }

    /// The fade's target program.
    pub fn prog(&self) -> (r: &Program)
        ensures
            r@ == self@.prog,
    {
        &self.prog
    }

    /// One fade step: writes the interpolation of the two snapshots at the
    /// eased progress for `time` into `store`, and reports whether the fade
    /// is still running (progress below the completion threshold).
    ///
    /// The store must still hold every parameter the fade covers; parameters
    /// registered after the fade started are left untouched.
    pub fn update(&self, time: i64, store: &mut ParameterStore) -> (running: bool)
        requires
            old(store).wf(),
            self.wf(),
            self@.last.len() <= old(store)@.len(),
        ensures
            final(store).wf(),
            final(store)@ == spec_fade_store(old(store)@, self@, time as int),
            running == (spec_progress(time as int, self@.start_time as int, self@.prog.delay as int)
                < COMPLETE_THRESHOLD as int),
    {
        let t = progress(time, self.start_time, self.prog.delay());
        let factor = ease_apply(self.prog.interpol(), t);
        let ghost target = spec_fade_store(old(store)@, self@, time as int);
        let mut i: usize = 0;
        while i < self.last_config.len()
            invariant
                store.wf(),
                self.wf(),
                i <= self@.last.len(),
                self@.last.len() == self.last_config@.len(),
                self@.last.len() <= store@.len(),
                store@.len() == old(store)@.len(),
                factor == spec_ease(
                    self@.prog.interpol,
                    spec_progress(time as int, self@.start_time as int, self@.prog.delay as int),
                ),
                0 <= factor <= FACTOR_ONE,
                target == spec_fade_store(old(store)@, self@, time as int),
                target.len() == old(store)@.len(),
                forall|j: int| 0 <= j < i ==> store@[j] == target[j],
                forall|j: int| i <= j < store@.len() ==> store@[j] == old(store)@[j],
            decreases self.last_config@.len() - i,
        {
            let a = &self.last_config[i];
            let b = &self.prog.config[i];
            proof {
                assert(self@.last[i as int] == self.last_config@[i as int]@);
                assert(self@.prog.config[i as int] == self.prog.config@[i as int]@);
            }
            let vec = lerp_value_vecs(&a.values, &b.values, factor);
            store.set_value(i, vec);
            proof {
                assert(store@[i as int] =~= target[i as int]);
            }
            i = i + 1;
        }
        proof {
            assert(store@ =~= target);
        }
        t < COMPLETE_THRESHOLD
    }
}

/// A fade step writes the numeric values of the previous snapshot back at
/// the moment the fade starts, and the target's values once the delay has
/// elapsed — for every easing curve, since every curve fixes both ends of
/// the progress range.
pub proof fn lemma_fade_endpoints(pre: Seq<ParamView>, sw: SwitcherView, i: int, j: int)
    requires
        configs_aligned(sw.last, sw.prog.config),
        sw.last.len() <= pre.len(),
        0 <= i < sw.last.len(),
        0 <= j < sw.last[i].values.len(),
        j < sw.prog.config[i].values.len(),
        interpolatable(sw.last[i].values[j], sw.prog.config[i].values[j]),
    ensures
        sw.prog.delay > 0 ==> spec_fade_store(pre, sw, sw.start_time as int)[i].values[j]
            == sw.last[i].values[j],
        spec_fade_store(pre, sw, sw.start_time as int + sw.prog.delay as int)[i].values[j]
            == sw.prog.config[i].values[j],
{
    let a = sw.last[i].values[j];
    let b = sw.prog.config[i].values[j];
    lemma_value_lerp_endpoints(sw.prog.interpol, a, b);
    if sw.prog.delay > 0 {
        assert(spec_progress(sw.start_time as int, sw.start_time as int, sw.prog.delay as int)
            == 0);
        assert(spec_fade_store(pre, sw, sw.start_time as int)[i].values[j] == spec_value_lerp_at(
            sw,
            0,
            a,
            b,
        ));
    }
    assert(spec_progress(
        sw.start_time as int + sw.prog.delay as int,
        sw.start_time as int,
        sw.prog.delay as int,
    ) == FACTOR_ONE as int);
    assert(spec_fade_store(pre, sw, sw.start_time as int + sw.prog.delay as int)[i].values[j]
        == spec_value_lerp_at(sw, FACTOR_ONE as int, a, b));
}

/// The value one fade pair takes at progress `t` under the fade's easing.
pub open spec fn spec_value_lerp_at(sw: SwitcherView, t: int, a: ValueView, b: ValueView)
    -> ValueView {
    crate::easing::spec_value_lerp(spec_ease(sw.prog.interpol, t), a, b)
}

/// A persistence request raised by a control message; the host performs the
/// file work and hands the bytes back to the manager.
pub enum PersistAction {
    /// Write the encoded program bank to this path.
    Store(String),
    /// Read an encoded program bank from this path and restore it.
    Load(String),
}

/// Whether the program table holds an entry with id `p`.
pub open spec fn table_contains(s: Seq<(Pid, ProgramView)>, p: Pid) -> bool {
    exists|i: int| 0 <= i < s.len() && s[i].0 == p
}

/// The position of the entry with id `p`; meaningful when ids are unique
/// and `p` is present.
pub open spec fn table_key_index(s: Seq<(Pid, ProgramView)>, p: Pid) -> int {
    choose|i: int| 0 <= i < s.len() && s[i].0 == p
}

/// Program ids are pairwise distinct.
pub open spec fn table_keys_unique(s: Seq<(Pid, ProgramView)>) -> bool {
    forall|i: int, j: int| #![trigger s[i], s[j]]
        0 <= i < s.len() && 0 <= j < s.len() && i != j ==> s[i].0 != s[j].0
}

/// The table after inserting program `v` at id `p`: an existing id is
/// overwritten in place, a fresh id is appended.
pub open spec fn spec_table_insert(
    s: Seq<(Pid, ProgramView)>,
    p: Pid,
    v: ProgramView,
) -> Seq<(Pid, ProgramView)> {
    if table_contains(s, p) {
        s.update(table_key_index(s, p), (p, v))
    } else {
        s.push((p, v))
    }
}

/// The program stored at id `p`, if any.
pub open spec fn spec_table_get(s: Seq<(Pid, ProgramView)>, p: Pid) -> Option<ProgramView> {
    if table_contains(s, p) {
        Some(s[table_key_index(s, p)].1)
    } else {
        None
    }
}

/// The switcher that running program `p` at `time` over a store holding
/// `store` installs: `None` when the id is unknown or the snapshots do not
/// align.
pub open spec fn spec_make_switcher(
    tab: Seq<(Pid, ProgramView)>,
    p: Pid,
    time: i64,
    store: Seq<ParamView>,
) -> Option<SwitcherView> {
    match spec_table_get(tab, p) {
        Some(prg) => if configs_aligned(store, prg.config) {
            Some(SwitcherView { last: store, prog: prg, start_time: time })
        } else {
            None
        },
        None => None,
    }
}

/// The first value of a message, when it is an integer.
pub open spec fn msg_int_arg(m: MsgView) -> Option<i32> {
    match m.args {
        Some(vals) => if vals.len() > 0 {
            match vals[0] {
                ValueView::Int(i) => Some(i),
                _ => None,
            }
        } else {
            None
        },
        None => None,
    }
}

/// The first value of a message, when it is a string.
pub open spec fn msg_str_arg(m: MsgView) -> Option<Seq<char>> {
    match m.args {
        Some(vals) => if vals.len() > 0 {
            match vals[0] {
                ValueView::Text(s) => Some(s),
                _ => None,
            }
        } else {
            None
        },
        None => None,
    }
}

/// Maps program ids to programs, owns the fade meta-parameters (delay,
/// easing id, auto-chain id) as parameters of its own private store, and
/// drives at most one fade at a time.
pub struct ProgramManager {
    programs: Vec<(Pid, Program)>,
    locals: ParameterStore,
    current: Option<Box<ProgramSwitcher>>,
    delay: ParameterEndpoint<FloatMicro>,
    interpol: ParameterEndpoint<i32>,
    auto_next: ParameterEndpoint<i32>,
}

impl ProgramManager {
    /// The stored programs, in insertion order.
    pub closed spec fn spec_programs(&self) -> Seq<(Pid, ProgramView)> {
        self.programs@.map_values(|e: (Pid, Program)| (e.0, e.1@))
    }

    /// The manager's private meta-parameter store.
    pub closed spec fn spec_locals(&self) -> Seq<ParamView> {
        self.locals@
    }

    /// The running fade, if one is active.
    pub closed spec fn spec_current(&self) -> Option<SwitcherView> {
        match self.current {
            Some(sw) => Some(sw@),
            None => None,
        }
    }

    /// The endpoint that reads the fade-delay meta-parameter.
    pub closed spec fn spec_delay_ep(&self) -> ParameterEndpoint<FloatMicro> {
        self.delay
    }

    /// The endpoint that reads the easing-id meta-parameter.
    pub closed spec fn spec_interpol_ep(&self) -> ParameterEndpoint<i32> {
        self.interpol
    }

    /// The endpoint that reads the auto-chain meta-parameter.
    pub closed spec fn spec_auto_next_ep(&self) -> ParameterEndpoint<i32> {
        self.auto_next
    }

    /// The fade delay a program created now would get, read from the
    /// meta-parameters in micro-units.
    pub open spec fn spec_meta_delay(&self) -> i64 {
        self.spec_delay_ep().spec_get_view(self.spec_locals()).0
    }

    /// The easing curve a program created now would get.
    pub open spec fn spec_meta_easing(&self) -> EasingKind {
        spec_easing_from_id(self.spec_interpol_ep().spec_get_view(self.spec_locals()) as int)
    }

    /// The auto-chain target a program created now would get; the id `0`
    /// means no chaining.
    pub open spec fn spec_meta_next(&self) -> Option<Pid> {
        let n = self.spec_auto_next_ep().spec_get_view(self.spec_locals());
        if n > 0 {
            Some(n as u32)
        } else {
            None
        }
    }

    /// Program ids are unique, the meta-store is well-formed, and any
    /// running fade has aligned snapshots.
    pub open spec fn wf(&self) -> bool {
        &&& table_keys_unique(self.spec_programs())
        &&& addrs_unique(self.spec_locals())
        &&& match self.spec_current() {
            Some(sw) => configs_aligned(sw.last, sw.prog.config),
            None => true,
        }
    }

    /// The position of program `p` in the table.
    fn table_find(&self, p: Pid) -> (r: Option<usize>)
        requires
            table_keys_unique(self.spec_programs()),
        ensures
            match r {
                Some(i) => i < self.spec_programs().len() && self.spec_programs()[i as int].0 == p
                    && i == table_key_index(self.spec_programs(), p),
                None => !table_contains(self.spec_programs(), p),
            },
    {
        let mut k: usize = 0;
        while k < self.programs.len()
            invariant
                table_keys_unique(self.spec_programs()),
                k <= self.programs@.len(),
                self.spec_programs().len() == self.programs@.len(),
                forall|i: int| 0 <= i < k ==> self.spec_programs()[i].0 != p,
            decreases self.programs@.len() - k,
        {
            if self.programs[k].0 == p {
                proof {
                    let tab = self.spec_programs();
                    assert(tab[k as int] == (self.programs@[k as int].0,
                    self.programs@[k as int].1@));
                    assert(tab[k as int].0 == p);
                    assert(exists|i: int| 0 <= i < tab.len() && tab[i].0 == p);
                    let ci = choose|i: int| 0 <= i < tab.len() && tab[i].0 == p;
                    assert(0 <= ci < tab.len() && tab[ci].0 == p);
                    assert(ci == k as int) by {
                        if ci != k as int {
                            assert(tab[ci].0 != tab[k as int].0);
                        }
                    };
                }
                return Some(k);
            }
            proof {
                assert(self.spec_programs()[k as int] == (self.programs@[k as int].0,
                self.programs@[k as int].1@));
            }
            k = k + 1;
        }
        None
    }

    /// Inserts `prg` at id `p`, overwriting an existing program at that id.
    fn table_insert(&mut self, p: Pid, prg: Program)
        requires
            table_keys_unique(old(self).spec_programs()),
        ensures
            table_keys_unique(final(self).spec_programs()),
            final(self).spec_programs() == spec_table_insert(old(self).spec_programs(), p, prg@),
            final(self).spec_locals() == old(self).spec_locals(),
            final(self).spec_current() == old(self).spec_current(),
            final(self).spec_meta_delay() == old(self).spec_meta_delay(),
            final(self).spec_meta_easing() == old(self).spec_meta_easing(),
            final(self).spec_meta_next() == old(self).spec_meta_next(),
            final(self).spec_delay_ep() == old(self).spec_delay_ep(),
            final(self).spec_interpol_ep() == old(self).spec_interpol_ep(),
            final(self).spec_auto_next_ep() == old(self).spec_auto_next_ep(),
    {
        match self.table_find(p) {
            Some(i) => {
                let ghost pre = self.spec_programs();
                self.programs[i] = (p, prg);
                proof {
                    assert(self.spec_programs() =~= pre.update(
                        table_key_index(pre, p),
                        (p, prg@),
                    ));
                }
            },
            None => {
                let ghost pre = self.spec_programs();
                self.programs.push((p, prg));
                proof {
                    assert(self.spec_programs() =~= pre.push((p, prg@)));
                }
            },
        }
    }
}

impl ProgramManager {
    /// A new manager with no programs and no running fade, owning fresh
    /// meta-parameters `/program/delay` (10 units), `/program/interpol` (0,
    /// the linear curve) and `/program/auto_next` (0, no chaining), each
    /// bound to its slot of the private meta store.
    pub fn new() -> (r: Self)
        ensures
            r.wf(),
            r.spec_programs() == Seq::<(Pid, ProgramView)>::empty(),
            r.spec_current() is None,
            r.spec_locals() == seq![
                (ParamView {
                    addr: "/program/delay"@,
                    values: seq![ValueView::Float(10_000_000i64)],
                }),
                (ParamView { addr: "/program/interpol"@, values: seq![ValueView::Int(0)] }),
                (ParamView { addr: "/program/auto_next"@, values: seq![ValueView::Int(0)] }),
            ],
            r.spec_delay_ep() == (ParameterEndpoint::<FloatMicro> {
                length: 1,
                default: FloatMicro(10_000_000),
                p_index: 0,
            }),
            r.spec_interpol_ep() == (ParameterEndpoint::<i32> {
                length: 1,
                default: 0,
                p_index: 1,
            }),
            r.spec_auto_next_ep() == (ParameterEndpoint::<i32> {
                length: 1,
                default: 0,
                p_index: 2,
            }),
            r.spec_meta_delay() == 10 * crate::value::MICRO,
            r.spec_meta_easing() == EasingKind::Identity,
            r.spec_meta_next() is None,
    {
        let mut locals = ParameterStore::new();
        let mut factory = ParameterFactory::new("/program".to_owned());
        proof {
            reveal_strlit("delay");
            reveal_strlit("interpol");
            reveal_strlit("auto_next");
        }
        let ghost d_addr = "/program"@ + "/"@ + "delay"@;
        let ghost i_addr = "/program"@ + "/"@ + "interpol"@;
        let ghost n_addr = "/program"@ + "/"@ + "auto_next"@;
        proof {
            assert(d_addr.len() != i_addr.len());
            assert(d_addr.len() != n_addr.len());
            assert(i_addr.len() != n_addr.len());
        }
        let delay = factory.build_default::<FloatMicro>(
            FloatMicro(10_000_000),
            "delay".to_owned(),
            &mut locals,
        );
        let interpol = factory.build_default::<i32>(0, "interpol".to_owned(), &mut locals);
        let auto_next = factory.build_default::<i32>(0, "auto_next".to_owned(), &mut locals);
        proof {
            reveal_strlit("/program");
            reveal_strlit("/");
            reveal_strlit("/program/delay");
            reveal_strlit("/program/interpol");
            reveal_strlit("/program/auto_next");
            assert(d_addr =~= "/program/delay"@);
            assert(i_addr =~= "/program/interpol"@);
            assert(n_addr =~= "/program/auto_next"@);
            assert(locals@.len() == 3);
            assert(locals@[0] =~= (ParamView {
                addr: "/program/delay"@,
                values: seq![ValueView::Float(10_000_000i64)],
            }));
            assert(locals@[1] =~= (ParamView {
                addr: "/program/interpol"@,
                values: seq![ValueView::Int(0)],
            }));
            assert(locals@[2] =~= (ParamView {
                addr: "/program/auto_next"@,
                values: seq![ValueView::Int(0)],
            }));
            assert(locals@ =~= seq![
                (ParamView {
                    addr: "/program/delay"@,
                    values: seq![ValueView::Float(10_000_000i64)],
                }),
                (ParamView { addr: "/program/interpol"@, values: seq![ValueView::Int(0)] }),
                (ParamView { addr: "/program/auto_next"@, values: seq![ValueView::Int(0)] }),
            ]);
        }
        Self {
            programs: Vec::new(),
            locals,
            current: None,
            delay,
            interpol,
            auto_next,
        }
    }

    /// Snapshots `store` into a new program at id `p`, overwriting any
    /// program stored there.  Fade delay, easing curve and auto-chain
    /// target come from the current meta-parameter values; an auto-chain id
    /// of `0` means no chaining.
    pub fn add(&mut self, p: Pid, store: &ParameterStore)
        requires
            old(self).wf(),
        ensures
            final(self).wf(),
            final(self).spec_programs() == spec_table_insert(
                old(self).spec_programs(),
                p,
                ProgramView {
                    delay: old(self).spec_meta_delay(),
                    interpol: old(self).spec_meta_easing(),
                    auto_next: old(self).spec_meta_next(),
                    config: store@,
                },
            ),
            final(self).spec_locals() == old(self).spec_locals(),
            final(self).spec_current() == old(self).spec_current(),
            final(self).spec_meta_delay() == old(self).spec_meta_delay(),
            final(self).spec_meta_easing() == old(self).spec_meta_easing(),
            final(self).spec_meta_next() == old(self).spec_meta_next(),
            final(self).spec_delay_ep() == old(self).spec_delay_ep(),
            final(self).spec_interpol_ep() == old(self).spec_interpol_ep(),
            final(self).spec_auto_next_ep() == old(self).spec_auto_next_ep(),
    {
        let next_pid = self.auto_next.get(&self.locals);
        let next: Option<Pid> = if next_pid > 0 {
            Some(next_pid as u32)
        } else {
            None
        };
        let delay = self.delay.get(&self.locals);
        let inter_id = self.interpol.get(&self.locals);
        let prg = Program::new(delay.0, inter_id, next, store);
        self.table_insert(p, prg);
    }

    /// Starts the fade to program `p` from the current state of `store` at
    /// `time`.  An unknown id or misaligned snapshots cancel any running
    /// fade instead of installing one; the return value says whether a fade
    /// was installed.
    pub fn run(&mut self, p: Pid, time: i64, store: &ParameterStore) -> (ok: bool)
        requires
            old(self).wf(),
        ensures
            final(self).wf(),
            final(self).spec_programs() == old(self).spec_programs(),
            final(self).spec_locals() == old(self).spec_locals(),
            final(self).spec_current() == spec_make_switcher(
                old(self).spec_programs(),
                p,
                time,
                store@,
            ),
            ok == (spec_make_switcher(old(self).spec_programs(), p, time, store@) is Some),
            final(self).spec_meta_delay() == old(self).spec_meta_delay(),
            final(self).spec_meta_easing() == old(self).spec_meta_easing(),
            final(self).spec_meta_next() == old(self).spec_meta_next(),
            final(self).spec_delay_ep() == old(self).spec_delay_ep(),
            final(self).spec_interpol_ep() == old(self).spec_interpol_ep(),
            final(self).spec_auto_next_ep() == old(self).spec_auto_next_ep(),
    {
        let sw = match self.table_find(p) {
            Some(i) => ProgramSwitcher::new(&self.programs[i].1, time, store),
            None => None,
        };
        match sw {
            Some(sw) => {
                self.current = Some(Box::new(sw));
                true
            },
            None => {
                self.current = None;
                false
            },
        }
    }

    /// One engine tick: advances the running fade, if any, writing the
    /// interpolated snapshot into `store`.  When the fade completes it is
    /// replaced by the fade to its program's auto-chain target — started
    /// from the snapshot just reached — or cleared if there is none or it
    /// cannot be installed.
    ///
    /// The store must still hold every parameter the fade covers.
    pub fn update(&mut self, time: i64, store: &mut ParameterStore)
        requires
            old(self).wf(),
            old(store).wf(),
            match old(self).spec_current() {
                Some(sw) => sw.last.len() <= old(store)@.len(),
                None => true,
            },
        ensures
            final(self).wf(),
            final(store).wf(),
            final(self).spec_programs() == old(self).spec_programs(),
            final(self).spec_locals() == old(self).spec_locals(),
            final(self).spec_meta_delay() == old(self).spec_meta_delay(),
            final(self).spec_meta_easing() == old(self).spec_meta_easing(),
            final(self).spec_meta_next() == old(self).spec_meta_next(),
            final(self).spec_delay_ep() == old(self).spec_delay_ep(),
            final(self).spec_interpol_ep() == old(self).spec_interpol_ep(),
            final(self).spec_auto_next_ep() == old(self).spec_auto_next_ep(),
            match old(self).spec_current() {
                None => final(store)@ == old(store)@ && final(self).spec_current() is None,
                Some(sw) => {
                    let faded = spec_fade_store(old(store)@, sw, time as int);
                    let running = spec_progress(
                        time as int,
                        sw.start_time as int,
                        sw.prog.delay as int,
                    ) < COMPLETE_THRESHOLD as int;
                    &&& final(store)@ == faded
                    &&& running ==> final(self).spec_current() == old(self).spec_current()
                    &&& !running ==> match sw.prog.auto_next {
                        None => final(self).spec_current() is None,
                        Some(np) => final(self).spec_current() == spec_make_switcher(
                            old(self).spec_programs(),
                            np,
                            time,
                            faded,
                        ),
                    }
                },
            },
    {
        let running = match &self.current {
            Some(sw) => Some(sw.update(time, store)),
            None => None,
        };
        if let Some(running) = running {
            if !running {
                let next = match &self.current {
                    Some(sw) => sw.prog().auto_next(),
                    None => None,
                };
                self.current = match next {
                    Some(np) => match self.table_find(np) {
                        Some(i) => match ProgramSwitcher::new(&self.programs[i].1, time, store) {
                            Some(sw) => Some(Box::new(sw)),
                            None => None,
                        },
                        None => None,
                    },
                    None => None,
                };
            }
        }
    }
}

impl Default for ProgramManager {
    /// Same as [`ProgramManager::new`].
    fn default() -> (r: Self)
        ensures
            r.wf(),
            r.spec_programs() == Seq::<(Pid, ProgramView)>::empty(),
            r.spec_current() is None,
    {
        Self::new()
    }
}

impl ProgramManager {
    /// Routes one decoded control message: meta-parameter updates go to the
    /// manager's own store, the four command addresses trigger their
    /// commands.  `/program/add` and `/program/run` with an integer first
    /// value snapshot or start a program; `/program/store` and
    /// `/program/load` with a string first value return the persistence
    /// request for the host to perform.
    pub fn update_osc(&mut self, time: i64, store: &ParameterStore, msg: &ControlMessage) -> (act:
        Option<PersistAction>)
        requires
            old(self).wf(),
        ensures
            final(self).wf(),
            final(self).spec_locals() == spec_store_update(old(self).spec_locals(), msg@),
            final(self).spec_delay_ep() == old(self).spec_delay_ep(),
            final(self).spec_interpol_ep() == old(self).spec_interpol_ep(),
            final(self).spec_auto_next_ep() == old(self).spec_auto_next_ep(),
            final(self).spec_programs() == if msg@.addr == "/program/add"@ && msg_int_arg(msg@)
                is Some {
                spec_table_insert(
                    old(self).spec_programs(),
                    msg_int_arg(msg@)->Some_0 as u32,
                    ProgramView {
                        delay: final(self).spec_meta_delay(),
                        interpol: final(self).spec_meta_easing(),
                        auto_next: final(self).spec_meta_next(),
                        config: store@,
                    },
                )
            } else {
                old(self).spec_programs()
            },
            final(self).spec_current() == if msg@.addr == "/program/run"@ && msg_int_arg(msg@)
                is Some {
                spec_make_switcher(
                    final(self).spec_programs(),
                    msg_int_arg(msg@)->Some_0 as u32,
                    time,
                    store@,
                )
            } else {
                old(self).spec_current()
            },
            match act {
                None => !(msg@.addr == "/program/store"@ && msg_str_arg(msg@) is Some) && !(
                msg@.addr == "/program/load"@ && msg_str_arg(msg@) is Some),
                Some(PersistAction::Store(s)) => msg@.addr == "/program/store"@ && msg_str_arg(
                    msg@,
                ) == Some(s@),
                Some(PersistAction::Load(s)) => msg@.addr == "/program/load"@ && msg_str_arg(msg@)
                    == Some(s@),
            },
    {
        self.locals.update(msg);

        if msg.addr == "/program/add".to_owned() {
            if let Some(a) = &msg.args {
                if a.len() > 0 {
                    if let Value::Int(i) = &a[0] {
                        let p = #[verifier::truncate] (*i as u32);
                        self.add(p, store);
                    }
                }
            }
        }

        if msg.addr == "/program/run".to_owned() {
            if let Some(a) = &msg.args {
                if a.len() > 0 {
                    if let Value::Int(i) = &a[0] {
                        let p = #[verifier::truncate] (*i as u32);
                        self.run(p, time, store);
                    }
                }
            }
        }

        if msg.addr == "/program/store".to_owned() {
            if let Some(a) = &msg.args {
                if a.len() > 0 {
                    if let Value::Text(path) = &a[0] {
                        return Some(PersistAction::Store(path.clone()));
                    }
                }
            }
        }

        if msg.addr == "/program/load".to_owned() {
            if let Some(a) = &msg.args {
                if a.len() > 0 {
                    if let Value::Text(path) = &a[0] {
                        return Some(PersistAction::Load(path.clone()));
                    }
                }
            }
        }

        None
    }
}

impl ProgramManager {
    /// Encodes the whole program bank for persistence.
    pub fn store_bytes(&self) -> (r: Vec<u8>)
        ensures
            r@ == crate::codec::enc_table(self.spec_programs()),
    {
        let r = crate::codec::encode_table(&self.programs);
        proof {
            assert(crate::codec::table_view(self.programs@) =~= self.spec_programs());
        }
        r
    }

    /// Program persistence loses nothing: the bytes that `store_bytes`
    /// writes decode back to exactly the current program bank, so a
    /// store-then-load round trip restores every program with its
    /// addresses and values.
    pub proof fn lemma_store_load_round_trip(&self)
        requires
            self.wf(),
            crate::codec::table_bounded(self.spec_programs()),
        ensures
            crate::codec::dec_table(crate::codec::enc_table(self.spec_programs())) == Some(
                self.spec_programs(),
            ),
    {
        crate::codec::lemma_table_round_trip(self.spec_programs());
    }

    /// Replaces the program bank with the one decoded from `bytes`.  On a
    /// decode failure the bank is left unchanged and the error says that
    /// the bytes were rejected.
    pub fn load_bytes(&mut self, bytes: &Vec<u8>) -> (r: Result<(), LoadStoreError>)
        requires
            old(self).wf(),
        ensures
            final(self).wf(),
            final(self).spec_locals() == old(self).spec_locals(),
            final(self).spec_current() == old(self).spec_current(),
            final(self).spec_meta_delay() == old(self).spec_meta_delay(),
            final(self).spec_meta_easing() == old(self).spec_meta_easing(),
            final(self).spec_meta_next() == old(self).spec_meta_next(),
            final(self).spec_delay_ep() == old(self).spec_delay_ep(),
            final(self).spec_interpol_ep() == old(self).spec_interpol_ep(),
            final(self).spec_auto_next_ep() == old(self).spec_auto_next_ep(),
            match r {
                Ok(u) => crate::codec::dec_table(bytes@) == Some(final(self).spec_programs()),
                Err(e) => {
                    &&& e == LoadStoreError::DeserializeError
                    &&& crate::codec::dec_table(bytes@) is None
                    &&& final(self).spec_programs() == old(self).spec_programs()
                },
            },
    {
        match crate::codec::decode_table(bytes) {
            Some(t) => {
                self.programs = t;
                proof {
                    assert(crate::codec::table_view(self.programs@) =~= self.spec_programs());
                }
                Ok(())
            },
            None => Err(LoadStoreError::DeserializeError),
        }
    }
}

} // verus!
