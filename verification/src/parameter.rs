//! The central, path-addressed registry of live control values.
//!
//! A [`Parameter`] couples a canonical address with the values it currently
//! holds.  The [`ParameterStore`] owns all parameters; an address registers
//! once and keeps its integer handle for the life of the store.  Typed
//! [`ParameterEndpoint`]s read through a handle and fall back to a default
//! whenever the stored shape does not match.
use vstd::prelude::*;
use crate::osc_convert::FromOscType;
use crate::value::{DoubleMicro, FloatMicro, Value, ValueView};

verus! {

/// The mathematical shape of one parameter: its address and current values.
#[verifier::ext_equal]
pub ghost struct ParamView {
    pub addr: Seq<char>,
    pub values: Seq<ValueView>,
}

/// The values of a sequence of tagged values.
pub open spec fn values_view(v: Seq<Value>) -> Seq<ValueView> {
    v.map_values(|x: Value| x@)
}

/// The views of a sequence of parameters.
pub open spec fn params_view(v: Seq<Parameter>) -> Seq<ParamView> {
    v.map_values(|p: Parameter| p@)
}

/// Whether the parameter sequence holds an entry at address `a`.
pub open spec fn contains_addr(s: Seq<ParamView>, a: Seq<char>) -> bool {
    exists|i: int| 0 <= i < s.len() && s[i].addr == a
}

/// The position of the entry at address `a`; meaningful when addresses are
/// unique and `a` is present.
pub open spec fn addr_index(s: Seq<ParamView>, a: Seq<char>) -> int {
    choose|i: int| 0 <= i < s.len() && s[i].addr == a
}

/// Addresses are pairwise distinct.
pub open spec fn addrs_unique(s: Seq<ParamView>) -> bool {
    forall|i: int, j: int| 0 <= i < s.len() && 0 <= j < s.len() && i != j ==> s[i].addr != s[j].addr
}

/// The store contents after routing one control message: the entry at the
/// message's address is overwritten with the message's values; a message
/// without values or with an unknown address changes nothing.
pub open spec fn spec_store_update(s: Seq<ParamView>, msg: MsgView) -> Seq<ParamView> {
    match msg.args {
        Some(vals) => if contains_addr(s, msg.addr) {
            s.update(addr_index(s, msg.addr), ParamView { addr: msg.addr, values: vals })
        } else {
            s
        },
        None => s,
    }
}

/// One named, possibly multi-valued live control input.
#[derive(Clone, Debug)]
pub struct Parameter {
    pub values: Vec<Value>,
    pub address: String,
}

impl View for Parameter {
    type V = ParamView;

    open spec fn view(&self) -> ParamView {
        ParamView { addr: self.address@, values: values_view(self.values@) }
    }
}

impl Parameter {
    /// A new parameter at `path` holding `values`.
    pub fn new(path: String, values: Vec<Value>) -> (r: Self)
        ensures
            r@ == (ParamView { addr: path@, values: values_view(values@) }),
    {
        Self { values, address: path }
    }

    /// A structural copy whose contract states that the view is preserved.
    pub fn duplicate(&self) -> (r: Parameter)
        ensures
            r@ == self@,
    {
        let r = Parameter { values: dup_values(&self.values), address: self.address.clone() };
        proof {
            assert(r@.values =~= self@.values);
        }
        r
    }
}

/// A deep copy of a value vector, preserving every element's view.
pub fn dup_values(v: &Vec<Value>) -> (r: Vec<Value>)
    ensures
        values_view(r@) == values_view(v@),
        r@.len() == v@.len(),
{
    let mut r: Vec<Value> = Vec::new();
    let mut k: usize = 0;
    while k < v.len()
        invariant
            k <= v@.len(),
            r@.len() == k,
            forall|i: int| 0 <= i < k ==> r@[i]@ == v@[i]@,
        decreases v@.len() - k,
    {
        r.push(v[k].duplicate());
        k = k + 1;
    }
    proof {
        assert(values_view(r@) =~= values_view(v@));
    }
    r
}

/// A decoded control event: an address and the values sent to it.
pub struct ControlMessage {
    pub addr: String,
    pub args: Option<Vec<Value>>,
}

/// The mathematical shape of a control message.
pub ghost struct MsgView {
    pub addr: Seq<char>,
    pub args: Option<Seq<ValueView>>,
}

impl View for ControlMessage {
    type V = MsgView;

    open spec fn view(&self) -> MsgView {
        MsgView {
            addr: self.addr@,
            args: match self.args {
                Some(v) => Some(values_view(v@)),
                None => None,
            },
        }
    }
}

/// Stores every [`Parameter`] of the system; the position of a parameter in
/// the store is its stable handle.
///
/// Registration is idempotent: the same address always yields the same
/// handle, and the store only ever grows.  An address is resolved by a scan
/// of the parameter vector, linear in the number of parameters; handle-based
/// reads and writes stay constant-time, which is what the per-frame paths
/// use.
#[derive(Debug)]
pub struct ParameterStore {
    parameters: Vec<Parameter>,
}

impl View for ParameterStore {
    type V = Seq<ParamView>;

    closed spec fn view(&self) -> Seq<ParamView> {
        self.parameters@.map_values(|p: Parameter| p@)
    }
}

impl ParameterStore {
    /// Addresses are pairwise distinct, so an address determines its handle.
    pub open spec fn wf(&self) -> bool {
        addrs_unique(self@)
    }

    /// An empty store.
    pub fn new() -> (r: Self)
        ensures
            r@ == Seq::<ParamView>::empty(),
            r.wf(),
    {
        let r = Self { parameters: Vec::new() };
        proof {
            assert(r@ =~= Seq::<ParamView>::empty());
        }
        r
    }

    /// How many parameters have been registered.
    pub fn size(&self) -> (r: usize)
        ensures
            r == self@.len(),
    {
        self.parameters.len()
    }

    /// The handle of the parameter at `path`, if one is registered.
    fn find_index(&self, path: &String) -> (r: Option<usize>)
        ensures
            match r {
                Some(i) => i < self@.len() && self@[i as int].addr == path@,
                None => forall|i: int| 0 <= i < self@.len() ==> self@[i].addr != path@,
            },
    {
        let mut k: usize = 0;
        while k < self.parameters.len()
            invariant
                k <= self@.len(),
                self@.len() == self.parameters@.len(),
                forall|i: int| 0 <= i < k ==> self@[i].addr != path@,
            decreases self@.len() - k,
        {
            let p = &self.parameters[k];
            if p.address == *path {
                assert(self@[k as int].addr == path@);
                return Some(k);
            }
            k = k + 1;
        }
        None
    }

    /// Registers `par` and returns its handle.  A fresh address is appended;
    /// an address registered before returns the existing handle and leaves
    /// the store unchanged.
    pub fn insert_parameter(&mut self, par: Parameter) -> (idx: usize)
        requires
            old(self).wf(),
        ensures
            final(self).wf(),
            idx < final(self)@.len(),
            final(self)@[idx as int].addr == par@.addr,
            (exists|i: int| 0 <= i < old(self)@.len() && old(self)@[i].addr == par@.addr)
                ==> final(self)@ == old(self)@,
            !(exists|i: int| 0 <= i < old(self)@.len() && old(self)@[i].addr == par@.addr) ==> {
                &&& final(self)@ == old(self)@.push(par@)
                &&& idx == old(self)@.len()
                &&& final(self)@[idx as int] == par@
            },
    {
        match self.find_index(&par.address) {
            Some(i) => i,
            None => {
                let idx = self.parameters.len();
                self.parameters.push(par);
                proof {
                    assert(self@ =~= old(self)@.push(par@));
                }
                idx
            },
        }
    }

    /// The values held at handle `token`, or `None` for a handle that was
    /// never issued.
    pub fn get_value(&self, token: usize) -> (r: Option<Vec<Value>>)
        ensures
            match r {
                Some(v) => token < self@.len() && values_view(v@) == self@[token as int].values,
                None => token >= self@.len(),
            },
    {
        if token < self.parameters.len() {
            Some(dup_values(&self.parameters[token].values))
        } else {
            None
        }
    }

    /// The values held at `path`, or `None` for an unknown address.
    pub fn get_path_value(&self, path: &String) -> (r: Option<Vec<Value>>)
        ensures
            match r {
                Some(v) => exists|i: int|
                    0 <= i < self@.len() && self@[i].addr == path@ && values_view(v@)
                        == self@[i].values,
                None => forall|i: int| 0 <= i < self@.len() ==> self@[i].addr != path@,
            },
    {
        match self.find_index(path) {
            Some(i) => self.get_value(i),
            None => None,
        }
    }

    /// Routes a control message to the parameter with the matching address
    /// and overwrites that parameter's values.  Messages without values and
    /// messages for unknown addresses are dropped.
    pub fn update(&mut self, msg: &ControlMessage)
        requires
            old(self).wf(),
        ensures
            final(self).wf(),
            final(self)@ == spec_store_update(old(self)@, msg@),
            msg@.args is None ==> final(self)@ == old(self)@,
            (forall|i: int| 0 <= i < old(self)@.len() ==> old(self)@[i].addr != msg@.addr)
                ==> final(self)@ == old(self)@,
            forall|i: int|
                0 <= i < old(self)@.len() && old(self)@[i].addr == msg@.addr && msg@.args is Some
                    ==> final(self)@ == old(self)@.update(
                    i,
                    ParamView { addr: msg@.addr, values: msg@.args.unwrap() },
                ),
    {
        if let Some(arg) = &msg.args {
            if let Some(i) = self.find_index(&msg.addr) {
                let ghost pre = self@;
                self.parameters[i].values = dup_values(arg);
                proof {
                    assert(self@ =~= pre.update(
                        i as int,
                        ParamView { addr: msg@.addr, values: msg@.args.unwrap() },
                    ));
                    assert(addr_index(pre, msg@.addr) == i as int);
                }
            }
        }
    }

    /// Overwrites the values at an issued handle; used by the interpolation
    /// engine, which works handle by handle.
    pub fn set_value(&mut self, token: usize, value: Vec<Value>)
        requires
            old(self).wf(),
            token < old(self)@.len(),
        ensures
            final(self).wf(),
            final(self)@ == old(self)@.update(
                token as int,
                ParamView { addr: old(self)@[token as int].addr, values: values_view(value@) },
            ),
    {
        let ghost pre = self@;
        self.parameters[token].values = value;
        proof {
            assert(self@ =~= pre.update(
                token as int,
                ParamView { addr: pre[token as int].addr, values: values_view(value@) },
            ));
        }
    }

    /// A full deep copy of all parameters, in handle order; seeds programs
    /// and switchers.
    pub fn config_copy(&self) -> (r: Vec<Parameter>)
        ensures
            params_view(r@) == self@,
            r@.len() == self@.len(),
    {
        let mut r: Vec<Parameter> = Vec::new();
        let mut k: usize = 0;
        while k < self.parameters.len()
            invariant
                k <= self.parameters@.len(),
                self@.len() == self.parameters@.len(),
                r@.len() == k,
                forall|i: int| 0 <= i < k ==> r@[i]@ == self@[i],
            decreases self.parameters@.len() - k,
        {
            r.push(self.parameters[k].duplicate());
            k = k + 1;
        }
        proof {
            assert(params_view(r@) =~= self@);
        }
        r
    }
}

/// A deep copy of a parameter vector, preserving every element's view.
pub fn dup_params(v: &Vec<Parameter>) -> (r: Vec<Parameter>)
    ensures
        params_view(r@) == params_view(v@),
        r@.len() == v@.len(),
{
    let mut r: Vec<Parameter> = Vec::new();
    let mut k: usize = 0;
    while k < v.len()
        invariant
            k <= v@.len(),
            r@.len() == k,
            forall|i: int| 0 <= i < k ==> r@[i]@ == v@[i]@,
        decreases v@.len() - k,
    {
        r.push(v[k].duplicate());
        k = k + 1;
    }
    proof {
        assert(params_view(r@) =~= params_view(v@));
    }
    r
}

impl Default for ParameterStore {
    /// Same as [`ParameterStore::new`]: an empty store.
    fn default() -> (r: Self)
        ensures
            r@ == Seq::<ParamView>::empty(),
            r.wf(),
    {
        Self::new()
    }
}

/// Read access to one parameter slot, with a default fallback.
///
/// `spec_len`, `spec_get` and `spec_get_vec` give the mathematical meaning of
/// the reads; the executable methods are bound to them.  A read never fails:
/// a missing slot, an empty or wrongly shaped value vector, or a conversion
/// failure all fall back to the default.
pub trait ParameterEnd<T: FromOscType>: Sized {
    /// The declared number of values of this slot.
    spec fn spec_len(&self) -> nat;

    /// The value a scalar read returns on `store`.
    spec fn spec_get(&self, store: ParameterStore) -> T::V;

    /// The values a vector read returns on `store`; always `spec_len` long.
    spec fn spec_get_vec(&self, store: ParameterStore) -> Seq<T::V>;

    fn len(&self) -> (r: usize)
        ensures
            r as nat == self.spec_len(),
    ;

    fn is_empty(&self) -> (r: bool)
        ensures
            r == (self.spec_len() == 0),
    ;

    /// Reads the first value of the bound slot, converted to `T`.
    fn get(&self, store: &ParameterStore) -> (r: T)
        ensures
            r@ == self.spec_get(*store),
    ;

    /// Reads the whole bound slot.  All-or-nothing: unless every stored
    /// value converts and the length matches, every returned element is the
    /// default.
    fn get_vec(&self, store: &ParameterStore) -> (r: Vec<T>)
        ensures
            r@.map_values(|x: T| x@) == self.spec_get_vec(*store),
            r@.len() == self.spec_len(),
    ;

}

/// A typed accessor bound to one slot of a [`ParameterStore`].
#[derive(Clone)]
pub struct ParameterEndpoint<T> {
    pub length: usize,
    pub default: T,
    pub p_index: usize,
}

impl<T: FromOscType> ParameterEndpoint<T> {
    /// Registers `path` as a vector-valued parameter of `length` copies of
    /// `default` and returns the endpoint bound to its slot.  Registration
    /// is idempotent: an address registered before keeps its handle and its
    /// current values, and the store does not grow.
    pub fn new_len(default: T, length: usize, path: String, store: &mut ParameterStore) -> (r:
        Self)
        requires
            old(store).wf(),
        ensures
            final(store).wf(),
            r.length == length,
            r.default@ == default@,
            r.p_index < final(store)@.len(),
            final(store)@[r.p_index as int].addr == path@,
            (exists|i: int| 0 <= i < old(store)@.len() && old(store)@[i].addr == path@)
                ==> final(store)@ == old(store)@,
            !(exists|i: int| 0 <= i < old(store)@.len() && old(store)@[i].addr == path@) ==> {
                &&& r.p_index == old(store)@.len()
                &&& final(store)@ == old(store)@.push(
                    ParamView {
                        addr: path@,
                        values: Seq::new(length as nat, |i: int| T::spec_into_osc(default@)),
                    },
                )
            },
    {
        let mut values: Vec<Value> = Vec::new();
        let mut k: usize = 0;
        while k < length
            invariant
                k <= length,
                values@.len() == k,
                forall|i: int| 0 <= i < k ==> values@[i]@ == T::spec_into_osc(default@),
            decreases length - k,
        {
            values.push(default.dup().into_osc());
            k = k + 1;
        }
        let par = Parameter::new(path, values);
        proof {
            assert(par@.values =~= Seq::new(
                length as nat,
                |i: int| T::spec_into_osc(default@),
            ));
        }
        let p_index = store.insert_parameter(par);
        Self { length, default, p_index }
    }

    /// Registers `path` as a single-valued parameter.
    pub fn new(default: T, path: String, store: &mut ParameterStore) -> (r: Self)
        requires
            old(store).wf(),
        ensures
            final(store).wf(),
            r.length == 1,
            r.default@ == default@,
            r.p_index < final(store)@.len(),
            final(store)@[r.p_index as int].addr == path@,
            (exists|i: int| 0 <= i < old(store)@.len() && old(store)@[i].addr == path@)
                ==> final(store)@ == old(store)@,
            !(exists|i: int| 0 <= i < old(store)@.len() && old(store)@[i].addr == path@) ==> {
                &&& r.p_index == old(store)@.len()
                &&& final(store)@ == old(store)@.push(
                    ParamView {
                        addr: path@,
                        values: Seq::new(1, |i: int| T::spec_into_osc(default@)),
                    },
                )
            },
    {
        Self::new_len(default, 1, path, store)
    }

    /// A vector of `length` copies of the default.
    fn default_vec(&self) -> (r: Vec<T>)
        ensures
            r@.len() == self.length,
            r@.map_values(|x: T| x@) == Seq::new(self.length as nat, |i: int| self.default@),
    {
        let mut r: Vec<T> = Vec::new();
        let mut k: usize = 0;
        while k < self.length
            invariant
                k <= self.length,
                r@.len() == k,
                forall|i: int| 0 <= i < k ==> r@[i]@ == self.default@,
            decreases self.length - k,
        {
            r.push(self.default.dup());
            k = k + 1;
        }
        proof {
            assert(r@.map_values(|x: T| x@) =~= Seq::new(
                self.length as nat,
                |i: int| self.default@,
            ));
        }
        r
    }
}

impl<T: FromOscType> ParameterEnd<T> for ParameterEndpoint<T> {
    open spec fn spec_len(&self) -> nat {
        self.length as nat
    }

    open spec fn spec_get(&self, store: ParameterStore) -> T::V {
        self.spec_get_view(store@)
    }

    open spec fn spec_get_vec(&self, store: ParameterStore) -> Seq<T::V> {
        self.spec_get_vec_view(store@)
    }

    fn len(&self) -> (r: usize) {
        self.length
    }

    fn is_empty(&self) -> (r: bool) {
        self.length == 0
    }

    fn get(&self, store: &ParameterStore) -> (r: T) {
        if let Some(values) = store.get_value(self.p_index) {
            if values.len() > 0 {
                proof {
                    assert(values@[0]@ == store@[self.p_index as int].values[0]);
                }
                if let Some(val) = T::from_osc(&values[0]) {
                    return val;
                }
            }
        }
        self.default.dup()
    }

    fn get_vec(&self, store: &ParameterStore) -> (r: Vec<T>) {
        if let Some(types) = store.get_value(self.p_index) {
            if self.length == types.len() {
                let ghost stored = store@[self.p_index as int].values;
                let mut out: Vec<T> = Vec::new();
                let mut k: usize = 0;
                while k < types.len()
                    invariant
                        k <= types@.len(),
                        out@.len() == k,
                        self.p_index < store@.len(),
                        stored == store@[self.p_index as int].values,
                        types@.len() == stored.len(),
                        self.length == types@.len(),
                        forall|i: int| 0 <= i < types@.len() ==> types@[i]@ == stored[i],
                        forall|i: int|
                            0 <= i < k ==> T::spec_from_osc(stored[i]) == Some(out@[i]@),
                    decreases types@.len() - k,
                {
                    match T::from_osc(&types[k]) {
                        Some(v) => out.push(v),
                        None => {
                            proof {
                                assert(T::spec_from_osc(
                                    store@[self.p_index as int].values[k as int],
                                ) is None);
                                assert(self.spec_get_vec(*store) =~= Seq::new(
                                    self.length as nat,
                                    |i: int| self.default@,
                                ));
                            }
                            return self.default_vec();
                        },
                    }
                    k = k + 1;
                }
                proof {
                    assert(out@.map_values(|x: T| x@) =~= self.spec_get_vec(*store));
                }
                return out;
            }
        }
        self.default_vec()
    }

}

impl<T: FromOscType> ParameterEndpoint<T> {
    /// The value a scalar read returns when the store holds `s`.
    pub open spec fn spec_get_view(&self, s: Seq<ParamView>) -> T::V {
        if self.p_index < s.len() && s[self.p_index as int].values.len() > 0 {
            match T::spec_from_osc(s[self.p_index as int].values[0]) {
                Some(v) => v,
                None => self.default@,
            }
        } else {
            self.default@
        }
    }

    /// The values a vector read returns when the store holds `s`.
    pub open spec fn spec_get_vec_view(&self, s: Seq<ParamView>) -> Seq<T::V> {
        if self.p_index < s.len() && s[self.p_index as int].values.len() == self.length && (
        forall|i: int|
            0 <= i < self.length ==> T::spec_from_osc(
                s[self.p_index as int].values[i],
            ) is Some) {
            Seq::new(
                self.length as nat,
                |i: int| T::spec_from_osc(s[self.p_index as int].values[i])->Some_0,
            )
        } else {
            Seq::new(self.length as nat, |i: int| self.default@)
        }
    }

    /// Binds this endpoint to a store, so a value can be pulled out of the
    /// pair with a plain conversion.
    pub fn bind<'a>(&'a self, store: &'a ParameterStore) -> (h: ParameterHandle<'a, T>)
        ensures
            h.parameter == self,
            h.store == store,
    {
        ParameterHandle { parameter: self, store }
    }
}

/// An endpoint bound together with the store it reads from, so a value can
/// be pulled out with a plain conversion.
pub struct ParameterHandle<'a, T> {
    pub parameter: &'a ParameterEndpoint<T>,
    pub store: &'a ParameterStore,
}

impl<'a, T: FromOscType> ParameterHandle<'a, T> {
    /// The scalar read of the bound endpoint on the bound store.
    pub fn value(&self) -> (r: T)
        ensures
            r@ == self.parameter.spec_get(*self.store),
    {
        self.parameter.get(self.store)
    }

    /// The vector read of the bound endpoint on the bound store.
    pub fn values(&self) -> (r: Vec<T>)
        ensures
            r@.map_values(|x: T| x@) == self.parameter.spec_get_vec(*self.store),
            r@.len() == self.parameter.spec_len(),
    {
        self.parameter.get_vec(self.store)
    }
}

impl<'a> From<ParameterHandle<'a, i32>> for i32 {
    fn from(h: ParameterHandle<'a, i32>) -> (r: i32) {
        h.parameter.get(h.store)
    }
}

impl<'a> vstd::std_specs::convert::FromSpecImpl<ParameterHandle<'a, i32>> for i32 {
    open spec fn obeys_from_spec() -> bool {
        true
    }

    open spec fn from_spec(h: ParameterHandle<'a, i32>) -> i32 {
        h.parameter.spec_get(*h.store)
    }
}

impl<'a> From<ParameterHandle<'a, FloatMicro>> for FloatMicro {
    fn from(h: ParameterHandle<'a, FloatMicro>) -> (r: FloatMicro) {
        h.parameter.get(h.store)
    }
}

impl<'a> vstd::std_specs::convert::FromSpecImpl<ParameterHandle<'a, FloatMicro>> for FloatMicro {
    open spec fn obeys_from_spec() -> bool {
        true
    }

    open spec fn from_spec(h: ParameterHandle<'a, FloatMicro>) -> FloatMicro {
        h.parameter.spec_get(*h.store)
    }
}

impl<'a> From<ParameterHandle<'a, i64>> for i64 {
    fn from(h: ParameterHandle<'a, i64>) -> (r: i64) {
        h.parameter.get(h.store)
    }
}

impl<'a> vstd::std_specs::convert::FromSpecImpl<ParameterHandle<'a, i64>> for i64 {
    open spec fn obeys_from_spec() -> bool {
        true
    }

    open spec fn from_spec(h: ParameterHandle<'a, i64>) -> i64 {
        h.parameter.spec_get(*h.store)
    }
}

impl<'a> From<ParameterHandle<'a, DoubleMicro>> for DoubleMicro {
    fn from(h: ParameterHandle<'a, DoubleMicro>) -> (r: DoubleMicro) {
        h.parameter.get(h.store)
    }
}

impl<'a> vstd::std_specs::convert::FromSpecImpl<ParameterHandle<'a, DoubleMicro>> for DoubleMicro {
    open spec fn obeys_from_spec() -> bool {
        true
    }

    open spec fn from_spec(h: ParameterHandle<'a, DoubleMicro>) -> DoubleMicro {
        h.parameter.spec_get(*h.store)
    }
}

/// Builds endpoints under a common path prefix, registering each parameter
/// in the store as it goes.
pub struct ParameterFactory {
    path: String,
}

impl ParameterFactory {
    /// The current path prefix of the factory.
    pub closed spec fn spec_path(&self) -> Seq<char> {
        self.path@
    }

    /// A factory whose endpoints live under `path`.
    pub fn new(path: String) -> (r: Self)
        ensures
            r.spec_path() == path@,
    {
        Self { path }
    }

    /// The address the next build of `name` derives: `"{prefix}/{name}"`.
    pub open spec fn spec_child(&self, name: Seq<char>) -> Seq<char> {
        self.spec_path() + "/"@ + name
    }

    fn child_path(&self, name: &String) -> (r: String)
        ensures
            r@ == self.spec_child(name@),
    {
        let mut full = self.path.clone();
        full.append("/");
        full.append(name.as_str());
        full
    }

    /// Builds a single-valued endpoint for `"{prefix}/{name}"` with the
    /// type's standard default.
    pub fn build<T: FromOscType>(&mut self, name: String, store: &mut ParameterStore) -> (r:
        ParameterEndpoint<T>)
        requires
            old(store).wf(),
        ensures
            final(store).wf(),
            final(self).spec_path() == old(self).spec_path(),
            r.length == 1,
            r.default@ == T::spec_default(),
            r.p_index < final(store)@.len(),
            final(store)@[r.p_index as int].addr == old(self).spec_child(name@),
            (exists|i: int|
                0 <= i < old(store)@.len() && old(store)@[i].addr == old(self).spec_child(name@))
                ==> final(store)@ == old(store)@,
            !(exists|i: int|
                0 <= i < old(store)@.len() && old(store)@[i].addr == old(self).spec_child(name@))
                ==> {
                &&& r.p_index == old(store)@.len()
                &&& final(store)@ == old(store)@.push(
                    ParamView {
                        addr: old(self).spec_child(name@),
                        values: Seq::new(1, |i: int| T::spec_into_osc(T::spec_default())),
                    },
                )
            },
    {
        let path = self.child_path(&name);
        ParameterEndpoint::new(T::default_value(), path, store)
    }

    /// Builds a single-valued endpoint for `"{prefix}/{name}"` with the
    /// given default.
    pub fn build_default<T: FromOscType>(
        &mut self,
        default: T,
        name: String,
        store: &mut ParameterStore,
    ) -> (r: ParameterEndpoint<T>)
        requires
            old(store).wf(),
        ensures
            final(store).wf(),
            final(self).spec_path() == old(self).spec_path(),
            r.length == 1,
            r.default@ == default@,
            r.p_index < final(store)@.len(),
            final(store)@[r.p_index as int].addr == old(self).spec_child(name@),
            (exists|i: int|
                0 <= i < old(store)@.len() && old(store)@[i].addr == old(self).spec_child(name@))
                ==> final(store)@ == old(store)@,
            !(exists|i: int|
                0 <= i < old(store)@.len() && old(store)@[i].addr == old(self).spec_child(name@))
                ==> {
                &&& r.p_index == old(store)@.len()
                &&& final(store)@ == old(store)@.push(
                    ParamView {
                        addr: old(self).spec_child(name@),
                        values: Seq::new(1, |i: int| T::spec_into_osc(default@)),
                    },
                )
            },
    {
        let path = self.child_path(&name);
        ParameterEndpoint::new(default, path, store)
    }

    /// Builds a vector-valued endpoint for `"{prefix}/{name}"` with `length`
    /// copies of the given default.
    pub fn build_array_default<T: FromOscType>(
        &mut self,
        default: T,
        length: usize,
        name: String,
        store: &mut ParameterStore,
    ) -> (r: ParameterEndpoint<T>)
        requires
            old(store).wf(),
        ensures
            final(store).wf(),
            final(self).spec_path() == old(self).spec_path(),
            r.length == length,
            r.default@ == default@,
            r.p_index < final(store)@.len(),
            final(store)@[r.p_index as int].addr == old(self).spec_child(name@),
            (exists|i: int|
                0 <= i < old(store)@.len() && old(store)@[i].addr == old(self).spec_child(name@))
                ==> final(store)@ == old(store)@,
            !(exists|i: int|
                0 <= i < old(store)@.len() && old(store)@[i].addr == old(self).spec_child(name@))
                ==> {
                &&& r.p_index == old(store)@.len()
                &&& final(store)@ == old(store)@.push(
                    ParamView {
                        addr: old(self).spec_child(name@),
                        values: Seq::new(length as nat, |i: int| T::spec_into_osc(default@)),
                    },
                )
            },
    {
        let path = self.child_path(&name);
        ParameterEndpoint::new_len(default, length, path, store)
    }

    /// Redirects subsequent builds to a new prefix; endpoints already built
    /// keep their addresses.
    pub fn path(&mut self, path: String)
        ensures
            final(self).spec_path() == path@,
    {
        self.path = path;
    }
}

} // verus!
