//! The client registry and the per-call context.

use vstd::prelude::*;

use crate::keymap::KeyMap;
use crate::kwargs::Kwargs;
use crate::types::Injected;
use crate::types::InjectedCallback;
use crate::types::InjectedType;
use crate::types::InjectedView;
use crate::types::descriptor_list_view;
use crate::visitor::Callback;
use crate::visitor::CallbackView;
use crate::visitor::spec_visit_callback;
use crate::values::DiError;
use crate::values::DiErrorView;
use crate::values::Value;

verus! {

/// The long-lived registry: type dependencies, callback overrides, and the
/// cache of extracted descriptor lists, all keyed by host identity hashes.
pub struct Client {
    callback_overrides: KeyMap<i64>,
    descriptors: KeyMap<Vec<(String, Injected)>>,
    introspect_annotations: bool,
    type_dependencies: KeyMap<Value>,
}

impl Client {
    /// The registered type dependencies: type key to value.
    pub closed spec fn type_deps(&self) -> Map<i64, Value> {
        self.type_dependencies@
    }

    /// The registered callback overrides: callable key to override key.
    pub closed spec fn overrides(&self) -> Map<i64, i64> {
        self.callback_overrides@
    }

    /// The descriptor cache: callable key to extracted descriptor list.
    pub closed spec fn descriptor_cache(&self) -> Map<i64, Seq<(Seq<char>, InjectedView)>> {
        self.descriptors@.map_values(|v: Vec<(String, Injected)>| descriptor_list_view(v@))
    }

    /// Whether annotations are introspected when descriptors are built.
    pub closed spec fn spec_introspect_annotations(&self) -> bool {
        self.introspect_annotations
    }

    pub fn new(introspect_annotations: bool) -> (r: Self)
        ensures
            r.type_deps() == Map::<i64, Value>::empty(),
            r.overrides() == Map::<i64, i64>::empty(),
            r.descriptor_cache() == Map::<i64, Seq<(Seq<char>, InjectedView)>>::empty(),
            r.spec_introspect_annotations() == introspect_annotations,
    {
        let r = Client {
            callback_overrides: KeyMap::new(),
            descriptors: KeyMap::new(),
            introspect_annotations,
            type_dependencies: KeyMap::new(),
        };
        proof {
            assert(r.descriptor_cache() =~= Map::<i64, Seq<(Seq<char>, InjectedView)>>::empty());
        }
        r
    }

    /// Registers (or replaces) the value a type key resolves to.
    pub fn set_type_dependency(&mut self, type_key: i64, value: Value)
        ensures
            final(self).type_deps() == old(self).type_deps().insert(type_key, value),
            final(self).overrides() == old(self).overrides(),
            final(self).descriptor_cache() == old(self).descriptor_cache(),
            final(self).spec_introspect_annotations() == old(self).spec_introspect_annotations(),
    {
        self.type_dependencies.insert(type_key, value);
    }

    /// The client-level value for a type key, if one is registered.
    pub fn get_type_dependency_rust(&self, type_key: i64) -> (r: Option<Value>)
        ensures
            r == if self.type_deps().contains_key(type_key) {
                Some(self.type_deps()[type_key])
            } else {
                None::<Value>
            },
    {
        match self.type_dependencies.get(type_key) {
            Some(v) => Some(*v),
            None => None,
        }
    }

    /// The client-level value for a type key, else the given default, else
    /// the undefined sentinel.
    pub fn get_type_dependency(&self, type_key: i64, default: Option<Value>) -> (r: Value)
        ensures
            r == if self.type_deps().contains_key(type_key) {
                self.type_deps()[type_key]
            } else {
                match default {
                    Some(d) => d,
                    None => Value::Undefined,
                }
            },
    {
        match self.type_dependencies.get(type_key) {
            Some(v) => *v,
            None => match default {
                Some(d) => d,
                None => Value::Undefined,
            },
        }
    }

    /// Removes a type dependency; fails loudly, leaving every registry
    /// unchanged, if the key was never registered.
    pub fn remove_type_dependency(&mut self, type_key: i64) -> (r: Result<(), DiError>)
        ensures
            match r {
                Ok(()) => old(self).type_deps().contains_key(type_key) && final(self).type_deps()
                    == old(self).type_deps().remove(type_key),
                Err(e) => !old(self).type_deps().contains_key(type_key) && e@
                    == (crate::values::DiErrorView::KeyNotFound { key: type_key })
                    && final(self).type_deps() == old(self).type_deps(),
            },
            final(self).overrides() == old(self).overrides(),
            final(self).descriptor_cache() == old(self).descriptor_cache(),
            final(self).spec_introspect_annotations() == old(self).spec_introspect_annotations(),
    {
        match self.type_dependencies.remove(type_key) {
            Some(_) => Ok(()),
            None => Err(DiError::KeyNotFound { key: type_key }),
        }
    }

    /// Registers (or replaces) the override dispatched in place of a
    /// callable.
    pub fn set_callback_override(&mut self, callback: i64, override_callback: i64)
        ensures
            final(self).overrides() == old(self).overrides().insert(callback, override_callback),
            final(self).type_deps() == old(self).type_deps(),
            final(self).descriptor_cache() == old(self).descriptor_cache(),
            final(self).spec_introspect_annotations() == old(self).spec_introspect_annotations(),
    {
        self.callback_overrides.insert(callback, override_callback);
    }

    /// The override registered for a callable, if any.
    pub fn get_callback_override(&self, callback: i64) -> (r: Option<i64>)
        ensures
            r == if self.overrides().contains_key(callback) {
                Some(self.overrides()[callback])
            } else {
                None::<i64>
            },
    {
        match self.callback_overrides.get(callback) {
            Some(v) => Some(*v),
            None => None,
        }
    }

    /// Removes a callback override; fails loudly, leaving every registry
    /// unchanged, if none was registered.
    pub fn remove_callback_override(&mut self, callback: i64) -> (r: Result<(), DiError>)
        ensures
            match r {
                Ok(()) => old(self).overrides().contains_key(callback) && final(self).overrides()
                    == old(self).overrides().remove(callback),
                Err(e) => !old(self).overrides().contains_key(callback) && e@
                    == (crate::values::DiErrorView::KeyNotFound { key: callback })
                    && final(self).overrides() == old(self).overrides(),
            },
            final(self).type_deps() == old(self).type_deps(),
            final(self).descriptor_cache() == old(self).descriptor_cache(),
            final(self).spec_introspect_annotations() == old(self).spec_introspect_annotations(),
    {
        match self.callback_overrides.remove(callback) {
            Some(_) => Ok(()),
            None => Err(DiError::KeyNotFound { key: callback }),
        }
    }
}

/// The per-call resolution scope: a result cache and context-local type
/// overrides layered over the client's registry.  One is created fresh for
/// each top-level call and never shared across calls.
pub struct BasicContext {
    result_cache: KeyMap<Value>,
    special_cased_types: KeyMap<Value>,
}

impl BasicContext {
    /// The memoized results cached within this call.
    pub closed spec fn results(&self) -> Map<i64, Value> {
        self.result_cache@
    }

    /// The context-local type overrides shadowing the client registry.
    pub closed spec fn special_cases(&self) -> Map<i64, Value> {
        self.special_cased_types@
    }

    /// The layered lookup: the context-local override for a type key if one
    /// is set, else the client-level dependency.
    pub open spec fn spec_lookup(&self, client: Client, type_key: i64) -> Option<Value> {
        if self.special_cases().contains_key(type_key) {
            Some(self.special_cases()[type_key])
        } else if client.type_deps().contains_key(type_key) {
            Some(client.type_deps()[type_key])
        } else {
            None
        }
    }

    pub fn new() -> (r: Self)
        ensures
            r.results() == Map::<i64, Value>::empty(),
            r.special_cases() == Map::<i64, Value>::empty(),
    {
        BasicContext { result_cache: KeyMap::new(), special_cased_types: KeyMap::new() }
    }

    /// Memoizes a value for a callable within this call; never consulted by
    /// dispatch itself.
    pub fn cache_result(&mut self, callback: i64, value: Value)
        ensures
            final(self).results() == old(self).results().insert(callback, value),
            final(self).special_cases() == old(self).special_cases(),
    {
        self.result_cache.insert(callback, value);
    }

    /// The memoized value for a callable, else the given default, else the
    /// host's null object.
    pub fn get_cached_result(&self, callback: i64, default: Option<Value>) -> (r: Value)
        ensures
            r == if self.results().contains_key(callback) {
                self.results()[callback]
            } else {
                match default {
                    Some(d) => d,
                    None => Value::Null,
                }
            },
    {
        match self.result_cache.get(callback) {
            Some(v) => *v,
            None => match default {
                Some(d) => d,
                None => Value::Null,
            },
        }
    }

    /// Sets a context-local override that shadows the client's dependency
    /// for the same type key within this context only.
    pub fn set_type_special_case(&mut self, type_key: i64, value: Value)
        ensures
            final(self).special_cases() == old(self).special_cases().insert(type_key, value),
            final(self).results() == old(self).results(),
    {
        self.special_cased_types.insert(type_key, value);
    }

    /// The layered value for a type key, if either map holds one.
    pub fn get_type_dependency_rust(&self, client: &Client, type_key: i64) -> (r: Option<Value>)
        ensures
            r == self.spec_lookup(*client, type_key),
    {
        match self.special_cased_types.get(type_key) {
            Some(v) => Some(*v),
            None => client.get_type_dependency_rust(type_key),
        }
    }

    /// The layered value for a type key, else the given default, else the
    /// undefined sentinel.
    pub fn get_type_dependency(&self, client: &Client, type_key: i64, default: Option<Value>) -> (r:
        Value)
        ensures
            r == match self.spec_lookup(*client, type_key) {
                Some(v) => v,
                None => match default {
                    Some(d) => d,
                    None => Value::Undefined,
                },
            },
    {
        match self.get_type_dependency_rust(client, type_key) {
            Some(v) => v,
            None => match default {
                Some(d) => d,
                None => Value::Undefined,
            },
        }
    }
}

// --- Descriptor building and call dispatch -------------------------------

fn clone_ids(v: &Vec<i64>) -> (r: Vec<i64>)
    ensures
        r@ == v@,
{
    let n = v.len();
    let mut r: Vec<i64> = Vec::new();
    let mut i: usize = 0;
    while i < n
        invariant
            n == v@.len(),
            i <= n,
            r@ == v@.take(i as int),
        decreases n - i,
    {
        r.push(v[i]);
        proof {
            assert(v@.take(i as int + 1) =~= v@.take(i as int).push(v@[i as int]));
        }
        i += 1;
    }
    proof {
        assert(v@.take(n as int) =~= v@);
    }
    r
}

fn clone_injected(d: &Injected) -> (r: Injected)
    ensures
        r@ == d@,
{
    match d {
        Injected::Callback(c) => Injected::Callback(InjectedCallback { callback: c.callback }),
        Injected::Type(t) => Injected::Type(
            InjectedType {
                default: t.default,
                repr_type: t.repr_type.clone(),
                type_ids: clone_ids(&t.type_ids),
            },
        ),
    }
}

fn clone_descriptor_list(v: &Vec<(String, Injected)>) -> (r: Vec<(String, Injected)>)
    ensures
        descriptor_list_view(r@) == descriptor_list_view(v@),
{
    let n = v.len();
    let mut r: Vec<(String, Injected)> = Vec::new();
    let mut i: usize = 0;
    while i < n
        invariant
            n == v@.len(),
            i <= n,
            r@.len() == i,
            forall|j: int|
                0 <= j < i ==> (#[trigger] r@[j]).0@ == v@[j].0@ && r@[j].1@ == v@[j].1@,
        decreases n - i,
    {
        let name = v[i].0.clone();
        let d = clone_injected(&v[i].1);
        r.push((name, d));
        i += 1;
    }
    proof {
        assert(descriptor_list_view(r@) =~= descriptor_list_view(v@));
    }
    r
}

/// The cache, the callable and the result after one descriptor build.
pub struct BuildOutcome {
    pub cache: Map<i64, Seq<(Seq<char>, InjectedView)>>,
    pub cb: CallbackView,
    pub outcome: Result<Seq<(Seq<char>, InjectedView)>, DiErrorView>,
}

/// Building descriptors: at most one extraction per distinct callable key.
/// A key already cached is answered from the cache with the callable left
/// untouched; otherwise the extractor runs once and its result is cached.
pub open spec fn spec_build_descriptors(
    cache: Map<i64, Seq<(Seq<char>, InjectedView)>>,
    cb: CallbackView,
) -> BuildOutcome {
    if cache.contains_key(cb.key) {
        BuildOutcome { cache, cb, outcome: Ok(cache[cb.key]) }
    } else {
        let s = spec_visit_callback(cb);
        match s.outcome {
            Ok(ds) => BuildOutcome { cache: cache.insert(cb.key, ds), cb: s.cb, outcome: Ok(ds) },
            Err(e) => BuildOutcome { cache, cb: s.cb, outcome: Err(e) },
        }
    }
}

/// Extracting a callable's descriptors is idempotent: a second build finds
/// the first build's list in the cache, returns it unchanged, and changes
/// nothing at all.
pub proof fn lemma_build_descriptors_idempotent(
    cache: Map<i64, Seq<(Seq<char>, InjectedView)>>,
    cb: CallbackView,
)
    ensures
        ({
            let first = spec_build_descriptors(cache, cb);
            match first.outcome {
                Ok(ds) => {
                    let second = spec_build_descriptors(first.cache, first.cb);
                    first.cache.contains_key(first.cb.key) && second == (BuildOutcome {
                        cache: first.cache,
                        cb: first.cb,
                        outcome: Ok(ds),
                    })
                },
                Err(_) => true,
            }
        }),
{
    crate::visitor::lemma_visit_callback_preserves_key(cb);
}

impl Client {
    /// The cached descriptor list for this callable, extracted and cached
    /// on first use; later builds are answered from the cache.
    pub fn build_descriptors(&mut self, callback: &mut Callback) -> (r: Result<
        Vec<(String, Injected)>,
        DiError,
    >)
        ensures
            ({
                let b = spec_build_descriptors(old(self).descriptor_cache(), old(callback)@);
                final(self).descriptor_cache() == b.cache && final(callback)@ == b.cb && (match r {
                    Ok(v) => b.outcome == Ok::<Seq<(Seq<char>, InjectedView)>, DiErrorView>(
                        descriptor_list_view(v@),
                    ),
                    Err(e) => b.outcome == Err::<Seq<(Seq<char>, InjectedView)>, DiErrorView>(
                        e@,
                    ),
                })
            }),
            final(self).type_deps() == old(self).type_deps(),
            final(self).overrides() == old(self).overrides(),
            final(self).spec_introspect_annotations() == old(self).spec_introspect_annotations(),
    {
        let key = callback.key();
        proof {
            assert(self.descriptor_cache().contains_key(key) == self.descriptors@.contains_key(
                key,
            ));
        }
        let cached = match self.descriptors.get(key) {
            Some(entry) => Some(clone_descriptor_list(entry)),
            None => None,
        };
        match cached {
            Some(v) => {
                proof {
                    assert(self.descriptor_cache()[key] == descriptor_list_view(v@));
                }
                Ok(v)
            },
            None => {
                match callback.accept() {
                    Err(e) => Err(e),
                    Ok(v) => {
                        let ghost dv = descriptor_list_view(v@);
                        let copy = clone_descriptor_list(&v);
                        self.descriptors.insert(key, v);
                        proof {
                            assert(self.descriptor_cache() =~= old(
                                self,
                            ).descriptor_cache().insert(key, dv));
                        }
                        Ok(copy)
                    },
                }
            },
        }
    }
}

/// What inline resolution leaves for one call: the merged keyword
/// arguments and the nested calls still to make.
pub struct PlanState {
    pub kwargs: Map<Seq<char>, Value>,
    pub pending: Seq<(Seq<char>, i64)>,
}

/// Resolution of a descriptor list against the registries: type
/// descriptors resolve inline and only fill keyword-argument gaps (the
/// caller's entries win); callback descriptors become pending nested
/// calls, the client's override already applied; the first failed type
/// resolution aborts the call.
pub open spec fn spec_plan_descriptors(
    ds: Seq<(Seq<char>, InjectedView)>,
    client: Client,
    ctx: BasicContext,
    kw: Map<Seq<char>, Value>,
) -> Result<PlanState, DiErrorView>
    decreases ds.len(),
{
    if ds.len() == 0 {
        Ok(PlanState { kwargs: kw, pending: Seq::empty() })
    } else {
        let name = ds[0].0;
        match ds[0].1 {
            InjectedView::Type(t) => match crate::types::spec_resolve_type(t, client, ctx) {
                Err(e) => Err(e),
                Ok(v) => {
                    let kw2 = if kw.contains_key(name) {
                        kw
                    } else {
                        kw.insert(name, v)
                    };
                    spec_plan_descriptors(ds.drop_first(), client, ctx, kw2)
                },
            },
            InjectedView::Callback { callback } => {
                let target = if client.overrides().contains_key(callback) {
                    client.overrides()[callback]
                } else {
                    callback
                };
                match spec_plan_descriptors(ds.drop_first(), client, ctx, kw) {
                    Err(e) => Err(e),
                    Ok(ps) => Ok(
                        PlanState {
                            kwargs: ps.kwargs,
                            pending: seq![(name, target)] + ps.pending,
                        },
                    ),
                }
            },
        }
    }
}

/// The abstract content of a pending-call list.
pub open spec fn pending_view(v: Seq<(String, i64)>) -> Seq<(Seq<char>, i64)> {
    v.map_values(|p: (String, i64)| (p.0@, p.1))
}

/// The plan for one call, handed to the embedding layer: the untouched
/// positional arguments, the merged keyword arguments, and the nested
/// calls still to dispatch (each with no arguments, in the caller's mode,
/// against the same client and context) whose results fill the remaining
/// keyword gaps.
pub struct CallPlan {
    pub args: Vec<Value>,
    pub kwargs: Kwargs,
    pub pending: Vec<(String, i64)>,
}

impl Client {
    /// One call against a context: build or fetch the descriptors and
    /// resolve them inline.  An empty descriptor list is the early-return
    /// fast path: the plan holds the caller's arguments untouched and
    /// nothing pending, and the embedding layer invokes the callable
    /// directly with them.
    pub fn plan_call_with_ctx(
        &mut self,
        ctx: &BasicContext,
        callback: &mut Callback,
        args: Vec<Value>,
        kwargs: Kwargs,
    ) -> (r: Result<CallPlan, DiError>)
        ensures
            final(self).type_deps() == old(self).type_deps(),
            final(self).overrides() == old(self).overrides(),
            final(self).spec_introspect_annotations() == old(self).spec_introspect_annotations(),
            ({
                let b = spec_build_descriptors(old(self).descriptor_cache(), old(callback)@);
                final(self).descriptor_cache() == b.cache && final(callback)@ == b.cb && (match b.outcome {
                    Err(e) => r matches Err(er) && er@ == e,
                    Ok(ds) => match spec_plan_descriptors(ds, *final(self), *ctx, kwargs@) {
                        Err(e) => r matches Err(er) && er@ == e,
                        Ok(ps) => r matches Ok(plan) && plan.args@ == args@ && plan.kwargs@
                            == ps.kwargs && pending_view(plan.pending@) == ps.pending,
                    },
                })
            }),
    {
        let descriptors = match self.build_descriptors(callback) {
            Err(e) => {
                return Err(e);
            },
            Ok(v) => v,
        };
        let ghost ds = descriptor_list_view(descriptors@);
        let ghost self_snap = *self;
        let ghost kwargs0 = kwargs@;
        let mut kwargs = kwargs;
        let mut pending: Vec<(String, i64)> = Vec::new();
        let n = descriptors.len();
        let mut i: usize = 0;
        proof {
            assert(ds.skip(0) =~= ds);
            assert(pending_view(pending@) =~= Seq::<(Seq<char>, i64)>::empty());
        }
        #[verifier::loop_isolation(false)]
        while i < n
            invariant
                n == descriptors@.len(),
                i <= n,
                *self == self_snap,
                ({
                    let overall = spec_plan_descriptors(ds, self_snap, *ctx, kwargs0);
                    match spec_plan_descriptors(ds.skip(i as int), self_snap, *ctx, kwargs@) {
                        Err(e) => overall == Err::<PlanState, DiErrorView>(e),
                        Ok(ps) => overall == Ok::<PlanState, DiErrorView>(
                            PlanState {
                                kwargs: ps.kwargs,
                                pending: pending_view(pending@) + ps.pending,
                            },
                        ),
                    }
                }),
            decreases n - i,
        {
            proof {
                assert(ds[i as int] == (descriptors@[i as int].0@, descriptors@[i as int].1@));
                assert(ds.skip(i as int)[0] == ds[i as int]);
                assert(ds.skip(i as int).drop_first() =~= ds.skip(i as int + 1));
            }
            let ghost pending_prev = pending@;
            let ghost kwargs_prev = kwargs@;
            match &descriptors[i].1 {
                Injected::Type(t) => {
                    proof {
                        assert((descriptors@[i as int].1)@ == InjectedView::Type(t@));
                    }
                    match t.resolve_rust(self, ctx) {
                        Err(e) => {
                            proof {
                                assert(spec_plan_descriptors(
                                    ds.skip(i as int),
                                    self_snap,
                                    *ctx,
                                    kwargs@,
                                ) == Err::<PlanState, DiErrorView>(e@));
                            }
                            return Err(e);
                        },
                        Ok(v) => {
                            kwargs.insert_if_absent(descriptors[i].0.clone(), v);
                            proof {
                                assert(spec_plan_descriptors(
                                    ds.skip(i as int),
                                    self_snap,
                                    *ctx,
                                    kwargs_prev,
                                ) == spec_plan_descriptors(
                                    ds.skip(i as int + 1),
                                    self_snap,
                                    *ctx,
                                    kwargs@,
                                ));
                            }
                        },
                    }
                },
                Injected::Callback(c) => {
                    proof {
                        assert((descriptors@[i as int].1)@ == (InjectedView::Callback {
                            callback: c.callback,
                        }));
                    }
                    let target = c.resolve_target(self);
                    pending.push((descriptors[i].0.clone(), target));
                    proof {
                        assert(pending_view(pending@) =~= pending_view(pending_prev) + seq![
                            (ds[i as int].0, target),
                        ]);
                        let rest = spec_plan_descriptors(
                            ds.skip(i as int + 1),
                            self_snap,
                            *ctx,
                            kwargs@,
                        );
                        if rest is Ok {
                            let ps = rest->Ok_0;
                            assert(pending_view(pending_prev) + (seq![(ds[i as int].0, target)]
                                + ps.pending) =~= pending_view(pending@) + ps.pending);
                        }
                    }
                },
            }
            i += 1;
        }
        proof {
            assert(ds.skip(n as int) =~= Seq::<(Seq<char>, InjectedView)>::empty());
            assert(pending_view(pending@) + Seq::<(Seq<char>, i64)>::empty() =~= pending_view(
                pending@,
            ));
        }
        Ok(CallPlan { args, kwargs, pending })
    }
}

impl BasicContext {
    /// One call through this context; the client supplies the registries
    /// and the descriptor cache.
    pub fn plan_call_with_di(
        &self,
        client: &mut Client,
        callback: &mut Callback,
        args: Vec<Value>,
        kwargs: Kwargs,
    ) -> (r: Result<CallPlan, DiError>)
        ensures
            final(client).type_deps() == old(client).type_deps(),
            final(client).overrides() == old(client).overrides(),
            final(client).spec_introspect_annotations() == old(
                client,
            ).spec_introspect_annotations(),
            ({
                let b = spec_build_descriptors(old(client).descriptor_cache(), old(callback)@);
                final(client).descriptor_cache() == b.cache && final(callback)@ == b.cb && (match b.outcome {
                    Err(e) => r matches Err(er) && er@ == e,
                    Ok(ds) => match spec_plan_descriptors(ds, *final(client), *self, kwargs@) {
                        Err(e) => r matches Err(er) && er@ == e,
                        Ok(ps) => r matches Ok(plan) && plan.args@ == args@ && plan.kwargs@
                            == ps.kwargs && pending_view(plan.pending@) == ps.pending,
                    },
                })
            }),
    {
        client.plan_call_with_ctx(self, callback, args, kwargs)
    }
}

/// A call's immediate result: ready, or an asynchronous computation the
/// runtime bridge must await, identified for the embedding layer.
#[derive(Clone, Copy, PartialEq, Eq, Structural, Debug)]
pub enum MaybeAsync {
    Receiver(u64),
    Ready(Value),
}

/// In asynchronous dispatch an asynchronous result crosses the bridge;
/// any other value is ready at once.
pub open spec fn spec_from_result(result: Value) -> MaybeAsync {
    match result {
        Value::Coroutine(id) => MaybeAsync::Receiver(id),
        _ => MaybeAsync::Ready(result),
    }
}

impl MaybeAsync {
    pub fn from_result(result: Value) -> (r: MaybeAsync)
        ensures
            r == spec_from_result(result),
    {
        match result {
            Value::Coroutine(id) => MaybeAsync::Receiver(id),
            _ => MaybeAsync::Ready(result),
        }
    }
}

/// What synchronous dispatch returns once the callable was invoked.
pub open spec fn spec_finish_sync(result: Value) -> Result<Value, DiErrorView> {
    match result {
        Value::Coroutine(_) => Err(DiErrorView::AsyncOnly),
        _ => Ok(result),
    }
}

/// Synchronous dispatch must not hand back an unawaited computation: an
/// asynchronous result is refused with the distinguished async-only error;
/// every other result is returned unchanged.
pub fn finish_sync_call(result: Value) -> (r: Result<Value, DiError>)
    ensures
        match r {
            Ok(v) => spec_finish_sync(result) == Ok::<Value, DiErrorView>(v),
            Err(e) => spec_finish_sync(result) == Err::<Value, DiErrorView>(e@),
        },
{
    if result.is_coroutine() {
        Err(DiError::AsyncOnly)
    } else {
        Ok(result)
    }
}

/// The early-return fast path must not alter arguments: with no injected
/// parameters the plan carries the caller's keyword arguments exactly as
/// supplied and nothing pending, so the callable is invoked directly with
/// the caller's arguments.
pub proof fn lemma_early_return_fast_path(
    client: Client,
    ctx: BasicContext,
    kwargs: Map<Seq<char>, Value>,
)
    ensures
        spec_plan_descriptors(Seq::empty(), client, ctx, kwargs) == Ok::<PlanState, DiErrorView>(
            PlanState { kwargs, pending: Seq::empty() },
        ),
{
}

/// Synchronous dispatch of an asynchronous result raises the async-only
/// error, while asynchronous dispatch of the same result hands it to the
/// bridge; a ready result is returned unchanged by either mode.
pub proof fn lemma_dispatch_modes_agree(result: Value)
    ensures
        match result {
            Value::Coroutine(id) => spec_finish_sync(result) == Err::<Value, DiErrorView>(
                DiErrorView::AsyncOnly,
            ) && spec_from_result(result) == MaybeAsync::Receiver(id),
            _ => spec_finish_sync(result) == Ok::<Value, DiErrorView>(result) && spec_from_result(
                result,
            ) == MaybeAsync::Ready(result),
        },
{
}

/// A context-local type override always shadows a client-level dependency
/// of the same key within that context.
pub proof fn lemma_local_override_shadows(ctx: BasicContext, client: Client, type_key: i64)
    requires
        ctx.special_cases().contains_key(type_key),
    ensures
        ctx.spec_lookup(client, type_key) == Some(ctx.special_cases()[type_key]),
{
}

/// A context-local override never leaks to a sibling context: a context
/// whose local overrides are empty resolves exactly what the shared client
/// registers, whatever any other context holds.
pub proof fn lemma_no_leak_to_sibling(sibling: BasicContext, client: Client, type_key: i64)
    requires
        sibling.special_cases() == Map::<i64, Value>::empty(),
    ensures
        sibling.spec_lookup(client, type_key) == if client.type_deps().contains_key(type_key) {
            Some(client.type_deps()[type_key])
        } else {
            None::<Value>
        },
{
}

} // verus!
