//! Descriptors: how one injected parameter's value is produced at call time.

use vstd::prelude::*;

use crate::client::BasicContext;
use crate::client::Client;
use crate::values::DiError;
use crate::values::DiErrorView;
use crate::values::Value;

verus! {

/// A descriptor list entry: the parameter's name with its descriptor.
pub type InjectedTuple = (String, Injected);

/// A parameter resolved by recursively dispatching another callable.
pub struct InjectedCallback {
    /// Identity key of the callable to dispatch with no arguments.
    pub callback: i64,
}

/// A parameter resolved by scanning type keys against the registries.
pub struct InjectedType {
    /// The value used when no key resolves; absent means resolution fails.
    pub default: Option<Value>,
    /// Human-readable representation of the requested type, for errors.
    pub repr_type: String,
    /// The type keys, probed in declaration order.
    pub type_ids: Vec<i64>,
}

/// The two descriptor variants.
pub enum Injected {
    Callback(InjectedCallback),
    Type(InjectedType),
}

/// Spec-level shape of an [`InjectedType`].
pub struct InjectedTypeView {
    pub default: Option<Value>,
    pub repr_type: Seq<char>,
    pub type_ids: Seq<i64>,
}

/// Spec-level shape of an [`Injected`].
pub enum InjectedView {
    Callback { callback: i64 },
    Type(InjectedTypeView),
}

impl View for InjectedType {
    type V = InjectedTypeView;

    open spec fn view(&self) -> InjectedTypeView {
        InjectedTypeView {
            default: self.default,
            repr_type: self.repr_type@,
            type_ids: self.type_ids@,
        }
    }
}

impl View for Injected {
    type V = InjectedView;

    open spec fn view(&self) -> InjectedView {
        match self {
            Injected::Callback(c) => InjectedView::Callback { callback: c.callback },
            Injected::Type(t) => InjectedView::Type(t@),
        }
    }
}

/// The abstract content of a descriptor list.
pub open spec fn descriptor_list_view(v: Seq<(String, Injected)>) -> Seq<
    (Seq<char>, InjectedView),
> {
    v.map_values(|p: (String, Injected)| (p.0@, p.1@))
}

impl Injected {
    pub fn new_callback(callback: i64) -> (r: Self)
        ensures
            r@ == (InjectedView::Callback { callback }),
    {
        Injected::Callback(InjectedCallback { callback })
    }

    pub fn new_type(default: Option<Value>, repr_type: String, type_ids: Vec<i64>) -> (r: Self)
        ensures
            r@ == InjectedView::Type(
                InjectedTypeView { default, repr_type: repr_type@, type_ids: type_ids@ },
            ),
    {
        Injected::Type(InjectedType { default, repr_type, type_ids })
    }
}

/// The first value that any of `keys`, probed in order, finds in the
/// context-local overrides layered over the client registry.
pub open spec fn spec_first_found(
    keys: Seq<i64>,
    ctx: BasicContext,
    client: Client,
) -> Option<Value>
    decreases keys.len(),
{
    if keys.len() == 0 {
        None
    } else {
        match ctx.spec_lookup(client, keys[0]) {
            Some(v) => Some(v),
            None => spec_first_found(keys.drop_first(), ctx, client),
        }
    }
}

impl InjectedCallback {
    /// The callable a nested dispatch actually targets: the client's
    /// override for the wrapped callable if one is registered, else the
    /// wrapped callable itself.
    pub open spec fn spec_resolve_target(&self, client: Client) -> i64 {
        if client.overrides().contains_key(self.callback) {
            client.overrides()[self.callback]
        } else {
            self.callback
        }
    }

    /// Resolution of a callback descriptor recurses into the dispatch
    /// protocol; the engine hands the embedding layer the key of the
    /// callable to dispatch (with no arguments, in the caller's mode,
    /// against the same client and context).
    pub fn resolve_target(&self, client: &Client) -> (r: i64)
        ensures
            r == self.spec_resolve_target(*client),
    {
        match client.get_callback_override(self.callback) {
            Some(over) => over,
            None => self.callback,
        }
    }
}

/// What resolving a type descriptor yields: the first type key found in
/// the layered registries, else the default, else a missing-dependency
/// failure carrying the requested type's representation.
pub open spec fn spec_resolve_type(t: InjectedTypeView, client: Client, ctx: BasicContext) -> Result<
    Value,
    DiErrorView,
> {
    match spec_first_found(t.type_ids, ctx, client) {
        Some(v) => Ok(v),
        None => match t.default {
            Some(d) => Ok(d),
            None => Err(DiErrorView::MissingDependency { repr: t.repr_type }),
        },
    }
}

impl InjectedType {
    pub open spec fn spec_resolve(&self, client: Client, ctx: BasicContext) -> Result<
        Value,
        DiErrorView,
    > {
        spec_resolve_type(self@, client, ctx)
    }

    pub fn resolve_rust(&self, client: &Client, ctx: &BasicContext) -> (r: Result<
        Value,
        DiError,
    >)
        ensures
            match r {
                Ok(v) => self.spec_resolve(*client, *ctx) == Ok::<Value, DiErrorView>(v),
                Err(e) => self.spec_resolve(*client, *ctx) == Err::<Value, DiErrorView>(e@),
            },
    {
        let n = self.type_ids.len();
        let mut i: usize = 0;
        proof {
            assert(self.type_ids@.skip(0) =~= self.type_ids@);
        }
        while i < n
            invariant
                n == self.type_ids@.len(),
                i <= n,
                spec_first_found(self.type_ids@.skip(i as int), *ctx, *client)
                    == spec_first_found(self.type_ids@, *ctx, *client),
            decreases n - i,
        {
            let key = self.type_ids[i];
            proof {
                assert(self.type_ids@.skip(i as int)[0] == key);
                assert(self.type_ids@.skip(i as int).drop_first() =~= self.type_ids@.skip(
                    i as int + 1,
                ));
            }
            match ctx.get_type_dependency_rust(client, key) {
                Some(v) => {
                    return Ok(v);
                },
                None => {},
            }
            i += 1;
        }
        proof {
            assert(self.type_ids@.skip(n as int) =~= Seq::<i64>::empty());
        }
        match &self.default {
            Some(d) => Ok(*d),
            None => Err(DiError::MissingDependency { repr: self.repr_type.clone() }),
        }
    }
}

/// For a registered type key, a type descriptor whose key list is exactly
/// that key resolves to the registered value (no context-local override
/// set for it).
pub proof fn lemma_single_key_resolves(
    t: InjectedTypeView,
    client: Client,
    ctx: BasicContext,
    key: i64,
)
    requires
        t.type_ids == seq![key],
        !ctx.special_cases().contains_key(key),
        client.type_deps().contains_key(key),
    ensures
        spec_resolve_type(t, client, ctx) == Ok::<Value, DiErrorView>(client.type_deps()[key]),
{
    assert(t.type_ids[0] == key);
}

/// Once the key is gone from both registries, the same descriptor falls
/// back to its default, or fails with the missing-dependency error when it
/// has none.
pub proof fn lemma_single_key_falls_back(
    t: InjectedTypeView,
    client: Client,
    ctx: BasicContext,
    key: i64,
)
    requires
        t.type_ids == seq![key],
        !ctx.special_cases().contains_key(key),
        !client.type_deps().contains_key(key),
    ensures
        match t.default {
            Some(d) => spec_resolve_type(t, client, ctx) == Ok::<Value, DiErrorView>(d),
            None => spec_resolve_type(t, client, ctx) == Err::<Value, DiErrorView>(
                DiErrorView::MissingDependency { repr: t.repr_type },
            ),
        },
{
    assert(t.type_ids.len() == 1);
    assert(t.type_ids[0] == key);
    assert(ctx.spec_lookup(client, key) is None);
    assert(t.type_ids.drop_first() =~= Seq::<i64>::empty());
    assert(spec_first_found(Seq::<i64>::empty(), ctx, client) is None);
    assert(spec_first_found(t.type_ids, ctx, client) is None);
}

} // verus!
