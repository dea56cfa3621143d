//! Descriptor extraction from a callable's introspected parameters.
//!
//! The host's signature-introspection facility is a collaborator: it hands
//! the engine, for each callable, an ordered list of parameters, each with a
//! name, a default slot and an annotation, both as plain data.  A string
//! annotation the host did not evaluate is a forward reference; introspection
//! can be re-run once with string evaluation enabled, and the engine swaps
//! the evaluated signature in lazily the first time any annotation on the
//! callable needs it.  The extractor classifies every parameter as not
//! injected, injected by nested call, or injected by type lookup.

use vstd::prelude::*;

use crate::types::Injected;
use crate::types::InjectedTypeView;
use crate::types::InjectedView;
use crate::values::DiError;
use crate::values::DiErrorView;
use crate::values::Value;

verus! {

/// The payload of an injection-descriptor object found in a default value
/// or among an annotation's metadata: a callable to dispatch, or a type
/// expression to look up, or neither (fall back to the annotation).
pub struct InjectedMeta {
    pub callback: Option<i64>,
    pub type_expr: Option<TypeExpr>,
}

/// One alternative of a union-typed annotation.
#[derive(Clone, Copy, PartialEq, Eq, Structural, Debug)]
pub enum UnionMember {
    /// An ordinary type, by its identity key.
    Ty(i64),
    /// The host's none-type.
    NoneType,
}

/// The structure of a type annotation, as far as the extractor reads it.
pub enum TypeShape {
    /// A single type, by its identity key.
    Simple(i64),
    /// A union of alternatives, in declaration order.
    Union(Vec<UnionMember>),
}

/// A type expression: its human-readable representation and its structure.
pub struct TypeExpr {
    pub repr: String,
    pub shape: TypeShape,
}

/// One metadata argument of an annotated-type wrapper.
pub enum Marker {
    /// The plain injection marker: inject by the annotated type itself.
    InjectType,
    /// An injection-descriptor object.
    Descriptor(InjectedMeta),
    /// Any other metadata, ignored by the extractor.
    Other,
}

/// A parameter's annotation.
pub enum Annotation {
    /// No annotation was declared.
    Empty,
    /// A string annotation the host did not evaluate; its text stands as a
    /// type expression of its own.
    ForwardRef(TypeExpr),
    /// A plain type annotation.
    Ty(TypeExpr),
    /// An annotated-type wrapper: the underlying type (already flattened)
    /// and the metadata arguments in order.
    Annotated { first: TypeExpr, args: Vec<Marker> },
}

/// A parameter's default slot.
pub enum DefaultSlot {
    /// No default was declared.
    Missing,
    /// The default is an injection-descriptor object.
    Descriptor(InjectedMeta),
    /// The default is an ordinary value.
    Plain(Value),
}

/// One introspected parameter.
pub struct Param {
    pub name: String,
    pub default: DefaultSlot,
    pub annotation: Annotation,
}

/// What the host's introspection service returns for one callable: the
/// parameter list as first inspected, and the list that re-inspection with
/// string evaluation enabled would return.  `None` means the callable has
/// no recoverable signature.
pub struct SignatureInfo {
    pub initial: Option<Vec<Param>>,
    pub evaluated: Option<Vec<Param>>,
}

/// A callable under extraction: its identity key, its current signature,
/// the evaluated signature held in reserve, and whether the one permitted
/// forward-reference re-resolution has already happened.
pub struct Callback {
    key: i64,
    signature: Option<Vec<Param>>,
    evaluated: Option<Vec<Param>>,
    resolved: bool,
}

// --- Spec-level shapes -------------------------------------------------

pub struct InjectedMetaView {
    pub callback: Option<i64>,
    pub type_expr: Option<TypeExprView>,
}

pub enum TypeShapeView {
    Simple(i64),
    Union(Seq<UnionMember>),
}

pub struct TypeExprView {
    pub repr: Seq<char>,
    pub shape: TypeShapeView,
}

pub enum MarkerView {
    InjectType,
    Descriptor(InjectedMetaView),
    Other,
}

pub enum AnnotationView {
    Empty,
    ForwardRef(TypeExprView),
    Ty(TypeExprView),
    Annotated { first: TypeExprView, args: Seq<MarkerView> },
}

pub enum DefaultSlotView {
    Missing,
    Descriptor(InjectedMetaView),
    Plain(Value),
}

pub struct ParamView {
    pub name: Seq<char>,
    pub default: DefaultSlotView,
    pub annotation: AnnotationView,
}

pub struct SignatureInfoView {
    pub initial: Option<Seq<ParamView>>,
    pub evaluated: Option<Seq<ParamView>>,
}

pub struct CallbackView {
    pub key: i64,
    pub signature: Option<Seq<ParamView>>,
    pub evaluated: Option<Seq<ParamView>>,
    pub resolved: bool,
}

impl View for TypeExpr {
    type V = TypeExprView;

    open spec fn view(&self) -> TypeExprView {
        TypeExprView {
            repr: self.repr@,
            shape: match self.shape {
                TypeShape::Simple(k) => TypeShapeView::Simple(k),
                TypeShape::Union(ref members) => TypeShapeView::Union(members@),
            },
        }
    }
}

impl View for InjectedMeta {
    type V = InjectedMetaView;

    open spec fn view(&self) -> InjectedMetaView {
        InjectedMetaView {
            callback: self.callback,
            type_expr: match self.type_expr {
                Some(ref t) => Some(t@),
                None => None,
            },
        }
    }
}

impl View for Marker {
    type V = MarkerView;

    open spec fn view(&self) -> MarkerView {
        match self {
            Marker::InjectType => MarkerView::InjectType,
            Marker::Descriptor(m) => MarkerView::Descriptor(m@),
            Marker::Other => MarkerView::Other,
        }
    }
}

impl View for Annotation {
    type V = AnnotationView;

    open spec fn view(&self) -> AnnotationView {
        match self {
            Annotation::Empty => AnnotationView::Empty,
            Annotation::ForwardRef(t) => AnnotationView::ForwardRef(t@),
            Annotation::Ty(t) => AnnotationView::Ty(t@),
            Annotation::Annotated { first, args } => AnnotationView::Annotated {
                first: first@,
                args: args@.map_values(|m: Marker| m@),
            },
        }
    }
}

impl View for DefaultSlot {
    type V = DefaultSlotView;

    open spec fn view(&self) -> DefaultSlotView {
        match self {
            DefaultSlot::Missing => DefaultSlotView::Missing,
            DefaultSlot::Descriptor(m) => DefaultSlotView::Descriptor(m@),
            DefaultSlot::Plain(v) => DefaultSlotView::Plain(*v),
        }
    }
}

impl View for Param {
    type V = ParamView;

    open spec fn view(&self) -> ParamView {
        ParamView { name: self.name@, default: self.default@, annotation: self.annotation@ }
    }
}

/// The abstract content of a parameter list.
pub open spec fn params_view(s: Seq<Param>) -> Seq<ParamView> {
    s.map_values(|p: Param| p@)
}

pub open spec fn opt_params_view(s: Option<Vec<Param>>) -> Option<Seq<ParamView>> {
    match s {
        Some(v) => Some(params_view(v@)),
        None => None,
    }
}

impl View for SignatureInfo {
    type V = SignatureInfoView;

    open spec fn view(&self) -> SignatureInfoView {
        SignatureInfoView {
            initial: opt_params_view(self.initial),
            evaluated: opt_params_view(self.evaluated),
        }
    }
}

impl View for Callback {
    type V = CallbackView;

    closed spec fn view(&self) -> CallbackView {
        CallbackView {
            key: self.key,
            signature: opt_params_view(self.signature),
            evaluated: opt_params_view(self.evaluated),
            resolved: self.resolved,
        }
    }
}

// --- Deep copies of the model data -------------------------------------

fn clone_members(members: &Vec<UnionMember>) -> (r: Vec<UnionMember>)
    ensures
        r@ == members@,
{
    let n = members.len();
    let mut r: Vec<UnionMember> = Vec::new();
    let mut i: usize = 0;
    while i < n
        invariant
            n == members@.len(),
            i <= n,
            r@ == members@.take(i as int),
        decreases n - i,
    {
        r.push(members[i]);
        proof {
            assert(members@.take(i as int + 1) =~= members@.take(i as int).push(
                members@[i as int],
            ));
        }
        i += 1;
    }
    proof {
        assert(members@.take(n as int) =~= members@);
    }
    r
}

fn clone_type_expr(t: &TypeExpr) -> (r: TypeExpr)
    ensures
        r@ == t@,
{
    let shape = match &t.shape {
        TypeShape::Simple(k) => TypeShape::Simple(*k),
        TypeShape::Union(members) => TypeShape::Union(clone_members(members)),
    };
    TypeExpr { repr: t.repr.clone(), shape }
}

fn clone_meta(m: &InjectedMeta) -> (r: InjectedMeta)
    ensures
        r@ == m@,
{
    let type_expr = match &m.type_expr {
        Some(t) => Some(clone_type_expr(t)),
        None => None,
    };
    InjectedMeta { callback: m.callback, type_expr }
}

fn clone_marker(m: &Marker) -> (r: Marker)
    ensures
        r@ == m@,
{
    match m {
        Marker::InjectType => Marker::InjectType,
        Marker::Descriptor(meta) => Marker::Descriptor(clone_meta(meta)),
        Marker::Other => Marker::Other,
    }
}

fn clone_markers(args: &Vec<Marker>) -> (r: Vec<Marker>)
    ensures
        r@.map_values(|m: Marker| m@) == args@.map_values(|m: Marker| m@),
{
    let n = args.len();
    let mut r: Vec<Marker> = Vec::new();
    let mut i: usize = 0;
    while i < n
        invariant
            n == args@.len(),
            i <= n,
            r@.len() == i,
            forall|j: int| 0 <= j < i ==> (#[trigger] r@[j])@ == args@[j]@,
        decreases n - i,
    {
        r.push(clone_marker(&args[i]));
        i += 1;
    }
    proof {
        assert(r@.map_values(|m: Marker| m@) =~= args@.map_values(|m: Marker| m@));
    }
    r
}

fn clone_annotation(a: &Annotation) -> (r: Annotation)
    ensures
        r@ == a@,
{
    match a {
        Annotation::Empty => Annotation::Empty,
        Annotation::ForwardRef(t) => Annotation::ForwardRef(clone_type_expr(t)),
        Annotation::Ty(t) => Annotation::Ty(clone_type_expr(t)),
        Annotation::Annotated { first, args } => Annotation::Annotated {
            first: clone_type_expr(first),
            args: clone_markers(args),
        },
    }
}

// --- Union flattening and type parsing ----------------------------------

/// The keys of a union's ordinary members, in declaration order.
pub open spec fn spec_union_type_ids(members: Seq<UnionMember>) -> Seq<i64>
    decreases members.len(),
{
    if members.len() == 0 {
        Seq::empty()
    } else {
        let rest = spec_union_type_ids(members.drop_last());
        match members.last() {
            UnionMember::Ty(k) => rest.push(k),
            UnionMember::NoneType => rest,
        }
    }
}

/// Whether a union mentions the host's none-type.
pub open spec fn spec_union_has_none(members: Seq<UnionMember>) -> bool {
    exists|i: int| 0 <= i < members.len() && members[i] is NoneType
}

/// What `parse_type` builds: a single type keeps its key and the given
/// default; a union is flattened to its ordinary members' keys, and when a
/// none-type member was dropped and no default was given, the host's null
/// object becomes the implicit default.
pub open spec fn spec_parse_type(t: TypeExprView, other_default: Option<Value>) -> InjectedTypeView {
    match t.shape {
        TypeShapeView::Simple(k) => InjectedTypeView {
            default: other_default,
            repr_type: t.repr,
            type_ids: seq![k],
        },
        TypeShapeView::Union(members) => InjectedTypeView {
            default: if spec_union_has_none(members) && other_default is None {
                Some(Value::Null)
            } else {
                other_default
            },
            repr_type: t.repr,
            type_ids: spec_union_type_ids(members),
        },
    }
}

fn union_type_ids(members: &Vec<UnionMember>) -> (r: Vec<i64>)
    ensures
        r@ == spec_union_type_ids(members@),
{
    let n = members.len();
    let mut r: Vec<i64> = Vec::new();
    let mut i: usize = 0;
    while i < n
        invariant
            n == members@.len(),
            i <= n,
            r@ == spec_union_type_ids(members@.take(i as int)),
        decreases n - i,
    {
        proof {
            assert(members@.take(i as int + 1).drop_last() =~= members@.take(i as int));
            assert(members@.take(i as int + 1).last() == members@[i as int]);
        }
        match members[i] {
            UnionMember::Ty(k) => {
                r.push(k);
            },
            UnionMember::NoneType => {},
        }
        i += 1;
    }
    proof {
        assert(members@.take(n as int) =~= members@);
    }
    r
}

fn union_has_none(members: &Vec<UnionMember>) -> (r: bool)
    ensures
        r == spec_union_has_none(members@),
{
    let n = members.len();
    let mut i: usize = 0;
    while i < n
        invariant
            n == members@.len(),
            i <= n,
            forall|j: int| 0 <= j < i ==> !((#[trigger] members@[j]) is NoneType),
        decreases n - i,
    {
        match members[i] {
            UnionMember::NoneType => {
                return true;
            },
            UnionMember::Ty(_) => {},
        }
        i += 1;
    }
    false
}

// --- Annotation resolution ----------------------------------------------

/// The first parameter with the given name.
pub open spec fn spec_find_param(params: Seq<ParamView>, name: Seq<char>) -> Option<ParamView>
    decreases params.len(),
{
    if params.len() == 0 {
        None
    } else if params[0].name == name {
        Some(params[0])
    } else {
        spec_find_param(params.drop_first(), name)
    }
}

fn find_param(params: &Vec<Param>, name: &String) -> (r: Option<usize>)
    ensures
        match r {
            Some(i) => i < params@.len() && spec_find_param(params_view(params@), name@) == Some(
                params@[i as int]@,
            ),
            None => spec_find_param(params_view(params@), name@) is None,
        },
{
    let ghost pv = params_view(params@);
    let n = params.len();
    let mut i: usize = 0;
    proof {
        assert(pv.skip(0) =~= pv);
    }
    while i < n
        invariant
            n == params@.len(),
            i <= n,
            pv == params_view(params@),
            spec_find_param(pv.skip(i as int), name@) == spec_find_param(pv, name@),
        decreases n - i,
    {
        proof {
            assert(pv.skip(i as int)[0] == params@[i as int]@);
            assert(pv.skip(i as int).drop_first() =~= pv.skip(i as int + 1));
        }
        if params[i].name == *name {
            return Some(i);
        }
        i += 1;
    }
    proof {
        assert(pv.skip(n as int) =~= Seq::<ParamView>::empty());
    }
    None
}

/// The result of resolving one parameter's annotation: the callable as it
/// stands afterwards (the evaluated signature may have been swapped in),
/// and the annotation found — `Ok(None)` when the callable has no signature
/// or the parameter carries no annotation, the parameter's name when the
/// signature does not hold it.
pub struct AnnotationResolution {
    pub cb: CallbackView,
    pub outcome: Result<Option<AnnotationView>, Seq<char>>,
}

/// Resolving an annotation: a forward reference triggers, at most once per
/// callable, the swap to the signature that re-introspection with string
/// evaluation returned, and the lookup is retried there.
pub open spec fn spec_resolve_annotation(cb: CallbackView, name: Seq<char>) -> AnnotationResolution
    decreases (if cb.resolved {
        0int
    } else {
        1int
    }),
{
    match cb.signature {
        None => AnnotationResolution { cb, outcome: Ok(None) },
        Some(params) => match spec_find_param(params, name) {
            None => AnnotationResolution { cb, outcome: Err(name) },
            Some(p) => match p.annotation {
                AnnotationView::Empty => AnnotationResolution { cb, outcome: Ok(None) },
                AnnotationView::ForwardRef(_) => if !cb.resolved {
                    spec_resolve_annotation(
                        CallbackView {
                            key: cb.key,
                            signature: cb.evaluated,
                            evaluated: None,
                            resolved: true,
                        },
                        name,
                    )
                } else {
                    AnnotationResolution { cb, outcome: Ok(Some(p.annotation)) }
                },
                _ => AnnotationResolution { cb, outcome: Ok(Some(p.annotation)) },
            },
        },
    }
}

/// An annotation that resolution hands back is never the empty one.
pub proof fn lemma_resolved_annotation_not_empty(cb: CallbackView, name: Seq<char>)
    ensures
        (match spec_resolve_annotation(cb, name).outcome {
            Ok(Some(a)) => !(a is Empty),
            _ => true,
        }),
    decreases (if cb.resolved {
        0int
    } else {
        1int
    }),
{
    match cb.signature {
        None => {},
        Some(params) => {
            match spec_find_param(params, name) {
                None => {},
                Some(p) => {
                    if p.annotation is ForwardRef && !cb.resolved {
                        lemma_resolved_annotation_not_empty(
                            CallbackView {
                                key: cb.key,
                                signature: cb.evaluated,
                                evaluated: None,
                                resolved: true,
                            },
                            name,
                        );
                    }
                },
            }
        },
    }
}

enum AnnotationProbe {
    NotInjected,
    NeedsEval,
    Ready(Annotation),
}

impl Callback {
    /// The callable's identity key.
    pub fn key(&self) -> (r: i64)
        ensures
            r == self@.key,
    {
        self.key
    }

    pub fn new(key: i64, sig: SignatureInfo) -> (r: Self)
        ensures
            r@ == (CallbackView {
                key,
                signature: sig@.initial,
                evaluated: sig@.evaluated,
                resolved: false,
            }),
    {
        Callback { key, signature: sig.initial, evaluated: sig.evaluated, resolved: false }
    }

    /// The annotation declared for one parameter, resolving a forward
    /// reference (at most once for this callable) by swapping in the
    /// evaluated signature.
    pub fn resolve_annotation(&mut self, name: &String) -> (r: Result<Option<Annotation>, DiError>)
        ensures
            ({
                let s = spec_resolve_annotation(old(self)@, name@);
                final(self)@ == s.cb && (match r {
                    Ok(None) => s.outcome == Ok::<Option<AnnotationView>, Seq<char>>(None),
                    Ok(Some(a)) => s.outcome == Ok::<Option<AnnotationView>, Seq<char>>(
                        Some(a@),
                    ),
                    Err(e) => s.outcome == Err::<Option<AnnotationView>, Seq<char>>(name@) && e@
                        == (DiErrorView::ParameterNotFound { name: name@ }),
                })
            }),
        decreases (if self@.resolved {
            0int
        } else {
            1int
        }),
    {
        let probe = match &self.signature {
            None => {
                return Ok(None);
            },
            Some(params) => {
                match find_param(params, name) {
                    None => {
                        return Err(DiError::ParameterNotFound { name: name.clone() });
                    },
                    Some(i) => {
                        match &params[i].annotation {
                            Annotation::Empty => AnnotationProbe::NotInjected,
                            Annotation::ForwardRef(t) => {
                                if self.resolved {
                                    AnnotationProbe::Ready(
                                        Annotation::ForwardRef(clone_type_expr(t)),
                                    )
                                } else {
                                    AnnotationProbe::NeedsEval
                                }
                            },
                            a => AnnotationProbe::Ready(clone_annotation(a)),
                        }
                    },
                }
            },
        };
        match probe {
            AnnotationProbe::NotInjected => Ok(None),
            AnnotationProbe::Ready(a) => Ok(Some(a)),
            AnnotationProbe::NeedsEval => {
                let mut sig: Option<Vec<Param>> = None;
                std::mem::swap(&mut sig, &mut self.evaluated);
                self.signature = sig;
                self.resolved = true;
                self.resolve_annotation(name)
            },
        }
    }

    /// Runs the extractor over this callable's parameters.
    pub fn accept(&mut self) -> (r: Result<Vec<(String, Injected)>, DiError>)
        ensures
            ({
                let s = spec_visit_callback(old(self)@);
                final(self)@ == s.cb && (match r {
                    Ok(v) => s.outcome == Ok::<Seq<(Seq<char>, InjectedView)>, DiErrorView>(
                        crate::types::descriptor_list_view(v@),
                    ),
                    Err(e) => s.outcome == Err::<Seq<(Seq<char>, InjectedView)>, DiErrorView>(
                        e@,
                    ),
                })
            }),
    {
        ParameterVisitor::visit_callback(self)
    }
}

// --- Classification of one parameter ------------------------------------

/// One extraction step: the callable afterwards and the descriptor found,
/// if the parameter is injected.
pub struct ParamStep {
    pub cb: CallbackView,
    pub outcome: Result<Option<InjectedView>, DiErrorView>,
}

/// The type expression an annotation stands for when a bare injection
/// descriptor falls back to it.
pub open spec fn spec_fallback_expr(a: AnnotationView) -> TypeExprView
    recommends
        !(a is Empty),
{
    match a {
        AnnotationView::ForwardRef(t) => t,
        AnnotationView::Ty(t) => t,
        AnnotationView::Annotated { first, .. } => first,
        AnnotationView::Empty => TypeExprView {
            repr: Seq::empty(),
            shape: TypeShapeView::Simple(0),
        },
    }
}

/// Classification by the parameter's default value: an injection
/// descriptor resolves to its callback, else its type, else whatever the
/// annotation stands for; any other default leaves the parameter to the
/// annotation pass.
pub open spec fn spec_visit_default(cb: CallbackView, name: Seq<char>) -> ParamStep {
    match cb.signature {
        None => ParamStep { cb, outcome: Err(DiErrorView::ParameterNotFound { name }) },
        Some(params) => match spec_find_param(params, name) {
            None => ParamStep { cb, outcome: Err(DiErrorView::ParameterNotFound { name }) },
            Some(p) => match p.default {
                DefaultSlotView::Descriptor(meta) => match meta.callback {
                    Some(k) => ParamStep {
                        cb,
                        outcome: Ok(Some(InjectedView::Callback { callback: k })),
                    },
                    None => match meta.type_expr {
                        Some(te) => ParamStep {
                            cb,
                            outcome: Ok(Some(InjectedView::Type(spec_parse_type(te, None)))),
                        },
                        None => {
                            let ra = spec_resolve_annotation(cb, name);
                            match ra.outcome {
                                Err(n) => ParamStep {
                                    cb: ra.cb,
                                    outcome: Err(DiErrorView::ParameterNotFound { name: n }),
                                },
                                Ok(None) => ParamStep {
                                    cb: ra.cb,
                                    outcome: Err(DiErrorView::UnresolvedParameter { name }),
                                },
                                Ok(Some(a)) => ParamStep {
                                    cb: ra.cb,
                                    outcome: Ok(
                                        Some(
                                            InjectedView::Type(
                                                spec_parse_type(spec_fallback_expr(a), None),
                                            ),
                                        ),
                                    ),
                                },
                            }
                        },
                    },
                },
                _ => ParamStep { cb, outcome: Ok(None) },
            },
        },
    }
}

/// Whether an annotated-type wrapper's metadata holds the plain injection
/// marker.
pub open spec fn spec_args_have_inject_type(args: Seq<MarkerView>) -> bool {
    exists|i: int| 0 <= i < args.len() && args[i] is InjectType
}

/// The first injection-descriptor object among the metadata, if any.
pub open spec fn spec_first_descriptor(args: Seq<MarkerView>) -> Option<InjectedMetaView>
    decreases args.len(),
{
    if args.len() == 0 {
        None
    } else {
        match args[0] {
            MarkerView::Descriptor(m) => Some(m),
            _ => spec_first_descriptor(args.drop_first()),
        }
    }
}

/// Classification by the parameter's annotation: only an annotated-type
/// wrapper can inject; the plain marker injects by the annotated type, an
/// injection-descriptor argument by its callback, else its type, else the
/// annotated type.  The parameter's declared default, re-read after
/// resolution, fills the descriptor's default slot.
pub open spec fn spec_visit_annotation(cb: CallbackView, name: Seq<char>) -> ParamStep {
    let ra = spec_resolve_annotation(cb, name);
    match ra.outcome {
        Err(n) => ParamStep {
            cb: ra.cb,
            outcome: Err(DiErrorView::ParameterNotFound { name: n }),
        },
        Ok(None) => ParamStep { cb: ra.cb, outcome: Ok(None) },
        Ok(Some(a)) => match ra.cb.signature {
            None => ParamStep {
                cb: ra.cb,
                outcome: Err(DiErrorView::ParameterNotFound { name }),
            },
            Some(params) => match spec_find_param(params, name) {
                None => ParamStep {
                    cb: ra.cb,
                    outcome: Err(DiErrorView::ParameterNotFound { name }),
                },
                Some(p) => {
                    let dflt = match p.default {
                        DefaultSlotView::Plain(v) => Some(v),
                        _ => None,
                    };
                    match a {
                        AnnotationView::Annotated { first, args } => {
                            if spec_args_have_inject_type(args) {
                                ParamStep {
                                    cb: ra.cb,
                                    outcome: Ok(
                                        Some(InjectedView::Type(spec_parse_type(first, dflt))),
                                    ),
                                }
                            } else {
                                match spec_first_descriptor(args) {
                                    Some(meta) => match meta.callback {
                                        Some(k) => ParamStep {
                                            cb: ra.cb,
                                            outcome: Ok(
                                                Some(InjectedView::Callback { callback: k }),
                                            ),
                                        },
                                        None => match meta.type_expr {
                                            Some(te) => ParamStep {
                                                cb: ra.cb,
                                                outcome: Ok(
                                                    Some(
                                                        InjectedView::Type(
                                                            spec_parse_type(te, dflt),
                                                        ),
                                                    ),
                                                ),
                                            },
                                            None => ParamStep {
                                                cb: ra.cb,
                                                outcome: Ok(
                                                    Some(
                                                        InjectedView::Type(
                                                            spec_parse_type(first, dflt),
                                                        ),
                                                    ),
                                                ),
                                            },
                                        },
                                    },
                                    None => ParamStep { cb: ra.cb, outcome: Ok(None) },
                                }
                            }
                        },
                        _ => ParamStep { cb: ra.cb, outcome: Ok(None) },
                    }
                },
            },
        },
    }
}

/// One parameter's classification: the default pass first, the annotation
/// pass only where the default decided nothing.
pub open spec fn spec_visit_param(cb: CallbackView, name: Seq<char>) -> ParamStep {
    let d = spec_visit_default(cb, name);
    match d.outcome {
        Ok(None) => spec_visit_annotation(d.cb, name),
        _ => d,
    }
}

/// The extraction over a whole parameter list: the callable afterwards and
/// the ordered (name, descriptor) pairs of the injected parameters.
pub struct ExtractionResult {
    pub cb: CallbackView,
    pub outcome: Result<Seq<(Seq<char>, InjectedView)>, DiErrorView>,
}

pub open spec fn spec_visit_params(cb: CallbackView, names: Seq<Seq<char>>) -> ExtractionResult
    decreases names.len(),
{
    if names.len() == 0 {
        ExtractionResult { cb, outcome: Ok(Seq::empty()) }
    } else {
        let st = spec_visit_param(cb, names[0]);
        match st.outcome {
            Err(e) => ExtractionResult { cb: st.cb, outcome: Err(e) },
            Ok(opt) => {
                let rest = spec_visit_params(st.cb, names.drop_first());
                match rest.outcome {
                    Err(_) => rest,
                    Ok(tail) => ExtractionResult {
                        cb: rest.cb,
                        outcome: Ok(
                            match opt {
                                Some(d) => seq![(names[0], d)] + tail,
                                None => tail,
                            },
                        ),
                    },
                }
            },
        }
    }
}

/// The parameter names, in declaration order.
pub open spec fn spec_param_names(params: Seq<ParamView>) -> Seq<Seq<char>> {
    params.map_values(|p: ParamView| p.name)
}

/// The whole extraction for one callable; a callable with no recoverable
/// signature has no injected parameters.
pub open spec fn spec_visit_callback(cb: CallbackView) -> ExtractionResult {
    match cb.signature {
        None => ExtractionResult { cb, outcome: Ok(Seq::empty()) },
        Some(params) => spec_visit_params(cb, spec_param_names(params)),
    }
}

/// Annotation resolution leaves the callable's identity key unchanged.
pub proof fn lemma_resolve_annotation_preserves_key(cb: CallbackView, name: Seq<char>)
    ensures
        spec_resolve_annotation(cb, name).cb.key == cb.key,
    decreases (if cb.resolved {
        0int
    } else {
        1int
    }),
{
    match cb.signature {
        None => {},
        Some(params) => {
            match spec_find_param(params, name) {
                None => {},
                Some(p) => {
                    if p.annotation is ForwardRef && !cb.resolved {
                        lemma_resolve_annotation_preserves_key(
                            CallbackView {
                                key: cb.key,
                                signature: cb.evaluated,
                                evaluated: None,
                                resolved: true,
                            },
                            name,
                        );
                    }
                },
            }
        },
    }
}

/// One parameter's classification leaves the callable's key unchanged.
pub proof fn lemma_visit_param_preserves_key(cb: CallbackView, name: Seq<char>)
    ensures
        spec_visit_param(cb, name).cb.key == cb.key,
{
    lemma_resolve_annotation_preserves_key(cb, name);
    let d = spec_visit_default(cb, name);
    lemma_resolve_annotation_preserves_key(d.cb, name);
}

/// Extraction over a parameter list leaves the callable's key unchanged.
pub proof fn lemma_visit_params_preserves_key(cb: CallbackView, names: Seq<Seq<char>>)
    ensures
        spec_visit_params(cb, names).cb.key == cb.key,
    decreases names.len(),
{
    if names.len() != 0 {
        let st = spec_visit_param(cb, names[0]);
        lemma_visit_param_preserves_key(cb, names[0]);
        match st.outcome {
            Err(_) => {},
            Ok(_) => {
                lemma_visit_params_preserves_key(st.cb, names.drop_first());
            },
        }
    }
}

/// The whole extraction leaves the callable's key unchanged.
pub proof fn lemma_visit_callback_preserves_key(cb: CallbackView)
    ensures
        spec_visit_callback(cb).cb.key == cb.key,
{
    match cb.signature {
        None => {},
        Some(params) => {
            lemma_visit_params_preserves_key(cb, spec_param_names(params));
        },
    }
}

fn args_have_inject_type(args: &Vec<Marker>) -> (r: bool)
    ensures
        r == spec_args_have_inject_type(args@.map_values(|m: Marker| m@)),
{
    let ghost av = args@.map_values(|m: Marker| m@);
    let n = args.len();
    let mut i: usize = 0;
    while i < n
        invariant
            n == args@.len(),
            i <= n,
            av == args@.map_values(|m: Marker| m@),
            forall|j: int| 0 <= j < i ==> !((#[trigger] av[j]) is InjectType),
        decreases n - i,
    {
        proof {
            assert(av[i as int] == args@[i as int]@);
        }
        match args[i] {
            Marker::InjectType => {
                return true;
            },
            _ => {},
        }
        i += 1;
    }
    false
}

fn first_descriptor(args: &Vec<Marker>) -> (r: Option<InjectedMeta>)
    ensures
        (match r {
            Some(m) => spec_first_descriptor(args@.map_values(|x: Marker| x@)) == Some(m@),
            None => spec_first_descriptor(args@.map_values(|x: Marker| x@)) is None,
        }),
{
    let ghost av = args@.map_values(|m: Marker| m@);
    let n = args.len();
    let mut i: usize = 0;
    proof {
        assert(av.skip(0) =~= av);
    }
    while i < n
        invariant
            n == args@.len(),
            i <= n,
            av == args@.map_values(|m: Marker| m@),
            spec_first_descriptor(av.skip(i as int)) == spec_first_descriptor(av),
        decreases n - i,
    {
        proof {
            assert(av.skip(i as int)[0] == args@[i as int]@);
            assert(av.skip(i as int).drop_first() =~= av.skip(i as int + 1));
        }
        match &args[i] {
            Marker::Descriptor(m) => {
                return Some(clone_meta(m));
            },
            _ => {},
        }
        i += 1;
    }
    proof {
        assert(av.skip(n as int) =~= Seq::<MarkerView>::empty());
    }
    None
}

/// The visitor: classifies parameters into descriptors.
pub struct ParameterVisitor {}

impl ParameterVisitor {
    /// Flattens one type expression into a type descriptor.
    pub fn parse_type(t: &TypeExpr, other_default: Option<Value>) -> (r: Injected)
        ensures
            r@ == InjectedView::Type(spec_parse_type(t@, other_default)),
    {
        match &t.shape {
            TypeShape::Simple(k) => {
                let mut ids: Vec<i64> = Vec::new();
                ids.push(*k);
                proof {
                    assert(ids@ =~= seq![*k]);
                }
                Injected::new_type(other_default, t.repr.clone(), ids)
            },
            TypeShape::Union(members) => {
                let ids = union_type_ids(members);
                let default = if union_has_none(members) && other_default.is_none() {
                    Some(Value::Null)
                } else {
                    other_default
                };
                Injected::new_type(default, t.repr.clone(), ids)
            },
        }
    }

    /// Derives a type descriptor from an annotation: an annotated-type
    /// wrapper contributes its underlying type, any other annotation stands
    /// for itself.
    pub fn annotation_to_type(a: &Annotation, default: Option<Value>) -> (r: Injected)
        requires
            !(a@ is Empty),
        ensures
            r@ == InjectedView::Type(spec_parse_type(spec_fallback_expr(a@), default)),
    {
        match a {
            Annotation::ForwardRef(t) => Self::parse_type(t, default),
            Annotation::Ty(t) => Self::parse_type(t, default),
            Annotation::Annotated { first, .. } => Self::parse_type(first, default),
            Annotation::Empty => {
                proof {
                    assert(false);
                }
                let empty_expr = TypeExpr { repr: String::new(), shape: TypeShape::Simple(0) };
                Self::parse_type(&empty_expr, default)
            },
        }
    }

    /// The default pass over one parameter.
    pub fn visit_default(cb: &mut Callback, name: &String) -> (r: Result<Option<Injected>, DiError>)
        ensures
            ({
                let s = spec_visit_default(old(cb)@, name@);
                final(cb)@ == s.cb && (match r {
                    Ok(None) => s.outcome == Ok::<Option<InjectedView>, DiErrorView>(None),
                    Ok(Some(d)) => s.outcome == Ok::<Option<InjectedView>, DiErrorView>(
                        Some(d@),
                    ),
                    Err(e) => s.outcome == Err::<Option<InjectedView>, DiErrorView>(e@),
                })
            }),
    {
        let meta: InjectedMeta = match &cb.signature {
            None => {
                return Err(DiError::ParameterNotFound { name: name.clone() });
            },
            Some(params) => {
                match find_param(params, name) {
                    None => {
                        return Err(DiError::ParameterNotFound { name: name.clone() });
                    },
                    Some(i) => {
                        match &params[i].default {
                            DefaultSlot::Descriptor(m) => clone_meta(m),
                            _ => {
                                return Ok(None);
                            },
                        }
                    },
                }
            },
        };
        match meta.callback {
            Some(k) => Ok(Some(Injected::new_callback(k))),
            None => {
                match &meta.type_expr {
                    Some(te) => Ok(Some(Self::parse_type(te, None))),
                    None => {
                        match cb.resolve_annotation(name) {
                            Err(e) => Err(e),
                            Ok(None) => Err(DiError::UnresolvedParameter { name: name.clone() }),
                            Ok(Some(a)) => {
                                proof {
                                    lemma_resolved_annotation_not_empty(old(cb)@, name@);
                                }
                                Ok(Some(Self::annotation_to_type(&a, None)))
                            },
                        }
                    },
                }
            },
        }
    }

    /// The annotation pass over one parameter.
    pub fn visit_annotation(cb: &mut Callback, name: &String) -> (r: Result<
        Option<Injected>,
        DiError,
    >)
        ensures
            ({
                let s = spec_visit_annotation(old(cb)@, name@);
                final(cb)@ == s.cb && (match r {
                    Ok(None) => s.outcome == Ok::<Option<InjectedView>, DiErrorView>(None),
                    Ok(Some(d)) => s.outcome == Ok::<Option<InjectedView>, DiErrorView>(
                        Some(d@),
                    ),
                    Err(e) => s.outcome == Err::<Option<InjectedView>, DiErrorView>(e@),
                })
            }),
    {
        let a = match cb.resolve_annotation(name) {
            Err(e) => {
                return Err(e);
            },
            Ok(None) => {
                return Ok(None);
            },
            Ok(Some(a)) => a,
        };
        let dflt: Option<Value> = match &cb.signature {
            None => {
                return Err(DiError::ParameterNotFound { name: name.clone() });
            },
            Some(params) => {
                match find_param(params, name) {
                    None => {
                        return Err(DiError::ParameterNotFound { name: name.clone() });
                    },
                    Some(i) => {
                        match &params[i].default {
                            DefaultSlot::Plain(v) => Some(*v),
                            _ => None,
                        }
                    },
                }
            },
        };
        match &a {
            Annotation::Annotated { first, args } => {
                if args_have_inject_type(args) {
                    Ok(Some(Self::parse_type(first, dflt)))
                } else {
                    match first_descriptor(args) {
                        Some(meta) => {
                            match meta.callback {
                                Some(k) => Ok(Some(Injected::new_callback(k))),
                                None => {
                                    match &meta.type_expr {
                                        Some(te) => Ok(Some(Self::parse_type(te, dflt))),
                                        None => Ok(Some(Self::parse_type(first, dflt))),
                                    }
                                },
                            }
                        },
                        None => Ok(None),
                    }
                }
            },
            _ => Ok(None),
        }
    }

    /// The whole extraction: every declared parameter in order, each first
    /// through the default pass, then the annotation pass.
    pub fn visit_callback(cb: &mut Callback) -> (r: Result<Vec<(String, Injected)>, DiError>)
        ensures
            ({
                let s = spec_visit_callback(old(cb)@);
                final(cb)@ == s.cb && (match r {
                    Ok(v) => s.outcome == Ok::<Seq<(Seq<char>, InjectedView)>, DiErrorView>(
                        crate::types::descriptor_list_view(v@),
                    ),
                    Err(e) => s.outcome == Err::<Seq<(Seq<char>, InjectedView)>, DiErrorView>(
                        e@,
                    ),
                })
            }),
    {
        let names: Vec<String> = match &cb.signature {
            None => {
                let out: Vec<(String, Injected)> = Vec::new();
                proof {
                    assert(crate::types::descriptor_list_view(out@) =~= Seq::<
                        (Seq<char>, InjectedView),
                    >::empty());
                }
                return Ok(out);
            },
            Some(params) => {
                let n = params.len();
                let mut names: Vec<String> = Vec::new();
                let mut i: usize = 0;
                while i < n
                    invariant
                        n == params@.len(),
                        i <= n,
                        names@.len() == i,
                        forall|j: int| 0 <= j < i ==> (#[trigger] names@[j])@ == params@[j]@.name,
                    decreases n - i,
                {
                    names.push(params[i].name.clone());
                    i += 1;
                }
                names
            },
        };
        let ghost names_v: Seq<Seq<char>> = names@.map_values(|s: String| s@);
        let ghost target = spec_visit_callback(old(cb)@);
        proof {
            if let Some(pv) = old(cb)@.signature {
                assert(names_v =~= spec_param_names(pv));
            }
            assert(names_v.skip(0) =~= names_v);
            assert(crate::types::descriptor_list_view(Seq::<(String, Injected)>::empty()) =~= Seq::<
                (Seq<char>, InjectedView),
            >::empty());
        }
        let mut out: Vec<(String, Injected)> = Vec::new();
        let n = names.len();
        let mut i: usize = 0;
        while i < n
            invariant
                n == names@.len(),
                i <= n,
                names_v == names@.map_values(|s: String| s@),
                target == spec_visit_callback(old(cb)@),
                ({
                    let rest = spec_visit_params(cb@, names_v.skip(i as int));
                    match rest.outcome {
                        Ok(tail) => target == (ExtractionResult {
                            cb: rest.cb,
                            outcome: Ok(crate::types::descriptor_list_view(out@) + tail),
                        }),
                        Err(e) => target == (ExtractionResult { cb: rest.cb, outcome: Err(e) }),
                    }
                }),
            decreases n - i,
        {
            proof {
                assert(names_v.skip(i as int)[0] == names_v[i as int]);
                assert(names_v[i as int] == names@[i as int]@);
                assert(names_v.skip(i as int).drop_first() =~= names_v.skip(i as int + 1));
            }
            let ghost cb_entry = cb@;
            let ghost out_entry = out@;
            let di: Option<Injected> = match Self::visit_default(cb, &names[i]) {
                Err(e) => {
                    return Err(e);
                },
                Ok(Some(d)) => Some(d),
                Ok(None) => {
                    match Self::visit_annotation(cb, &names[i]) {
                        Err(e) => {
                            return Err(e);
                        },
                        Ok(x) => x,
                    }
                },
            };
            match di {
                Some(d) => {
                    out.push((names[i].clone(), d));
                    proof {
                        let pair = (names_v[i as int], d@);
                        assert(crate::types::descriptor_list_view(out@) =~= crate::types::descriptor_list_view(
                            out_entry,
                        ) + seq![pair]);
                        let rest = spec_visit_params(cb@, names_v.skip(i as int + 1));
                        if rest.outcome is Ok {
                            let tail = rest.outcome->Ok_0;
                            assert(crate::types::descriptor_list_view(out_entry) + (seq![pair]
                                + tail) =~= crate::types::descriptor_list_view(out@) + tail);
                        }
                    }
                },
                None => {},
            }
            i += 1;
        }
        proof {
            assert(names_v.skip(n as int) =~= Seq::<Seq<char>>::empty());
            assert(crate::types::descriptor_list_view(out@) + Seq::<
                (Seq<char>, InjectedView),
            >::empty() =~= crate::types::descriptor_list_view(out@));
        }
        Ok(out)
    }
}

} // verus!
