use std::collections::HashMap;

use alluka::client::BasicContext;
use alluka::client::Client;
use alluka::client::MaybeAsync;
use alluka::client::finish_sync_call;
use alluka::kwargs::Kwargs;
use alluka::values::DiError;
use alluka::values::Value;
use alluka::visitor::Annotation;
use alluka::visitor::Callback;
use alluka::visitor::DefaultSlot;
use alluka::visitor::InjectedMeta;
use alluka::visitor::Marker;
use alluka::visitor::Param;
use alluka::visitor::SignatureInfo;
use alluka::visitor::TypeExpr;
use alluka::visitor::TypeShape;

type Body = Box<dyn Fn(&Vec<Value>, &Kwargs) -> Value>;
type Sig = Box<dyn Fn() -> SignatureInfo>;

struct HostCallable {
    sig: Sig,
    body: Body,
}

/// The embedding layer of the engine: it owns the actual callables (keyed
/// by identity), invokes them, and knows what each asynchronous
/// computation would resolve to.
struct Host {
    callables: HashMap<i64, HostCallable>,
    awaited: HashMap<u64, Value>,
}

impl Host {
    fn new() -> Self {
        Host { callables: HashMap::new(), awaited: HashMap::new() }
    }

    fn add(&mut self, key: i64, sig: Sig, body: Body) {
        self.callables.insert(key, HostCallable { sig, body });
    }
}

fn no_sig() -> SignatureInfo {
    SignatureInfo { initial: None, evaluated: None }
}

fn injected_type_param(name: &str, repr: &str, key: i64, default: DefaultSlot) -> Param {
    Param {
        name: name.to_string(),
        default,
        annotation: Annotation::Annotated {
            first: TypeExpr { repr: repr.to_string(), shape: TypeShape::Simple(key) },
            args: vec![Marker::InjectType],
        },
    }
}

fn injected_callback_param(name: &str, target: i64) -> Param {
    Param {
        name: name.to_string(),
        default: DefaultSlot::Descriptor(InjectedMeta { callback: Some(target), type_expr: None }),
        annotation: Annotation::Empty,
    }
}

/// The synchronous dispatch loop: plan, recursively resolve the pending
/// nested calls, invoke, and refuse an asynchronous result.
fn call_with_ctx(
    client: &mut Client,
    ctx: &BasicContext,
    host: &Host,
    key: i64,
    args: Vec<Value>,
    kwargs: Kwargs,
) -> Result<Value, DiError> {
    let callable = host.callables.get(&key).expect("unknown callable");
    let mut cb = Callback::new(key, (callable.sig)());
    let mut plan = client.plan_call_with_ctx(ctx, &mut cb, args, kwargs)?;
    let pending = std::mem::take(&mut plan.pending);
    for (name, target) in pending {
        let v = call_with_ctx(client, ctx, host, target, Vec::new(), Kwargs::new())?;
        plan.kwargs.insert_if_absent(name, v);
    }
    let result = (callable.body)(&plan.args, &plan.kwargs);
    finish_sync_call(result)
}

fn call_with_di(
    client: &mut Client,
    host: &Host,
    key: i64,
    args: Vec<Value>,
    kwargs: Kwargs,
) -> Result<Value, DiError> {
    let ctx = BasicContext::new();
    call_with_ctx(client, &ctx, host, key, args, kwargs)
}

/// The asynchronous dispatch loop: as above, but an asynchronous result
/// crosses the bridge and its awaited value is returned.
fn call_with_ctx_async(
    client: &mut Client,
    ctx: &BasicContext,
    host: &Host,
    key: i64,
    args: Vec<Value>,
    kwargs: Kwargs,
) -> Result<Value, DiError> {
    let callable = host.callables.get(&key).expect("unknown callable");
    let mut cb = Callback::new(key, (callable.sig)());
    let mut plan = client.plan_call_with_ctx(ctx, &mut cb, args, kwargs)?;
    let pending = std::mem::take(&mut plan.pending);
    for (name, target) in pending {
        let v = call_with_ctx_async(client, ctx, host, target, Vec::new(), Kwargs::new())?;
        plan.kwargs.insert_if_absent(name, v);
    }
    let result = (callable.body)(&plan.args, &plan.kwargs);
    match MaybeAsync::from_result(result) {
        MaybeAsync::Ready(v) => Ok(v),
        MaybeAsync::Receiver(id) => Ok(*host.awaited.get(&id).expect("nothing to await")),
    }
}

fn call_with_async_di(
    client: &mut Client,
    host: &Host,
    key: i64,
    args: Vec<Value>,
    kwargs: Kwargs,
) -> Result<Value, DiError> {
    let ctx = BasicContext::new();
    call_with_ctx_async(client, &ctx, host, key, args, kwargs)
}

#[test]
fn early_return_passes_arguments_through() {
    let mut host = Host::new();
    host.add(1, Box::new(no_sig), Box::new(|args, _| args[0]));
    let mut client = Client::new(true);

    let direct = Value::Plain(5);
    let via_di =
        call_with_di(&mut client, &host, 1, vec![Value::Plain(5), Value::Plain(6)], Kwargs::new());
    assert_eq!(via_di.unwrap(), direct);
}

#[test]
fn early_return_keeps_caller_keywords() {
    let mut host = Host::new();
    host.add(
        1,
        Box::new(no_sig),
        Box::new(|_, kwargs| kwargs.get(&"x".to_string()).expect("x was passed")),
    );
    let mut client = Client::new(true);
    let mut kwargs = Kwargs::new();
    kwargs.insert("x".to_string(), Value::Plain(31));
    assert_eq!(call_with_di(&mut client, &host, 1, Vec::new(), kwargs).unwrap(), Value::Plain(31));
}

#[test]
fn type_dependency_resolves_to_registered_value() {
    let mut host = Host::new();
    host.add(
        1,
        Box::new(|| SignatureInfo {
            initial: Some(vec![injected_type_param("dep", "Foo", 7, DefaultSlot::Missing)]),
            evaluated: None,
        }),
        Box::new(|_, kwargs| kwargs.get(&"dep".to_string()).expect("dep was injected")),
    );
    let mut client = Client::new(true);
    client.set_type_dependency(7, Value::Plain(42));
    assert_eq!(call_with_di(&mut client, &host, 1, Vec::new(), Kwargs::new()).unwrap(), Value::Plain(42));

    // removing the key makes resolution fail: there is no default
    client.remove_type_dependency(7).unwrap();
    match call_with_di(&mut client, &host, 1, Vec::new(), Kwargs::new()) {
        Err(DiError::MissingDependency { repr }) => assert_eq!(repr, "Foo"),
        _ => panic!("expected the missing-dependency error"),
    }
}

#[test]
fn type_dependency_falls_back_to_declared_default() {
    let mut host = Host::new();
    host.add(
        1,
        Box::new(|| SignatureInfo {
            initial: Some(vec![injected_type_param(
                "dep",
                "Foo",
                7,
                DefaultSlot::Plain(Value::Plain(9)),
            )]),
            evaluated: None,
        }),
        Box::new(|_, kwargs| kwargs.get(&"dep".to_string()).expect("dep was injected")),
    );
    let mut client = Client::new(true);
    assert_eq!(call_with_di(&mut client, &host, 1, Vec::new(), Kwargs::new()).unwrap(), Value::Plain(9));
}

#[test]
fn context_override_shadows_but_does_not_leak() {
    let mut host = Host::new();
    host.add(
        1,
        Box::new(|| SignatureInfo {
            initial: Some(vec![injected_type_param("dep", "Foo", 7, DefaultSlot::Missing)]),
            evaluated: None,
        }),
        Box::new(|_, kwargs| kwargs.get(&"dep".to_string()).expect("dep was injected")),
    );
    let mut client = Client::new(true);
    client.set_type_dependency(7, Value::Plain(1));

    let mut shadowing = BasicContext::new();
    shadowing.set_type_special_case(7, Value::Plain(2));
    assert_eq!(
        call_with_ctx(&mut client, &shadowing, &host, 1, Vec::new(), Kwargs::new()).unwrap(),
        Value::Plain(2),
    );

    // a sibling context built from the same client sees only the client
    let sibling = BasicContext::new();
    assert_eq!(
        call_with_ctx(&mut client, &sibling, &host, 1, Vec::new(), Kwargs::new()).unwrap(),
        Value::Plain(1),
    );
}

#[test]
fn caller_keyword_wins_over_resolved_value() {
    let mut host = Host::new();
    host.add(
        1,
        Box::new(|| SignatureInfo {
            initial: Some(vec![injected_type_param("dep", "Foo", 7, DefaultSlot::Missing)]),
            evaluated: None,
        }),
        Box::new(|_, kwargs| kwargs.get(&"dep".to_string()).expect("dep is present")),
    );
    let mut client = Client::new(true);
    client.set_type_dependency(7, Value::Plain(42));
    let mut kwargs = Kwargs::new();
    kwargs.insert("dep".to_string(), Value::Plain(99));
    assert_eq!(call_with_di(&mut client, &host, 1, Vec::new(), kwargs).unwrap(), Value::Plain(99));
}

#[test]
fn callback_descriptor_dispatches_nested_call() {
    let mut host = Host::new();
    host.add(2, Box::new(no_sig), Box::new(|_, _| Value::Plain(5)));
    host.add(
        1,
        Box::new(|| SignatureInfo {
            initial: Some(vec![injected_callback_param("dep", 2)]),
            evaluated: None,
        }),
        Box::new(|_, kwargs| kwargs.get(&"dep".to_string()).expect("dep was injected")),
    );
    let mut client = Client::new(true);
    assert_eq!(call_with_di(&mut client, &host, 1, Vec::new(), Kwargs::new()).unwrap(), Value::Plain(5));
}

#[test]
fn callback_override_redirects_nested_call() {
    let mut host = Host::new();
    host.add(2, Box::new(no_sig), Box::new(|_, _| Value::Plain(5)));
    host.add(3, Box::new(no_sig), Box::new(|_, _| Value::Plain(6)));
    host.add(
        1,
        Box::new(|| SignatureInfo {
            initial: Some(vec![injected_callback_param("dep", 2)]),
            evaluated: None,
        }),
        Box::new(|_, kwargs| kwargs.get(&"dep".to_string()).expect("dep was injected")),
    );
    let mut client = Client::new(true);
    client.set_callback_override(2, 3);
    assert_eq!(call_with_di(&mut client, &host, 1, Vec::new(), Kwargs::new()).unwrap(), Value::Plain(6));
}

#[test]
fn sync_dispatch_refuses_async_result() {
    let mut host = Host::new();
    host.add(1, Box::new(no_sig), Box::new(|_, _| Value::Coroutine(11)));
    host.awaited.insert(11, Value::Plain(123));
    let mut client = Client::new(true);

    let sync = call_with_di(&mut client, &host, 1, Vec::new(), Kwargs::new());
    assert!(matches!(sync, Err(DiError::AsyncOnly)));

    let awaited = call_with_async_di(&mut client, &host, 1, Vec::new(), Kwargs::new());
    assert_eq!(awaited.unwrap(), Value::Plain(123));
}

#[test]
fn async_dispatch_returns_plain_result_directly() {
    let mut host = Host::new();
    host.add(1, Box::new(no_sig), Box::new(|_, _| Value::Plain(4)));
    let mut client = Client::new(true);
    assert_eq!(
        call_with_async_di(&mut client, &host, 1, Vec::new(), Kwargs::new()).unwrap(),
        Value::Plain(4),
    );
}

#[test]
fn nested_error_propagates_unchanged() {
    let mut host = Host::new();
    host.add(
        2,
        Box::new(|| SignatureInfo {
            initial: Some(vec![injected_type_param("inner", "Bar", 8, DefaultSlot::Missing)]),
            evaluated: None,
        }),
        Box::new(|_, kwargs| kwargs.get(&"inner".to_string()).expect("inner was injected")),
    );
    host.add(
        1,
        Box::new(|| SignatureInfo {
            initial: Some(vec![injected_callback_param("dep", 2)]),
            evaluated: None,
        }),
        Box::new(|_, kwargs| kwargs.get(&"dep".to_string()).expect("dep was injected")),
    );
    let mut client = Client::new(true);
    match call_with_di(&mut client, &host, 1, Vec::new(), Kwargs::new()) {
        Err(DiError::MissingDependency { repr }) => assert_eq!(repr, "Bar"),
        _ => panic!("expected the nested missing-dependency error unchanged"),
    }
}
