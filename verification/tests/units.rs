use alluka::client::BasicContext;
use alluka::client::Client;
use alluka::client::MaybeAsync;
use alluka::client::finish_sync_call;
use alluka::kwargs::Kwargs;
use alluka::types::InjectedType;
use alluka::values::DiError;
use alluka::values::Value;
use alluka::visitor::Annotation;
use alluka::visitor::Callback;
use alluka::visitor::DefaultSlot;
use alluka::visitor::Param;
use alluka::visitor::SignatureInfo;

#[test]
fn kwargs_insert_replaces_and_get_finds() {
    let mut kwargs = Kwargs::new();
    assert_eq!(kwargs.get(&"a".to_string()), None);
    kwargs.insert("a".to_string(), Value::Plain(1));
    kwargs.insert("a".to_string(), Value::Plain(2));
    assert_eq!(kwargs.get(&"a".to_string()), Some(Value::Plain(2)));
    assert!(kwargs.contains_key(&"a".to_string()));
    assert!(!kwargs.contains_key(&"b".to_string()));
}

#[test]
fn kwargs_insert_if_absent_only_fills_gaps() {
    let mut kwargs = Kwargs::new();
    kwargs.insert("a".to_string(), Value::Plain(1));
    kwargs.insert_if_absent("a".to_string(), Value::Plain(9));
    kwargs.insert_if_absent("b".to_string(), Value::Plain(7));
    assert_eq!(kwargs.get(&"a".to_string()), Some(Value::Plain(1)));
    assert_eq!(kwargs.get(&"b".to_string()), Some(Value::Plain(7)));
}

#[test]
fn from_result_identifies_asynchronous_values() {
    assert_eq!(MaybeAsync::from_result(Value::Coroutine(4)), MaybeAsync::Receiver(4));
    assert_eq!(MaybeAsync::from_result(Value::Plain(4)), MaybeAsync::Ready(Value::Plain(4)));
    assert_eq!(MaybeAsync::from_result(Value::Null), MaybeAsync::Ready(Value::Null));
}

#[test]
fn finish_sync_call_refuses_only_coroutines() {
    assert!(matches!(finish_sync_call(Value::Coroutine(4)), Err(DiError::AsyncOnly)));
    assert_eq!(finish_sync_call(Value::Plain(4)).unwrap(), Value::Plain(4));
    assert_eq!(finish_sync_call(Value::Null).unwrap(), Value::Null);
}

#[test]
fn value_is_coroutine() {
    assert!(Value::Coroutine(0).is_coroutine());
    assert!(!Value::Plain(0).is_coroutine());
    assert!(!Value::Null.is_coroutine());
    assert!(!Value::Undefined.is_coroutine());
}

#[test]
fn resolve_annotation_unknown_parameter_fails() {
    let params = vec![Param {
        name: "a".to_string(),
        default: DefaultSlot::Missing,
        annotation: Annotation::Empty,
    }];
    let mut cb = Callback::new(1, SignatureInfo { initial: Some(params), evaluated: None });
    match cb.resolve_annotation(&"missing".to_string()) {
        Err(DiError::ParameterNotFound { name }) => assert_eq!(name, "missing"),
        _ => panic!("expected the parameter-not-found error"),
    }
}

#[test]
fn callback_reports_its_key() {
    let cb = Callback::new(37, SignatureInfo { initial: None, evaluated: None });
    assert_eq!(cb.key(), 37);
}

#[test]
fn type_descriptor_probes_keys_in_order() {
    let mut client = Client::new(true);
    client.set_type_dependency(1, Value::Plain(10));
    client.set_type_dependency(2, Value::Plain(20));
    let ctx = BasicContext::new();
    let descriptor =
        InjectedType { default: None, repr_type: "Foo | Bar".to_string(), type_ids: vec![1, 2] };
    assert_eq!(descriptor.resolve_rust(&client, &ctx).unwrap(), Value::Plain(10));

    client.remove_type_dependency(1).unwrap();
    assert_eq!(descriptor.resolve_rust(&client, &ctx).unwrap(), Value::Plain(20));
}

#[test]
fn type_descriptor_prefers_context_override_per_key() {
    let mut client = Client::new(true);
    client.set_type_dependency(1, Value::Plain(10));
    let mut ctx = BasicContext::new();
    ctx.set_type_special_case(1, Value::Plain(11));
    let descriptor =
        InjectedType { default: None, repr_type: "Foo".to_string(), type_ids: vec![1] };
    assert_eq!(descriptor.resolve_rust(&client, &ctx).unwrap(), Value::Plain(11));
}

#[test]
fn type_descriptor_reports_missing_dependency_repr() {
    let client = Client::new(true);
    let ctx = BasicContext::new();
    let descriptor =
        InjectedType { default: None, repr_type: "pkg.Widget".to_string(), type_ids: vec![1, 2] };
    match descriptor.resolve_rust(&client, &ctx) {
        Err(DiError::MissingDependency { repr }) => assert_eq!(repr, "pkg.Widget"),
        _ => panic!("expected the missing-dependency error"),
    }
}
