use alluka::client::Client;
use alluka::types::Injected;
use alluka::values::DiError;
use alluka::values::Value;
use alluka::visitor::Annotation;
use alluka::visitor::Callback;
use alluka::visitor::DefaultSlot;
use alluka::visitor::InjectedMeta;
use alluka::visitor::Marker;
use alluka::visitor::Param;
use alluka::visitor::SignatureInfo;
use alluka::visitor::TypeExpr;
use alluka::visitor::TypeShape;
use alluka::visitor::UnionMember;

fn simple(repr: &str, key: i64) -> TypeExpr {
    TypeExpr { repr: repr.to_string(), shape: TypeShape::Simple(key) }
}

fn no_meta_sig() -> SignatureInfo {
    SignatureInfo { initial: None, evaluated: None }
}

#[test]
fn no_signature_yields_no_descriptors() {
    let mut cb = Callback::new(1, no_meta_sig());
    let ds = cb.accept().unwrap();
    assert!(ds.is_empty());
}

#[test]
fn plain_parameters_are_not_injected() {
    let params = vec![
        Param { name: "a".to_string(), default: DefaultSlot::Missing, annotation: Annotation::Empty },
        Param {
            name: "b".to_string(),
            default: DefaultSlot::Plain(Value::Plain(3)),
            annotation: Annotation::Ty(simple("int", 10)),
        },
    ];
    let mut cb = Callback::new(2, SignatureInfo { initial: Some(params), evaluated: None });
    let ds = cb.accept().unwrap();
    assert!(ds.is_empty());
}

#[test]
fn inject_type_marker_builds_type_descriptor() {
    let params = vec![Param {
        name: "dep".to_string(),
        default: DefaultSlot::Missing,
        annotation: Annotation::Annotated {
            first: simple("Foo", 77),
            args: vec![Marker::Other, Marker::InjectType],
        },
    }];
    let mut cb = Callback::new(3, SignatureInfo { initial: Some(params), evaluated: None });
    let ds = cb.accept().unwrap();
    assert_eq!(ds.len(), 1);
    assert_eq!(ds[0].0, "dep");
    match &ds[0].1 {
        Injected::Type(t) => {
            assert_eq!(t.type_ids, vec![77]);
            assert_eq!(t.default, None);
            assert_eq!(t.repr_type, "Foo");
        }
        other => panic!("expected a type descriptor, got {:?}", descriptor_kind(other)),
    }
}

#[test]
fn declared_default_fills_descriptor_default() {
    let params = vec![Param {
        name: "dep".to_string(),
        default: DefaultSlot::Plain(Value::Plain(5)),
        annotation: Annotation::Annotated { first: simple("Foo", 77), args: vec![Marker::InjectType] },
    }];
    let mut cb = Callback::new(4, SignatureInfo { initial: Some(params), evaluated: None });
    let ds = cb.accept().unwrap();
    match &ds[0].1 {
        Injected::Type(t) => assert_eq!(t.default, Some(Value::Plain(5))),
        other => panic!("expected a type descriptor, got {:?}", descriptor_kind(other)),
    }
}

#[test]
fn union_is_flattened_in_declaration_order() {
    let union_expr = TypeExpr {
        repr: "Foo | Bar".to_string(),
        shape: TypeShape::Union(vec![UnionMember::Ty(1), UnionMember::Ty(2)]),
    };
    let params = vec![Param {
        name: "dep".to_string(),
        default: DefaultSlot::Missing,
        annotation: Annotation::Annotated { first: union_expr, args: vec![Marker::InjectType] },
    }];
    let mut cb = Callback::new(5, SignatureInfo { initial: Some(params), evaluated: None });
    let ds = cb.accept().unwrap();
    match &ds[0].1 {
        Injected::Type(t) => {
            assert_eq!(t.type_ids, vec![1, 2]);
            assert_eq!(t.default, None);
        }
        other => panic!("expected a type descriptor, got {:?}", descriptor_kind(other)),
    }
}

#[test]
fn optional_union_gets_implicit_null_default() {
    let union_expr = TypeExpr {
        repr: "Foo | None".to_string(),
        shape: TypeShape::Union(vec![UnionMember::Ty(1), UnionMember::NoneType, UnionMember::Ty(2)]),
    };
    let params = vec![Param {
        name: "dep".to_string(),
        default: DefaultSlot::Missing,
        annotation: Annotation::Annotated { first: union_expr, args: vec![Marker::InjectType] },
    }];
    let mut cb = Callback::new(6, SignatureInfo { initial: Some(params), evaluated: None });
    let ds = cb.accept().unwrap();
    match &ds[0].1 {
        Injected::Type(t) => {
            // the none-type member is dropped and becomes the implicit default
            assert_eq!(t.type_ids, vec![1, 2]);
            assert_eq!(t.default, Some(Value::Null));
        }
        other => panic!("expected a type descriptor, got {:?}", descriptor_kind(other)),
    }
}

#[test]
fn optional_union_keeps_explicit_default() {
    let union_expr = TypeExpr {
        repr: "Foo | None".to_string(),
        shape: TypeShape::Union(vec![UnionMember::Ty(1), UnionMember::NoneType]),
    };
    let params = vec![Param {
        name: "dep".to_string(),
        default: DefaultSlot::Plain(Value::Plain(8)),
        annotation: Annotation::Annotated { first: union_expr, args: vec![Marker::InjectType] },
    }];
    let mut cb = Callback::new(7, SignatureInfo { initial: Some(params), evaluated: None });
    let ds = cb.accept().unwrap();
    match &ds[0].1 {
        Injected::Type(t) => assert_eq!(t.default, Some(Value::Plain(8))),
        other => panic!("expected a type descriptor, got {:?}", descriptor_kind(other)),
    }
}

#[test]
fn descriptor_argument_with_callback_injects_nested_call() {
    let params = vec![Param {
        name: "dep".to_string(),
        default: DefaultSlot::Missing,
        annotation: Annotation::Annotated {
            first: simple("Foo", 77),
            args: vec![Marker::Descriptor(InjectedMeta { callback: Some(900), type_expr: None })],
        },
    }];
    let mut cb = Callback::new(8, SignatureInfo { initial: Some(params), evaluated: None });
    let ds = cb.accept().unwrap();
    match &ds[0].1 {
        Injected::Callback(c) => assert_eq!(c.callback, 900),
        other => panic!("expected a callback descriptor, got {:?}", descriptor_kind(other)),
    }
}

#[test]
fn descriptor_argument_with_type_overrides_annotation() {
    let params = vec![Param {
        name: "dep".to_string(),
        default: DefaultSlot::Missing,
        annotation: Annotation::Annotated {
            first: simple("Foo", 77),
            args: vec![Marker::Descriptor(InjectedMeta {
                callback: None,
                type_expr: Some(simple("Bar", 88)),
            })],
        },
    }];
    let mut cb = Callback::new(9, SignatureInfo { initial: Some(params), evaluated: None });
    let ds = cb.accept().unwrap();
    match &ds[0].1 {
        Injected::Type(t) => assert_eq!(t.type_ids, vec![88]),
        other => panic!("expected a type descriptor, got {:?}", descriptor_kind(other)),
    }
}

#[test]
fn bare_descriptor_argument_falls_back_to_annotated_type() {
    let params = vec![Param {
        name: "dep".to_string(),
        default: DefaultSlot::Missing,
        annotation: Annotation::Annotated {
            first: simple("Foo", 77),
            args: vec![Marker::Descriptor(InjectedMeta { callback: None, type_expr: None })],
        },
    }];
    let mut cb = Callback::new(10, SignatureInfo { initial: Some(params), evaluated: None });
    let ds = cb.accept().unwrap();
    match &ds[0].1 {
        Injected::Type(t) => assert_eq!(t.type_ids, vec![77]),
        other => panic!("expected a type descriptor, got {:?}", descriptor_kind(other)),
    }
}

#[test]
fn descriptor_default_with_callback() {
    let params = vec![Param {
        name: "dep".to_string(),
        default: DefaultSlot::Descriptor(InjectedMeta { callback: Some(901), type_expr: None }),
        annotation: Annotation::Empty,
    }];
    let mut cb = Callback::new(11, SignatureInfo { initial: Some(params), evaluated: None });
    let ds = cb.accept().unwrap();
    match &ds[0].1 {
        Injected::Callback(c) => assert_eq!(c.callback, 901),
        other => panic!("expected a callback descriptor, got {:?}", descriptor_kind(other)),
    }
}

#[test]
fn descriptor_default_with_type_ignores_annotation() {
    let params = vec![Param {
        name: "dep".to_string(),
        default: DefaultSlot::Descriptor(InjectedMeta {
            callback: None,
            type_expr: Some(simple("Bar", 88)),
        }),
        annotation: Annotation::Ty(simple("Foo", 77)),
    }];
    let mut cb = Callback::new(12, SignatureInfo { initial: Some(params), evaluated: None });
    let ds = cb.accept().unwrap();
    match &ds[0].1 {
        Injected::Type(t) => {
            assert_eq!(t.type_ids, vec![88]);
            assert_eq!(t.default, None);
        }
        other => panic!("expected a type descriptor, got {:?}", descriptor_kind(other)),
    }
}

#[test]
fn bare_descriptor_default_uses_annotation() {
    let params = vec![Param {
        name: "dep".to_string(),
        default: DefaultSlot::Descriptor(InjectedMeta { callback: None, type_expr: None }),
        annotation: Annotation::Ty(simple("Foo", 77)),
    }];
    let mut cb = Callback::new(13, SignatureInfo { initial: Some(params), evaluated: None });
    let ds = cb.accept().unwrap();
    match &ds[0].1 {
        Injected::Type(t) => assert_eq!(t.type_ids, vec![77]),
        other => panic!("expected a type descriptor, got {:?}", descriptor_kind(other)),
    }
}

#[test]
fn bare_descriptor_default_without_annotation_fails() {
    let params = vec![Param {
        name: "dep".to_string(),
        default: DefaultSlot::Descriptor(InjectedMeta { callback: None, type_expr: None }),
        annotation: Annotation::Empty,
    }];
    let mut cb = Callback::new(14, SignatureInfo { initial: Some(params), evaluated: None });
    let r = cb.accept();
    match r {
        Err(DiError::UnresolvedParameter { name }) => assert_eq!(name, "dep"),
        _ => panic!("expected the unresolved-parameter error"),
    }
}

#[test]
fn forward_reference_is_resolved_once() {
    // The first inspection returned a bare string annotation; re-inspection
    // with string evaluation resolves it to an injected type.
    let initial = vec![Param {
        name: "dep".to_string(),
        default: DefaultSlot::Missing,
        annotation: Annotation::ForwardRef(simple("\"Foo\"", 1)),
    }];
    let evaluated = vec![Param {
        name: "dep".to_string(),
        default: DefaultSlot::Missing,
        annotation: Annotation::Annotated { first: simple("Foo", 77), args: vec![Marker::InjectType] },
    }];
    let mut cb = Callback::new(
        15,
        SignatureInfo { initial: Some(initial), evaluated: Some(evaluated) },
    );
    let ds = cb.accept().unwrap();
    assert_eq!(ds.len(), 1);
    match &ds[0].1 {
        Injected::Type(t) => assert_eq!(t.type_ids, vec![77]),
        other => panic!("expected a type descriptor, got {:?}", descriptor_kind(other)),
    }
}

#[test]
fn unresolvable_forward_reference_is_not_injected() {
    // Even evaluated introspection hands the string back: the parameter is
    // simply not injected (the one re-resolution is not repeated).
    let initial = vec![Param {
        name: "dep".to_string(),
        default: DefaultSlot::Missing,
        annotation: Annotation::ForwardRef(simple("\"Foo\"", 1)),
    }];
    let evaluated = vec![Param {
        name: "dep".to_string(),
        default: DefaultSlot::Missing,
        annotation: Annotation::ForwardRef(simple("\"Foo\"", 1)),
    }];
    let mut cb = Callback::new(
        16,
        SignatureInfo { initial: Some(initial), evaluated: Some(evaluated) },
    );
    let ds = cb.accept().unwrap();
    assert!(ds.is_empty());
}

#[test]
fn extraction_order_follows_declaration_order() {
    let params = vec![
        Param {
            name: "b".to_string(),
            default: DefaultSlot::Missing,
            annotation: Annotation::Annotated { first: simple("B", 2), args: vec![Marker::InjectType] },
        },
        Param { name: "skip".to_string(), default: DefaultSlot::Missing, annotation: Annotation::Empty },
        Param {
            name: "a".to_string(),
            default: DefaultSlot::Missing,
            annotation: Annotation::Annotated { first: simple("A", 1), args: vec![Marker::InjectType] },
        },
    ];
    let mut cb = Callback::new(17, SignatureInfo { initial: Some(params), evaluated: None });
    let ds = cb.accept().unwrap();
    let names: Vec<&str> = ds.iter().map(|p| p.0.as_str()).collect();
    assert_eq!(names, vec!["b", "a"]);
}

#[test]
fn build_descriptors_caches_first_extraction() {
    let mut client = Client::new(true);
    let params = vec![Param {
        name: "dep".to_string(),
        default: DefaultSlot::Missing,
        annotation: Annotation::Annotated { first: simple("Foo", 77), args: vec![Marker::InjectType] },
    }];
    let mut cb = Callback::new(21, SignatureInfo { initial: Some(params), evaluated: None });
    let first = client.build_descriptors(&mut cb).unwrap();

    // A second build for the same identity key never re-extracts: even a
    // callable handing different metadata under that key is answered from
    // the cache, byte-identical to the first result.
    let other_params = vec![Param {
        name: "other".to_string(),
        default: DefaultSlot::Missing,
        annotation: Annotation::Annotated { first: simple("Bar", 88), args: vec![Marker::InjectType] },
    }];
    let mut cb_again = Callback::new(21, SignatureInfo { initial: Some(other_params), evaluated: None });
    let second = client.build_descriptors(&mut cb_again).unwrap();

    assert_eq!(second.len(), first.len());
    assert_eq!(second[0].0, first[0].0);
    match (&first[0].1, &second[0].1) {
        (Injected::Type(a), Injected::Type(b)) => {
            assert_eq!(a.type_ids, b.type_ids);
            assert_eq!(a.default, b.default);
            assert_eq!(a.repr_type, b.repr_type);
        }
        _ => panic!("expected type descriptors from both builds"),
    }
}

fn descriptor_kind(d: &Injected) -> &'static str {
    match d {
        Injected::Callback(_) => "callback",
        Injected::Type(_) => "type",
    }
}
