use ic_hir::annotations::{get_bool_arg, get_string_arg};
use ic_hir::annotations::{
    find_annotation, AnnExt, AnnotationError, DefaultValue, Optional, Range,
};
use ic_hir::hir::{Ann, AnnArg, Ident, Numeric, Span};

fn ann_of(name: &str, args: Vec<AnnArg>) -> Ann {
    Ann {
        ident: Ident {
            name: name.to_string(),
            span: Span::default(),
        },
        def_id: None,
        args,
    }
}

// An argument without a name is supplied by position: it is keyed `0`.
fn arg_of(name: Option<&str>, value: Numeric) -> AnnArg {
    AnnArg {
        ident: Ident {
            name: name.unwrap_or("0").to_string(),
            span: Span::default(),
        },
        value,
        ty: None,
    }
}

#[test]
fn annotations_test_optional_default() {
    let ann = ann_of("optional", vec![]);
    let optional = ann.downcast::<Optional>().unwrap();
    assert!(optional.value);
}

#[test]
fn test_optional_explicit() {
    let ann = ann_of("optional", vec![arg_of(Some("value"), Numeric::Bool(false))]);
    let optional = ann.downcast::<Optional>().unwrap();
    assert!(!optional.value);
}

#[test]
fn test_optional_positional() {
    let ann = ann_of("optional", vec![arg_of(None, Numeric::Bool(false))]);
    let optional = ann.downcast::<Optional>().unwrap();
    assert!(!optional.value);
}

#[test]
fn test_range() {
    let ann = ann_of(
        "range",
        vec![
            arg_of(Some("min"), Numeric::Int32(0)),
            arg_of(Some("max"), Numeric::Int32(100)),
        ],
    );
    let range = ann.downcast::<Range>().unwrap();
    assert_eq!(range.min, Some(0));
    assert_eq!(range.max, Some(100));
}

#[test]
fn test_range_invalid() {
    let ann = ann_of(
        "range",
        vec![
            arg_of(Some("min"), Numeric::Int32(100)),
            arg_of(Some("max"), Numeric::Int32(0)),
        ],
    );
    let err = ann.downcast::<Range>().unwrap_err();
    assert!(matches!(err, AnnotationError::ValueOutOfRange { .. }));
}

#[test]
fn test_default() {
    let ann = ann_of(
        "default",
        vec![arg_of(Some("value"), Numeric::String("hello".to_string()))],
    );
    let default = ann.downcast::<DefaultValue>().unwrap();
    assert_eq!(default.value, Numeric::String("hello".to_string()));
}

#[test]
fn test_wrong_annotation_type() {
    let ann = ann_of("optional", vec![]);
    let err = ann.downcast::<Range>().unwrap_err();
    assert!(matches!(err, AnnotationError::WrongAnnotationType { .. }));
}

#[test]
fn annotations_test_find_annotation() {
    let annotations = vec![
        ann_of("optional", vec![arg_of(Some("value"), Numeric::Bool(true))]),
        ann_of(
            "range",
            vec![
                arg_of(Some("min"), Numeric::Int32(0)),
                arg_of(Some("max"), Numeric::Int32(10)),
            ],
        ),
    ];

    let range = find_annotation::<Range>(&annotations).unwrap().unwrap();
    assert_eq!(range.min, Some(0));
    assert_eq!(range.max, Some(10));

    assert!(find_annotation::<DefaultValue>(&annotations).is_none());
}

#[test]
fn range_out_of_order_message() {
    let ann = ann_of(
        "range",
        vec![
            arg_of(Some("min"), Numeric::Int64(-5)),
            arg_of(Some("max"), Numeric::Int32(-7)),
        ],
    );
    let err = ann.downcast::<Range>().unwrap_err();
    match &err {
        AnnotationError::ValueOutOfRange { name, value } => {
            assert_eq!(*name, "range");
            assert_eq!(value, "min -5 > max -7");
        }
        _ => panic!("unexpected error"),
    }
    assert_eq!(err.message(), "Argument 'range' value min -5 > max -7 is out of range");
}

#[test]
fn range_rejects_unknown_argument() {
    let ann = ann_of(
        "range",
        vec![
            arg_of(Some("min"), Numeric::Int32(1)),
            arg_of(Some("step"), Numeric::Int32(2)),
        ],
    );
    let err = ann.downcast::<Range>().unwrap_err();
    assert!(matches!(&err, AnnotationError::UnexpectedArgument { name } if name == "step"));
    assert_eq!(err.message(), "Unexpected argument 'step'");
}

#[test]
fn range_rejects_non_integer_bound() {
    let ann = ann_of("range", vec![arg_of(Some("max"), Numeric::Bool(true))]);
    let err = ann.downcast::<Range>().unwrap_err();
    assert!(matches!(
        err,
        AnnotationError::InvalidArgumentType { name: "max", expected: "numeric" }
    ));
}

#[test]
fn range_accepts_unsigned_bounds_that_fit() {
    let ann = ann_of(
        "range",
        vec![
            arg_of(Some("min"), Numeric::UInt8(3)),
            arg_of(Some("max"), Numeric::UInt64(9_000_000_000)),
        ],
    );
    let range = ann.downcast::<Range>().unwrap();
    assert_eq!(range.min, Some(3));
    assert_eq!(range.max, Some(9_000_000_000));
}

#[test]
fn range_rejects_unsigned_bound_above_signed_max() {
    let ann = ann_of("range", vec![arg_of(Some("max"), Numeric::UInt64(u64::MAX))]);
    let err = ann.downcast::<Range>().unwrap_err();
    assert!(matches!(err, AnnotationError::InvalidArgumentType { name: "max", .. }));
}

#[test]
fn later_argument_of_same_name_wins() {
    let ann = ann_of(
        "optional",
        vec![
            arg_of(Some("value"), Numeric::Bool(true)),
            arg_of(Some("value"), Numeric::Bool(false)),
        ],
    );
    assert!(!ann.downcast::<Optional>().unwrap().value);
}

#[test]
fn named_value_preferred_over_positional() {
    let ann = ann_of(
        "optional",
        vec![
            arg_of(Some("value"), Numeric::Bool(false)),
            arg_of(None, Numeric::Bool(true)),
        ],
    );
    assert!(!ann.downcast::<Optional>().unwrap().value);
}

#[test]
fn optional_with_non_boolean_value() {
    let ann = ann_of("optional", vec![arg_of(Some("value"), Numeric::Int32(1))]);
    let err = ann.downcast::<Optional>().unwrap_err();
    assert!(matches!(
        err,
        AnnotationError::InvalidArgumentType { name: "value", expected: "boolean" }
    ));
    assert_eq!(err.message(), "Argument 'value' has wrong type, expected boolean");
}

#[test]
fn default_without_value_is_missing() {
    let ann = ann_of("default", vec![]);
    let err = ann.downcast::<DefaultValue>().unwrap_err();
    assert!(matches!(err, AnnotationError::MissingArgument { name: "value" }));
    assert_eq!(err.message(), "Missing required argument 'value'");
}

#[test]
fn default_copies_aggregate_value() {
    let value = Numeric::Struct {
        ty: 3,
        fields: vec![Numeric::Int16(-2), Numeric::String("x".to_string())],
    };
    let ann = ann_of("default", vec![arg_of(None, value)]);
    let default = ann.downcast::<DefaultValue>().unwrap();
    assert_eq!(
        default.value,
        Numeric::Struct {
            ty: 3,
            fields: vec![Numeric::Int16(-2), Numeric::String("x".to_string())],
        }
    );
}

#[test]
fn wrong_annotation_message() {
    let ann = ann_of("optional", vec![]);
    let err = ann.downcast::<DefaultValue>().unwrap_err();
    assert_eq!(err.message(), "Expected annotation @default but found @optional");
}

#[test]
fn is_checks_the_name() {
    let ann = ann_of("range", vec![]);
    assert!(ann.is::<Range>());
    assert!(!ann.is::<Optional>());
}

#[test]
fn boolean_and_string_arguments() {
    let args = vec![
        arg_of(Some("flag"), Numeric::Bool(false)),
        arg_of(Some("label"), Numeric::String("abc".to_string())),
    ];
    assert!(!get_bool_arg(&args, "flag", true).unwrap());
    assert!(get_bool_arg(&args, "other", true).unwrap());
    assert!(matches!(get_bool_arg(&args, "label", true), Err(AnnotationError::InvalidArgumentType { name: "label", expected: "boolean" })));
    assert_eq!(get_string_arg(&args, "label").unwrap(), "abc");
    assert!(matches!(get_string_arg(&args, "missing"), Err(AnnotationError::MissingArgument { name: "missing" })));
    assert!(matches!(get_string_arg(&args, "flag"), Err(AnnotationError::InvalidArgumentType { name: "flag", expected: "string" })));
}
