use ic_hir::annotation::StringEnumDeserializer;
use ic_hir::annotation::{
    find_annotation, AnnCtsExt, CtsAnnotationError, DefaultValue, Max, Min, Mode, ModeAnnotation,
    Optional, Range,
};
use ic_hir::hir::{Ann, AnnArg, Ident, Numeric, Span};

fn make_ann(name: &str, args: Vec<AnnArg>) -> Ann {
    Ann {
        ident: Ident {
            name: name.to_string(),
            span: Span::default(),
        },
        def_id: None,
        args,
    }
}

fn make_arg(name: Option<&str>, value: Numeric) -> AnnArg {
    AnnArg {
        ident: Ident {
            name: name.unwrap_or("value").to_string(),
            span: Span::default(),
        },
        value,
        ty: None,
    }
}

#[test]
fn annotation_test_optional_unmarshal() {
    let ann = make_ann("optional", vec![make_arg(Some("value"), Numeric::Bool(false))]);
    let optional: Optional = ann.unmarshal("optional").unwrap();
    assert!(!optional.value);
}

#[test]
fn annotation_test_optional_default() {
    let ann = make_ann("optional", vec![]);
    let optional: Optional = ann.unmarshal("optional").unwrap();
    assert!(optional.value);
}

#[test]
fn annotation_test_range_unmarshal() {
    let ann = make_ann(
        "range",
        vec![
            make_arg(Some("min"), Numeric::Int32(0)),
            make_arg(Some("max"), Numeric::Int32(100)),
        ],
    );
    let range: Range = ann.unmarshal("range").unwrap();
    assert_eq!(range.min, Some(0));
    assert_eq!(range.max, Some(100));
}

#[test]
fn annotation_test_range_partial() {
    let ann = make_ann("range", vec![make_arg(Some("min"), Numeric::Int32(5))]);
    let range: Range = ann.unmarshal("range").unwrap();
    assert_eq!(range.min, Some(5));
    assert_eq!(range.max, None);
}

#[test]
fn annotation_test_default_unmarshal() {
    let ann = make_ann("default", vec![make_arg(None, Numeric::String("hello".to_string()))]);
    let default: DefaultValue = ann.unmarshal("default").unwrap();
    assert_eq!(default.value, "hello");
}

#[test]
fn annotation_test_wrong_type() {
    let ann = make_ann("optional", vec![]);
    let err = ann.unmarshal::<Range>("range").unwrap_err();
    assert!(matches!(err, CtsAnnotationError::WrongAnnotationType { .. }));
}

#[test]
fn annotation_test_find_annotation() {
    let annotations = vec![
        make_ann("optional", vec![make_arg(Some("value"), Numeric::Bool(true))]),
        make_ann(
            "range",
            vec![
                make_arg(Some("min"), Numeric::Int32(5)),
                make_arg(Some("max"), Numeric::Int32(15)),
            ],
        ),
    ];
    let range: Range = find_annotation(&annotations, "range").unwrap().unwrap();
    assert_eq!(range.min, Some(5));
    assert_eq!(range.max, Some(15));
}

#[test]
fn test_mode_enum_unmarshal() {
    let ann = make_ann("mode", vec![make_arg(None, Numeric::String("read_only".to_string()))]);
    let mode: ModeAnnotation = ann.unmarshal("mode").unwrap();
    assert_eq!(mode.value, Mode::ReadOnly);
}

#[test]
fn test_mode_enum_with_name() {
    let ann = make_ann(
        "mode",
        vec![make_arg(Some("value"), Numeric::String("write_only".to_string()))],
    );
    let mode: ModeAnnotation = ann.unmarshal("mode").unwrap();
    assert_eq!(mode.value, Mode::WriteOnly);
}

#[test]
fn test_mode_enum_default() {
    let ann = make_ann("mode", vec![make_arg(None, Numeric::String("read_write".to_string()))]);
    let mode: ModeAnnotation = ann.unmarshal("mode").unwrap();
    assert_eq!(mode.value, Mode::ReadWrite);
}

#[test]
fn test_mode_enum_invalid() {
    let ann = make_ann("mode", vec![make_arg(None, Numeric::String("invalid_mode".to_string()))]);
    let result: Result<ModeAnnotation, _> = ann.unmarshal("mode");
    assert!(result.is_err());
}

#[test]
fn test_min_unmarshal() {
    let ann = make_ann("min", vec![make_arg(None, Numeric::Int32(-100))]);
    let min: Min = ann.unmarshal("min").unwrap();
    assert_eq!(min.value, -100);
}

#[test]
fn test_min_with_name() {
    let ann = make_ann("min", vec![make_arg(Some("value"), Numeric::Int64(-1000))]);
    let min: Min = ann.unmarshal("min").unwrap();
    assert_eq!(min.value, -1000);
}

#[test]
fn test_max_unmarshal() {
    let ann = make_ann("max", vec![make_arg(None, Numeric::Int32(100))]);
    let max: Max = ann.unmarshal("max").unwrap();
    assert_eq!(max.value, 100);
}

#[test]
fn test_max_with_name() {
    let ann = make_ann("max", vec![make_arg(Some("value"), Numeric::Int64(1000))]);
    let max: Max = ann.unmarshal("max").unwrap();
    assert_eq!(max.value, 1000);
}

#[test]
fn test_min_max_conversion() {
    let ann = make_ann("min", vec![make_arg(None, Numeric::Int8(-128))]);
    let min: Min = ann.unmarshal("min").unwrap();
    assert_eq!(min.value, -128);

    let ann = make_ann("max", vec![make_arg(None, Numeric::UInt32(4_294_967_295))]);
    let max: Max = ann.unmarshal("max").unwrap();
    assert_eq!(max.value, 4_294_967_295);
}

#[test]
fn mode_invalid_message_names_the_mode() {
    let ann = make_ann("mode", vec![make_arg(None, Numeric::String("sideways".to_string()))]);
    let err = ann.unmarshal::<ModeAnnotation>("mode").unwrap_err();
    assert_eq!(err.message(), "Deserialization error: Unknown mode: sideways");
}

#[test]
fn min_rejects_too_large_unsigned() {
    let ann = make_ann("min", vec![make_arg(None, Numeric::UInt64(u64::MAX))]);
    let err = ann.unmarshal::<Min>("min").unwrap_err();
    assert_eq!(err.message(), "Field 'value' has wrong type, expected i64 (value too large)");
}

#[test]
fn optional_rejects_non_bool() {
    let ann = make_ann("optional", vec![make_arg(Some("value"), Numeric::Int32(1))]);
    let err = ann.unmarshal::<Optional>("optional").unwrap_err();
    match err {
        CtsAnnotationError::TypeConversionError { field, expected } => {
            assert_eq!(field, "value");
            assert_eq!(expected, "bool");
        }
        _ => panic!("unexpected error"),
    }
}

#[test]
fn wrong_type_message() {
    let ann = make_ann("optional", vec![]);
    let err = ann.unmarshal::<Range>("range").unwrap_err();
    assert_eq!(err.message(), "Expected annotation @range but found @optional");
}

#[test]
fn find_annotation_absent() {
    let annotations = vec![make_ann("optional", vec![])];
    assert!(find_annotation::<Range>(&annotations, "range").is_none());
}

#[test]
fn first_argument_supplies_value_positionally() {
    let ann = make_ann("default", vec![make_arg(Some("other"), Numeric::String("x".to_string()))]);
    let default: DefaultValue = ann.unmarshal("default").unwrap();
    assert_eq!(default.value, "x");
}

#[test]
fn annotations_cts_test_optional_unmarshal() {
    let ann = make_ann("optional", vec![make_arg(Some("value"), Numeric::Bool(false))]);
    let optional: Optional = ann.unmarshal("optional").unwrap();
    assert!(!optional.value);
}

#[test]
fn annotations_cts_test_optional_default() {
    let ann = make_ann("optional", vec![]);
    let optional: Optional = ann.unmarshal("optional").unwrap();
    assert!(optional.value);
}

#[test]
fn annotations_cts_test_range_unmarshal() {
    let ann = make_ann(
        "range",
        vec![
            make_arg(Some("min"), Numeric::Int32(0)),
            make_arg(Some("max"), Numeric::Int32(100)),
        ],
    );
    let range: Range = ann.unmarshal("range").unwrap();
    assert_eq!(range.min, Some(0));
    assert_eq!(range.max, Some(100));
}

#[test]
fn annotations_cts_test_range_partial() {
    let ann = make_ann("range", vec![make_arg(Some("min"), Numeric::Int32(5))]);
    let range: Range = ann.unmarshal("range").unwrap();
    assert_eq!(range.min, Some(5));
    assert_eq!(range.max, None);
}

#[test]
fn annotations_cts_test_default_unmarshal() {
    let ann = make_ann("default", vec![make_arg(None, Numeric::String("hello".to_string()))]);
    let default: DefaultValue = ann.unmarshal("default").unwrap();
    assert_eq!(default.value, "hello");
}

#[test]
fn annotations_cts_test_wrong_type() {
    let ann = make_ann("optional", vec![]);
    let err = ann.unmarshal::<Range>("range").unwrap_err();
    assert!(matches!(err, CtsAnnotationError::WrongAnnotationType { .. }));
}

#[test]
fn annotations_cts_test_find_annotation() {
    let annotations = vec![
        make_ann("optional", vec![make_arg(Some("value"), Numeric::Bool(true))]),
        make_ann(
            "range",
            vec![
                make_arg(Some("min"), Numeric::Int32(5)),
                make_arg(Some("max"), Numeric::Int32(15)),
            ],
        ),
    ];
    let range: Range = find_annotation(&annotations, "range").unwrap().unwrap();
    assert_eq!(range.min, Some(5));
    assert_eq!(range.max, Some(15));
}

#[test]
fn enumerator_names_decode_to_modes() {
    assert_eq!(StringEnumDeserializer::new("write_only").decode_enumerator().unwrap(), Mode::WriteOnly);
    assert!(StringEnumDeserializer::new("sideways").decode_enumerator().is_err());
}
