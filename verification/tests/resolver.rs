//! The type resolver, the field model, and the per-layout renderings.

use agsol::field::{LayoutField, RawField};
use agsol::layout::Layout;
use agsol::resolve::resolve;
use agsol::ty::BorshType;

fn named_field(name: &str, ty: &str) -> RawField {
    RawField { name: Some(name.to_string()), ty: ty.to_string(), alias: None, skip: false }
}

#[test]
fn resolve_primitive_table() {
    let cases = vec![
        ("bool", BorshType::Bool),
        ("u8", BorshType::U8),
        ("u16", BorshType::U16),
        ("u32", BorshType::U32),
        ("u64", BorshType::U64),
        ("u128", BorshType::U128),
        ("i8", BorshType::I8),
        ("i16", BorshType::I16),
        ("i32", BorshType::I32),
        ("i64", BorshType::I64),
        ("i128", BorshType::I128),
        ("String", BorshType::String),
    ];
    for (expr, expected) in cases {
        assert_eq!(resolve(expr).unwrap(), expected);
    }
    assert_eq!(resolve("Pubkey").unwrap(), BorshType::FixedBytes(32));
}

#[test]
fn resolve_nested_option_vec() {
    assert_eq!(
        resolve("Option<Vec<Pubkey>>").unwrap(),
        BorshType::Option(Box::new(BorshType::Vec(Box::new(BorshType::FixedBytes(32)))))
    );
}

#[test]
fn resolve_fixed_array_of_options() {
    assert_eq!(
        resolve("[Option<Pubkey>; 3]").unwrap(),
        BorshType::FixedArray(Box::new(BorshType::Option(Box::new(BorshType::FixedBytes(32)))), 3)
    );
}

#[test]
fn resolve_custom_fallback() {
    assert_eq!(resolve("OtherState").unwrap(), BorshType::Custom("OtherState".to_string()));
    assert_eq!(
        resolve("Vec<OtherState>").unwrap(),
        BorshType::Vec(Box::new(BorshType::Custom("OtherState".to_string())))
    );
}

#[test]
fn resolve_rejects_malformed_expressions() {
    assert!(resolve("").is_err());
    assert!(resolve("Vec<").is_err());
    assert!(resolve("[u8; ]").is_err());
    assert!(resolve("[u8 3]").is_err());
    assert!(resolve("Option<u8").is_err());
    assert!(resolve("u8>").is_err());
    assert!(resolve("BTreeMap<u8, Bar>").is_err());
    assert!(resolve("&str").is_err());
    let err = resolve("Vec<").unwrap_err();
    assert_eq!(err.expr, "Vec<");
}

#[test]
fn simple_field_construction() {
    let field = LayoutField::from_raw(&named_field("random_field", "u8"), 0).unwrap();
    assert_eq!(field.to_class_field(), "randomField: number");
}

#[test]
fn complex_field_construction() {
    let field = LayoutField::from_raw(&named_field("optional_accounts", "[Option<Pubkey>; 3]"), 0)
        .unwrap();
    assert_eq!(field.to_class_field(), "optionalAccounts: [32] | null[]");
    assert_eq!(
        resolve("[Option<Pubkey>; 3]").unwrap(),
        BorshType::FixedArray(Box::new(BorshType::Option(Box::new(BorshType::FixedBytes(32)))), 3)
    );
}

#[test]
fn simple_field_to_borsh_schema() {
    let field = LayoutField::from_raw(&named_field("some_random_string", "String"), 0).unwrap();
    assert_eq!(field.to_borsh_schema(), "['someRandomString', 'string']");

    let field = LayoutField::from_raw(&named_field("my_custom_type", "aCustomType"), 0).unwrap();
    assert_eq!(field.to_borsh_schema(), "['myCustomType', aCustomType]");
}

#[test]
fn field_to_ts_class_field() {
    let field = LayoutField::from_raw(&named_field("field_alpha", "u64"), 0).unwrap();
    assert_eq!(field.to_class_field(), "fieldAlpha: BN");
    let field = LayoutField::from_raw(&named_field("field_beta", "Vec<String>"), 0).unwrap();
    assert_eq!(field.to_class_field(), "fieldBeta: string[]");
    let field = LayoutField::from_raw(&named_field("field_gamma", "Option<Pubkey>"), 0).unwrap();
    assert_eq!(field.to_class_field(), "fieldGamma: [32] | null");
}

#[test]
fn alias_overrides_declared_type() {
    let field = RawField {
        name: Some("amount".to_string()),
        ty: "SomeOpaqueAlias".to_string(),
        alias: Some("u64".to_string()),
        skip: false,
    };
    let built = LayoutField::from_raw(&field, 0).unwrap();
    assert_eq!(built.to_class_field(), "amount: BN");
    assert_eq!(built.to_borsh_schema(), "['amount', 'u64']");
    assert!(!built.should_skip());
}

#[test]
fn skip_overrides_alias_and_type() {
    let field = RawField {
        name: Some("hidden".to_string()),
        ty: "u32".to_string(),
        alias: Some("u64".to_string()),
        skip: true,
    };
    let built = LayoutField::from_raw(&field, 0).unwrap();
    assert!(built.should_skip());
}

#[test]
fn unnamed_fields_are_numbered_by_declared_position() {
    let fields = vec![
        RawField { name: None, ty: "u8".to_string(), alias: None, skip: false },
        RawField { name: None, ty: "u16".to_string(), alias: None, skip: true },
        RawField { name: None, ty: "i32".to_string(), alias: None, skip: false },
    ];
    let layout = Layout::from_raw("TupleLike", &fields).unwrap();
    // The skipped middle field does not shift its siblings' positions.
    assert_eq!(
        layout.to_ts_class(),
        "export class TupleLike extends Struct {\n    unnamed_0: number;\n    unnamed_2: number;\n};\n\n"
    );
}

#[test]
fn skipped_fields_are_absent_from_both_artifacts() {
    let fields = vec![
        named_field("a", "String"),
        RawField { name: Some("b".to_string()), ty: "u8".to_string(), alias: None, skip: true },
        named_field("c", "u64"),
    ];
    let layout = Layout::from_raw("Example", &fields).unwrap();
    let class = layout.to_ts_class();
    assert_eq!(
        class,
        "export class Example extends Struct {\n    a: string;\n    c: BN;\n};\n\n"
    );
    assert!(!class.contains("b:"));
    let schema = layout.to_borsh_schema();
    assert_eq!(
        schema,
        "\n    [\n            Example,\n            {\n                kind: 'struct', fields: [\n\t\t\t['a', 'string'],\n\t\t\t['c', 'u64'],\n                ],\n            },\n    ],"
    );
    assert!(!schema.contains("'b'"));
}

#[test]
fn custom_reference_is_emitted_unquoted() {
    let a = Layout::from_raw("A", &vec![named_field("x", "B")]).unwrap();
    let b = Layout::from_raw("B", &vec![named_field("y", "u8")]).unwrap();
    let a_schema = a.to_borsh_schema();
    assert!(a_schema.contains("['x', B]"));
    assert!(!a_schema.contains("'B'"));
    let b_schema = b.to_borsh_schema();
    assert!(b_schema.contains("['y', 'u8']"));
}

#[test]
fn enum_variant_entry_references_variant_layout() {
    let entry = LayoutField::from_enum_variant("FooInstruction").unwrap();
    assert_eq!(entry.to_borsh_schema(), "['fooInstruction', FooInstruction]");
    assert!(!entry.should_skip());
}

#[test]
fn field_resolution_failure_names_field_and_expression() {
    let field = RawField {
        name: Some("broken_field".to_string()),
        ty: "Vec<".to_string(),
        alias: None,
        skip: false,
    };
    let err = LayoutField::from_raw(&field, 0).unwrap_err();
    assert_eq!(err.field, "brokenField");
    assert_eq!(err.expr, "Vec<");

    let layout_err = Layout::from_raw("Holder", &vec![field]).unwrap_err();
    assert_eq!(layout_err.field, "brokenField");
    assert_eq!(layout_err.expr, "Vec<");
}
