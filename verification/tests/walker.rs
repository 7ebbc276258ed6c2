//! The source walker and the emitter: scanning marked declarations out of
//! source text, ordering, determinism, fail-fast errors, and collisions.

use agsol::pipeline::{
    generate_layouts_from_sources,
    render_borsh_schemas,
    render_ts_classes,
    SchemaError,
    SourceFile,
};
use agsol::scan::scan_file;

/// The generation marker, assembled so that this test file itself holds no
/// attribute-shaped text.
fn marker() -> String {
    String::from("#") + "[derive(BorshSchema, BorshSerialize)]"
}

fn attr(text: &str) -> String {
    String::from("#") + "[" + text + "]"
}

fn source_of(decls: &[&str]) -> String {
    let mut s = String::new();
    for d in decls {
        s.push_str(&marker());
        s.push('\n');
        s.push_str(d);
        s.push_str("\n\n");
    }
    s
}

fn file(path: &str, content: String) -> SourceFile {
    SourceFile { path: path.to_string(), content }
}

#[test]
fn generate_layout_from_this_file() {
    let mut content = String::new();
    content.push_str("use something::Else;\n\n");
    content.push_str("type StatePool = Option<Vec<OtherState>>;\n\n");
    content.push_str("// a comment with struct Hidden { inside: u8 }\n");
    content.push_str(&attr("allow(dead_code)"));
    content.push('\n');
    content.push_str(&marker());
    content.push('\n');
    content.push_str("pub struct TestStruct {\n");
    content.push_str("    field_a: u64,\n");
    content.push_str("    field_b: u8,\n");
    content.push_str("    ");
    content.push_str(&attr("alias(Option<Vec<OtherState>>)"));
    content.push('\n');
    content.push_str("    field_c: StatePool,\n");
    content.push_str("    ");
    content.push_str(&attr("schema_skip"));
    content.push('\n');
    content.push_str("    skipped_field: Option<u32>,\n");
    content.push_str("}\n\n");
    content.push_str(&attr("cfg_attr(test, derive(BorshSchema))"));
    content.push('\n');
    content.push_str("pub struct OtherState {\n    ");
    content.push_str(&attr("alias(u64)"));
    content.push('\n');
    content.push_str("    amount: Amount,\n    timestamp: UnixTimestamp,\n}\n\n");
    content.push_str(&marker());
    content.push('\n');
    content.push_str("pub struct TupleStruct(u8, pub i32, pub OtherState);\n");

    let decls = scan_file(&content).unwrap();
    assert_eq!(decls.len(), 3);
    assert_eq!(decls[0].name, "TestStruct");
    assert_eq!(decls[1].name, "OtherState");
    assert_eq!(decls[2].name, "TupleStruct");

    let files = vec![file("src/state.rs", content)];
    let layouts = generate_layouts_from_sources(&files).unwrap();
    assert_eq!(layouts.len(), 3);
    assert_eq!(layouts[0].name, "TestStruct");
    assert_eq!(layouts[1].name, "OtherState");
    assert_eq!(layouts[2].name, "TupleStruct");

    // The alias sees through the opaque type aliases; the skip directive
    // leaves its field out.
    let classes = render_ts_classes(&layouts);
    assert!(classes.contains("fieldC: OtherState[] | null;"));
    assert!(!classes.contains("skippedField"));
    assert!(classes.contains("amount: BN;"));
    assert!(classes.contains("unnamed_2: OtherState;"));
}

#[test]
fn declaration_order_is_preserved() {
    let one = source_of(&["struct Foo { a: u8 }", "struct Bar { b: u16 }"]);
    let two = source_of(&["struct Baz { c: u32 }"]);
    let files = vec![file("a.rs", one), file("b.rs", two)];
    let layouts = generate_layouts_from_sources(&files).unwrap();
    let names: Vec<&str> = layouts.iter().map(|l| l.name.as_str()).collect();
    assert_eq!(names, ["Foo", "Bar", "Baz"]);

    let classes = render_ts_classes(&layouts);
    let schemas = render_borsh_schemas(&layouts);
    let foo_c = classes.find("class Foo").unwrap();
    let bar_c = classes.find("class Bar").unwrap();
    let baz_c = classes.find("class Baz").unwrap();
    assert!(foo_c < bar_c && bar_c < baz_c);
    let foo_s = schemas.find("Foo").unwrap();
    let bar_s = schemas.find("Bar").unwrap();
    let baz_s = schemas.find("Baz").unwrap();
    assert!(foo_s < bar_s && bar_s < baz_s);
}

#[test]
fn rerun_is_byte_identical() {
    let content = source_of(&[
        "struct Foo { a: u8, b: Option<Vec<Pubkey>> }",
        "enum Choice { First, Second(u64), Third { label: String } }",
    ]);
    let files = vec![file("x.rs", content)];
    let first = generate_layouts_from_sources(&files).unwrap();
    let second = generate_layouts_from_sources(&files).unwrap();
    assert_eq!(render_ts_classes(&first), render_ts_classes(&second));
    assert_eq!(render_borsh_schemas(&first), render_borsh_schemas(&second));
}

#[test]
fn enum_declaration_expands_to_variant_layouts() {
    let content = source_of(&["enum Choice { First, Second(u64), Third { label: String } }"]);
    let files = vec![file("x.rs", content)];
    let layouts = generate_layouts_from_sources(&files).unwrap();
    let names: Vec<&str> = layouts.iter().map(|l| l.name.as_str()).collect();
    assert_eq!(names, ["First", "Second", "Third", "Choice"]);
    let classes = render_ts_classes(&layouts);
    assert!(classes.contains("export class First extends Struct {\n};\n\n"));
    assert!(classes.contains("export class Choice extends Enum {"));
    assert!(classes.contains("first: First;"));
    assert!(classes.contains("second: Second;"));
    let schemas = render_borsh_schemas(&layouts);
    assert!(schemas.contains("kind: 'enum', field: 'enum', values: ["));
    assert!(schemas.contains("['first', First],"));
}

#[test]
fn unparseable_marked_declaration_fails_the_whole_run() {
    let good = source_of(&["struct Fine { a: u8 }"]);
    let mut bad = marker();
    bad.push_str("\nstruct {\n");
    let files = vec![file("good.rs", good), file("bad.rs", bad)];
    let result = generate_layouts_from_sources(&files);
    match result {
        Err(SchemaError::Syntax { path }) => assert_eq!(path, "bad.rs"),
        other => panic!("expected a syntax error, got {:?}", other),
    }
}

#[test]
fn unresolvable_field_reports_declaration_and_field() {
    let mut content = marker();
    content.push_str("\nstruct Broken { first: u8, bad_field: u8 & u8, ok_field: u16 }\n");
    let files = vec![file("broken.rs", content)];
    match generate_layouts_from_sources(&files) {
        Err(SchemaError::Resolution { path, declaration, field, expr }) => {
            assert_eq!(path, "broken.rs");
            assert_eq!(declaration, "Broken");
            assert_eq!(field, "badField");
            assert_eq!(expr.trim(), "u8 & u8");
        },
        other => panic!("expected a resolution error, got {:?}", other),
    }
}

#[test]
fn colliding_layout_names_report_both_locations() {
    let one = source_of(&["struct Twin { a: u8 }"]);
    let two = source_of(&["struct Twin { b: u16 }"]);
    let files = vec![file("first.rs", one), file("second.rs", two)];
    match generate_layouts_from_sources(&files) {
        Err(SchemaError::Collision { name, first_path, second_path }) => {
            assert_eq!(name, "Twin");
            assert_eq!(first_path, "first.rs");
            assert_eq!(second_path, "second.rs");
        },
        other => panic!("expected a collision error, got {:?}", other),
    }
}

#[test]
fn alias_with_nested_brackets_is_extracted_whole() {
    let mut content = marker();
    content.push_str("\nstruct Wrapper {\n    ");
    content.push_str(&attr("alias([u8; 32])"));
    content.push_str("\n    key: SomeAlias,\n}\n");
    let files = vec![file("w.rs", content)];
    let layouts = generate_layouts_from_sources(&files).unwrap();
    assert_eq!(layouts.len(), 1);
    assert_eq!(
        layouts[0].to_ts_class(),
        "export class Wrapper extends Struct {\n    key: number[];\n};\n\n"
    );
    assert!(layouts[0].to_borsh_schema().contains("['key', ['u8', 32]]"));
}

#[test]
fn comments_and_strings_cannot_confuse_the_scanner() {
    let mut content = String::new();
    content.push_str("/* a block comment /* nested */ mentioning BorshSchema */\n");
    content.push_str("fn noise() { let s = \"BorshSchema }{\"; let c = '}'; }\n");
    content.push_str(&marker());
    content.push_str("\n// the real declaration follows\nstruct Real { value: u8 }\n");
    let decls = scan_file(&content).unwrap();
    assert_eq!(decls.len(), 1);
    assert_eq!(decls[0].name, "Real");
}

#[test]
fn unmarked_declarations_are_silently_skipped() {
    let content = "struct Plain { a: u8 }\nfn work() { let s = \"}{\"; }\n".to_string();
    let files = vec![file("plain.rs", content)];
    let layouts = generate_layouts_from_sources(&files).unwrap();
    assert_eq!(layouts.len(), 0);
    assert_eq!(render_ts_classes(&layouts), "");
    assert_eq!(render_borsh_schemas(&layouts), "");
}
