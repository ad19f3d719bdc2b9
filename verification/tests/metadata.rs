use wasm_compiler::metadata::{
    augment_with_type_name, extract_first_type_name, extract_type_info, field_names_json,
    parse_wat_field_names, TypeInfo,
};

#[test]
fn box_with_field_val() {
    let source = "(module\n  (type $Box (struct (field $val (mut i32))))\n)";
    let info = parse_wat_field_names(source);
    assert_eq!(
        field_names_json(&info),
        "{\"default\":{\"typeName\":\"Box\",\"fields\":[\"val\"]}}"
    );
    let parsed: serde_json::Value = serde_json::from_str(&field_names_json(&info)).unwrap();
    assert_eq!(parsed["default"]["typeName"], "Box");
    assert_eq!(parsed["default"]["fields"][0], "val");
}

#[test]
fn fields_on_their_own_lines_keep_their_order() {
    let source = "(module\n  (type $point (struct\n    (field $x (mut i32))\n    (field $y (mut i32))\n    (field $label (ref null $string))))\n  (type $other (struct (field $z i32)))\n)";
    let info = parse_wat_field_names(source).unwrap();
    assert_eq!(info.name, "point");
    assert_eq!(info.fields, vec!["x".to_string(), "y".to_string(), "label".to_string()]);
    assert_eq!(
        field_names_json(&Some(info)),
        "{\"default\":{\"typeName\":\"point\",\"fields\":[\"x\",\"y\",\"label\"]}}"
    );
}

#[test]
fn every_field_of_a_line_is_taken() {
    let source = "(type $pair (struct (field $a i32) (field $b i32)))";
    let info = parse_wat_field_names(source).unwrap();
    assert_eq!(info.name, "pair");
    assert_eq!(info.fields, vec!["a".to_string(), "b".to_string()]);

    let source = "(module\n  (type $P (struct (field $x i32) (field $y i32)))\n)";
    assert_eq!(
        field_names_json(&parse_wat_field_names(source)),
        "{\"default\":{\"typeName\":\"P\",\"fields\":[\"x\",\"y\"]}}"
    );
}

#[test]
fn fields_spread_over_lines_and_within_them() {
    let source = "(module\n  (type $t (struct (field $a i32) (field $b (mut i64))\n    (field $c f32)\n    (field $d (ref null $t)) (field $e i32)))\n  (type $u (struct (field $z i32)))\n)";
    let info = parse_wat_field_names(source).unwrap();
    assert_eq!(info.name, "t");
    assert_eq!(
        info.fields,
        vec!["a".to_string(), "b".to_string(), "c".to_string(), "d".to_string(), "e".to_string()]
    );
}

#[test]
fn source_without_fields_gives_no_metadata() {
    for source in ["", "(module)", "(module\n  (func $f)\n)", "(type $empty (struct))", "(field $loose i32)"] {
        assert!(parse_wat_field_names(source).is_none());
    }
    assert_eq!(field_names_json(&None), "{}");
}

#[test]
fn first_type_name_or_fallback() {
    assert_eq!(extract_first_type_name("(module\n (type $box (struct (field $val (mut i32))))\n)"), "box");
    assert_eq!(extract_first_type_name("(type $a (array i8))\n  (type $b (struct ))\n(type $c (struct ))"), "b");
    assert_eq!(extract_first_type_name("(module)"), "WasmGcStruct");
    assert_eq!(extract_first_type_name("(type (struct))"), "WasmGcStruct");
    assert_eq!(extract_first_type_name(""), "WasmGcStruct");
}

#[test]
fn binary_fields_take_their_type_name_from_the_source() {
    let info = augment_with_type_name(
        "(module\n  (type $Box (struct (field $val (mut i32))))\n)",
        vec!["first".to_string(), "second".to_string()],
    );
    assert_eq!(info.name, "Box");
    assert_eq!(
        field_names_json(&Some(info)),
        "{\"default\":{\"typeName\":\"Box\",\"fields\":[\"first\",\"second\"]}}"
    );
}

#[test]
fn name_section_is_preferred_to_the_source() {
    let mut binary = vec![0x00, 0x61, 0x73, 0x6d, 0x01, 0x00, 0x00, 0x00];
    binary.extend_from_slice(&[0, 14, 4, b'n', b'a', b'm', b'e', 12, 7, 1, 0, 1, 0, 2, b'i', b'd']);
    let source = "(module\n  (type $Box (struct (field $val (mut i32))))\n)";
    let info = extract_type_info(&binary, source).unwrap();
    assert_eq!(info.name, "Box");
    assert_eq!(info.fields, vec!["id".to_string()]);

    let plain = vec![0x00, 0x61, 0x73, 0x6d, 0x01, 0x00, 0x00, 0x00];
    let info = extract_type_info(&plain, source).unwrap();
    assert_eq!(info.name, "Box");
    assert_eq!(info.fields, vec!["val".to_string()]);

    assert!(extract_type_info(&plain, "(module)").is_none());
}

#[test]
fn empty_field_list_is_written_as_empty_array() {
    let info = TypeInfo { name: "T".to_string(), fields: vec![] };
    assert_eq!(field_names_json(&Some(info)), "{\"default\":{\"typeName\":\"T\",\"fields\":[]}}");
}
