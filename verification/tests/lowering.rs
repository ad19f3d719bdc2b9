use wasm_compiler::lowering::{lower_types, transform_string_literal_to_data, transform_string_types};

#[test]
fn lowers_types_literals_and_adds_data() {
    let source = "(module\n  (type $Box (struct (field $val (mut string))))\n  (global $box (export \"box\") (ref $Box) (struct.new $Box \"hello\"))\n)";
    let expected = "(module\n  ;; String type: array of i8 (UTF-8)\n  (type $string (array (mut i8)))\n\n  (type $Box (struct (field $val (mut (ref null $string)))))\n  (global $box (export \"box\") (ref $Box) (struct.new $Box (array.new_data $string $str_0 (i32.const 0) (i32.const 5))))\n\n  ;; String data sections\n  (data $str_0 \"hello\")\n)\n";
    assert_eq!(transform_string_types(source), expected);
}

#[test]
fn test_string_transformation() {
    let source = r#"(module
  (type $Box (struct (field $val (mut string))))
  (global $box (export "box") (ref $Box) (struct.new $Box "hello"))
)"#;

    let transformed = transform_string_types(source);
    println!("Transformed WAT:\n{}", transformed);

    // Check that string type was added
    assert!(transformed.contains("(type $string (array (mut i8)))"));

    // Check that string references were replaced
    assert!(transformed.contains("(ref null $string)"));

    // Check that string literal was transformed
    assert!(transformed.contains("array.new_data $string"));
}

#[test]
fn literal_becomes_a_data_segment() {
    let source = "(module\n  (type $Box (struct (field $val (mut string))))\n  (global $box (export \"box\") (ref $Box) (struct.new $Box \"hello\"))\n)";
    let transformed = transform_string_types(source);
    assert!(transformed.contains("array.new_data $string $str_0 (i32.const 0) (i32.const 5)"));
    assert!(transformed.contains("(data $str_0 \"hello\")"));
}

#[test]
fn source_without_strings_is_unchanged() {
    for source in [
        "",
        "(module)",
        "(module\r\n  (func $add (param $a i32) (result i32)\r\n    local.get $a)\r\n)",
        "\n            (module\n              (func $add (param $a i32) (param $b i32) (result i32)\n                local.get $a\n                local.get $b\n                i32.add)\n              (export \"add\" (func $add)))\n        ",
    ] {
        assert_eq!(transform_string_types(source), source);
    }
}

#[test]
fn declared_string_type_is_not_declared_again() {
    let source = "(module\n  (type $string (array (mut i8)))\n  (type $Box (struct (field $val (mut (ref null $string)))))\n  (func (param string))\n)";
    let transformed = transform_string_types(source);
    assert_eq!(transformed.matches("(type $string").count(), 1);
    assert_eq!(
        transformed,
        "(module\n  (type $string (array (mut i8)))\n  (type $Box (struct (field $val (mut (ref null $string)))))\n  (func (param (ref null $string)))\n)\n"
    );
}

#[test]
fn declaration_goes_before_first_content_line() {
    let source = "(module\n\n  ;; a comment\n  (func (param string) (result string))\n)\n";
    assert_eq!(
        transform_string_types(source),
        "(module\n\n  ;; a comment\n  ;; String type: array of i8 (UTF-8)\n  (type $string (array (mut i8)))\n\n  (func (param (ref null $string)) (result (ref null $string)))\n)\n"
    );
}

#[test]
fn literals_are_numbered_in_order() {
    let source = "(module\n  (type $string (array (mut i8)))\n  (struct.new $A \"a\")\n  (struct.new $B \"b\u{00e9}\")\n)\n";
    assert_eq!(
        transform_string_types(source),
        "(module\n  (type $string (array (mut i8)))\n  (struct.new $A (array.new_data $string $str_0 (i32.const 0) (i32.const 1)))\n  (struct.new $B (array.new_data $string $str_1 (i32.const 0) (i32.const 3)))\n\n  ;; String data sections\n  (data $str_0 \"a\")\n  (data $str_1 \"b\u{00e9}\")\n)\n"
    );
}

#[test]
fn line_of_module_opening_is_copied() {
    let source = "(module (func (param string))\n  (func (result string))\n)";
    assert_eq!(
        transform_string_types(source),
        "(module (func (param string))\n  ;; String type: array of i8 (UTF-8)\n  (type $string (array (mut i8)))\n\n  (func (result (ref null $string)))\n)\n"
    );
}

#[test]
fn lower_types_replaces_every_occurrence() {
    let line: Vec<char> = "(func (param string) (param string) (result string)) (mut string)".chars().collect();
    let lowered: String = lower_types(&line).into_iter().collect();
    assert_eq!(
        lowered,
        "(func (param (ref null $string)) (param (ref null $string)) (result (ref null $string))) (mut (ref null $string))"
    );
    let kept: Vec<char> = "(field $s (mut (ref null $string))) (param string)".chars().collect();
    let same: String = lower_types(&kept).into_iter().collect();
    assert_eq!(same, "(field $s (mut (ref null $string))) (param string)");
}

#[test]
fn literal_after_instruction_is_rewritten() {
    let mut counter = 4usize;
    let (line, data) = transform_string_literal_to_data(
        "(global $g (export \"g\") (struct.new $Box \"hi there\") \"x\")",
        &mut counter,
    );
    assert_eq!(
        line,
        "(global $g (export \"g\") (struct.new $Box (array.new_data $string $str_4 (i32.const 0) (i32.const 8))) \"x\")"
    );
    assert_eq!(data, Some("(data $str_4 \"hi there\")".to_string()));
    assert_eq!(counter, 5);
}

#[test]
fn line_without_literal_is_left_alone() {
    for line in ["(export \"g\") struct.new $Box", "struct.new $Box \"open", "no instruction \"here\"", ""] {
        let mut counter = 2usize;
        let (out, data) = transform_string_literal_to_data(line, &mut counter);
        assert_eq!(out, line);
        assert_eq!(data, None);
        assert_eq!(counter, 2);
    }
}

#[test]
fn empty_literal_has_length_zero() {
    let mut counter = 0usize;
    let (line, data) = transform_string_literal_to_data("struct.new $B \"\"", &mut counter);
    assert_eq!(line, "struct.new $B (array.new_data $string $str_0 (i32.const 0) (i32.const 0))");
    assert_eq!(data, Some("(data $str_0 \"\")".to_string()));
    assert_eq!(counter, 1);
}
