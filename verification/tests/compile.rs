use wasm_compiler::binding::{generate_binding, write_binding};
use wasm_compiler::compiler::obtain_binary;
use wasm_compiler::cache::calculate_hash;
use wasm_compiler::datacount::DatacountOutcome;
use wasm_compiler::encoder::{
    compile_wat_internal, compile_wat_traced, inject_gc_accessors, parse_error,
};
use wasm_compiler::sections::scan_sections;
use wasm_compiler::{clear_cache, compile_wat_to_js, CompileCache, CompileError};

#[test]
fn test_caching() {
    let mut cache = CompileCache::new();
    clear_cache(&mut cache);

    let source = "(module)";

    // First compilation
    let result1 = compile_wat_to_js(&mut cache, source, "test.wat", None);
    assert!(result1.is_ok());

    // Second compilation (should hit cache)
    let result2 = compile_wat_to_js(&mut cache, source, "test.wat", None);
    assert!(result2.is_ok());

    assert_eq!(result1.unwrap(), result2.unwrap());
}

#[test]
fn test_invalid_wat() {
    let mut cache = CompileCache::new();
    let source = "(module (invalid syntax))";

    let result = compile_wat_to_js(&mut cache, source, "test.wat", None);
    assert!(result.is_err());
}

#[test]
fn test_simple_wasm() {
    let mut cache = CompileCache::new();
    let source = r#"
            (module
              (func $add (param $a i32) (param $b i32) (result i32)
                local.get $a
                local.get $b
                i32.add)
              (export "add" (func $add)))
        "#;

    let result = compile_wat_to_js(&mut cache, source, "test.wat", None);
    assert!(result.is_ok());

    let js = result.unwrap();
    assert!(js.contains("WebAssembly"));
    assert!(js.contains("new Uint8Array([0x00, 0x61, 0x73, 0x6D, 0x01, 0x00, 0x00, 0x00, "));
}

#[test]
fn simple_module_has_no_field_names_and_no_callback() {
    let mut cache = CompileCache::new();
    let source = "(module\n  (func $add (param $a i32) (param $b i32) (result i32)\n    local.get $a\n    local.get $b\n    i32.add)\n  (export \"add\" (func $add)))";
    let js = compile_wat_to_js(&mut cache, source, "test.wat", None).unwrap();
    assert!(js.contains("window.__wasmFieldNames = {};"));
    assert!(js.ends_with("})();\n"));
}

#[test]
fn empty_module_encodes_to_a_header() {
    let binary = compile_wat_internal("(module)", "empty.wat").unwrap();
    assert_eq!(binary, vec![0x00, 0x61, 0x73, 0x6d, 0x01, 0x00, 0x00, 0x00]);
}

#[test]
fn invalid_text_gives_parse_error_with_filename() {
    let error = compile_wat_internal("(module (invalid syntax))", "bad.wat").unwrap_err();
    let CompileError::ParseError(message) = &error;
    assert!(message.starts_with("in bad.wat: "));
    assert!(message.len() > "in bad.wat: ".len());
    assert_eq!(error.message(), format!("WAT parse error: {}", message));
}

#[test]
fn parse_error_names_file_and_detail() {
    let error = parse_error("a.wat", "unexpected token");
    let CompileError::ParseError(message) = &error;
    assert_eq!(message, "in a.wat: unexpected token");
    assert_eq!(error.message(), "WAT parse error: in a.wat: unexpected token");
}

#[test]
fn binary_source_passes_through() {
    let source = "\0asm\u{1}\0\0\0";
    let binary = compile_wat_internal(source, "m.wasm").unwrap();
    assert_eq!(binary, source.as_bytes());

    let with_section = "\0asm\u{1}\0\0\0\u{1}\u{1}\0";
    let binary = compile_wat_internal(with_section, "m.wasm").unwrap();
    assert_eq!(binary, with_section.as_bytes());

    let not_text = "\0asm(module (invalid syntax))";
    let binary = compile_wat_internal(not_text, "m.wasm").unwrap();
    assert_eq!(binary, not_text.as_bytes());
}

#[test]
fn binary_source_is_not_augmented() {
    let source = "\0asm\u{1}\0\0\0\u{a}\u{1}\0\u{b}\u{2}\u{1}\0";
    let compilation = compile_wat_traced(source, "m.wasm").unwrap();
    assert_eq!(compilation.binary, source.as_bytes());
    assert_eq!(compilation.datacount, None);
}

#[test]
fn compilation_reports_the_datacount_pass() {
    let compilation = compile_wat_traced("(module)", "m.wat").unwrap();
    assert_eq!(compilation.datacount, Some(DatacountOutcome::NoSegments));

    let source = "(module\n  (memory 1)\n  (func)\n  (data (i32.const 0) \"hi\")\n)";
    let compilation = compile_wat_traced(source, "m.wat").unwrap();
    let sections = scan_sections(&compilation.binary, 8);
    let at = sections.iter().position(|s| s.id == 12).unwrap();
    assert_eq!(
        compilation.datacount,
        Some(DatacountOutcome::Injected { segments: 1, offset: sections[at].offset })
    );
}

#[test]
fn accessors_leave_the_binary_as_it_is() {
    assert_eq!(inject_gc_accessors(&[1, 2, 3]).unwrap(), vec![1, 2, 3]);
    assert_eq!(inject_gc_accessors(&[]).unwrap(), Vec::<u8>::new());
}

#[test]
fn encoded_module_with_data_has_one_datacount_section_before_code() {
    let source = "(module\n  (memory 1)\n  (func)\n  (data (i32.const 0) \"hi\")\n  (data (i32.const 8) \"there\")\n)";
    let binary = compile_wat_internal(source, "data.wat").unwrap();
    let sections = scan_sections(&binary, 8);
    let ids: Vec<u8> = sections.iter().map(|s| s.id).collect();
    assert_eq!(ids.iter().filter(|id| **id == 12).count(), 1);
    let at = ids.iter().position(|id| *id == 12).unwrap();
    assert_eq!(ids[at + 1], 10);
    assert_eq!(ids.iter().position(|id| *id == 10), Some(at + 1));
    assert_eq!(sections[at].size, 1);
    assert_eq!(binary[sections[at].start], 2);
    assert_eq!(sections[at].start + 1, sections[at + 1].offset);
}

#[test]
fn second_compilation_uses_the_cache_not_the_encoder() {
    let mut cache = CompileCache::new();
    let source = "(module (invalid syntax))";
    assert!(compile_wat_to_js(&mut cache, source, "test.wat", None).is_err());
    assert_eq!(cache.len(), 0);

    let stored = vec![0x00, 0x61, 0x73, 0x6d, 0x01, 0x00, 0x00, 0x00, 0x01, 0x01, 0x00];
    cache.store(calculate_hash(source), stored.clone());
    let js = compile_wat_to_js(&mut cache, source, "test.wat", None).unwrap();
    assert_eq!(js, generate_binding(&stored, source, None));
    assert!(js.contains("0x00, 0x61, 0x73, 0x6D, 0x01, 0x00, 0x00, 0x00, 0x01, 0x01, 0x00]"));
    assert_eq!(cache.len(), 1);
}

#[test]
fn compilation_stores_the_binary_under_the_fingerprint() {
    let mut cache = CompileCache::new();
    let source = "(module)";
    let first = compile_wat_to_js(&mut cache, source, "test.wat", None).unwrap();
    assert_eq!(cache.len(), 1);
    assert_eq!(
        cache.lookup(calculate_hash(source)),
        Some(vec![0x00, 0x61, 0x73, 0x6d, 0x01, 0x00, 0x00, 0x00])
    );
    let second = compile_wat_to_js(&mut cache, source, "test.wat", None).unwrap();
    assert_eq!(first, second);
    assert_eq!(cache.len(), 1);
    clear_cache(&mut cache);
    assert_eq!(cache.len(), 0);
}

#[test]
fn one_hundred_and_one_sources_leave_one_entry() {
    let mut cache = CompileCache::new();
    clear_cache(&mut cache);
    for i in 0..100 {
        let source = format!("(module (func $f{}))", i);
        assert!(compile_wat_to_js(&mut cache, &source, "n.wat", None).is_ok());
        assert_eq!(cache.len(), i + 1);
    }
    let last = "(module (func $last))";
    assert!(compile_wat_to_js(&mut cache, last, "n.wat", None).is_ok());
    assert_eq!(cache.len(), 1);
    assert!(cache.lookup(calculate_hash(last)).is_some());
}

#[test]
fn script_carries_bytes_metadata_and_callback() {
    let js = write_binding(&[0x00, 0xab, 0x0f], "{\"default\":1}", Some("go();"));
    assert!(js.starts_with("\n(function() {\n    try {\n        console.log('WASM: Starting module load');\n"));
    assert!(js.contains("const wasmBytes = new Uint8Array([0x00, 0xAB, 0x0F]);\n"));
    assert!(js.contains("window.__wasmFieldNames = {\"default\":1};\n"));
    assert!(js.contains("window.dispatchEvent(new Event('wasmloaded'));"));
    assert!(js.ends_with(
        "})();\n\n// Auto-generated callback from inline script content\nwindow.addEventListener('wasmloaded', function() {\ngo();\n});\n"
    ));
}

#[test]
fn blank_callback_adds_nothing() {
    let plain = write_binding(&[], "{}", None);
    assert!(plain.contains("new Uint8Array([]);"));
    assert!(plain.ends_with("})();\n"));
    assert_eq!(write_binding(&[], "{}", Some("")), plain);
    assert_eq!(write_binding(&[], "{}", Some(" \n\t ")), plain);
    assert_ne!(write_binding(&[], "{}", Some(" x ")), plain);
}

#[test]
fn struct_source_emits_field_names() {
    let mut cache = CompileCache::new();
    let source = "(module\n  (type $Box (struct (field $val (mut i32))))\n  (func $make (export \"make\") (param $v i32) (result (ref $Box))\n    local.get $v\n    struct.new $Box\n  )\n)";
    let js = compile_wat_to_js(&mut cache, source, "box.wat", None).unwrap();
    assert!(js.contains("window.__wasmFieldNames = {\"default\":{\"typeName\":\"Box\",\"fields\":[\"val\"]}};"));
}

#[test]
fn string_source_is_lowered_before_encoding() {
    let source = "(module\n  (type $Box (struct (field $val (mut string))))\n  (func $make (export \"make\") (result (ref $Box))\n    (struct.new $Box \"hello\")\n  )\n)";
    let binary = compile_wat_internal(source, "box.wat").unwrap();
    let sections = scan_sections(&binary, 8);
    let ids: Vec<u8> = sections.iter().map(|s| s.id).collect();
    assert!(ids.contains(&11));
    assert_eq!(ids.iter().filter(|id| **id == 12).count(), 1);
    let at = ids.iter().position(|id| *id == 12).unwrap();
    assert_eq!(ids[at + 1], 10);
}

#[test]
fn cached_binary_is_used_as_it_is() {
    let obtained = obtain_binary(Some(vec![9, 9]), "(module (invalid syntax))", "x.wat").unwrap();
    assert_eq!(obtained.binary, vec![9, 9]);
    assert!(!obtained.fresh);
    assert_eq!(obtained.datacount, None);
}

#[test]
fn missing_binary_is_compiled_fresh() {
    let obtained = obtain_binary(None, "(module)", "x.wat").unwrap();
    assert_eq!(obtained.binary, vec![0x00, 0x61, 0x73, 0x6d, 0x01, 0x00, 0x00, 0x00]);
    assert!(obtained.fresh);
    assert_eq!(obtained.datacount, Some(DatacountOutcome::NoSegments));
    assert!(obtain_binary(None, "(module (invalid syntax))", "x.wat").is_err());
}
