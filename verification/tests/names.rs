use wasm_compiler::names::{parse_field_names_subsection, parse_name_section};

fn header() -> Vec<u8> {
    vec![0x00, 0x61, 0x73, 0x6d, 0x01, 0x00, 0x00, 0x00]
}

fn field(index: u8, name: &[u8]) -> Vec<u8> {
    let mut out = vec![index, name.len() as u8];
    out.extend_from_slice(name);
    out
}

fn type_entry(index: u8, fields: &[Vec<u8>]) -> Vec<u8> {
    let mut out = vec![index, fields.len() as u8];
    for f in fields {
        out.extend_from_slice(f);
    }
    out
}

fn subsection(id: u8, payload: &[u8]) -> Vec<u8> {
    let mut out = vec![id, payload.len() as u8];
    out.extend_from_slice(payload);
    out
}

fn custom_section(name: &[u8], body: &[u8]) -> Vec<u8> {
    let mut payload = vec![name.len() as u8];
    payload.extend_from_slice(name);
    payload.extend_from_slice(body);
    let mut out = vec![0, payload.len() as u8];
    out.extend_from_slice(&payload);
    out
}

fn field_names_payload() -> Vec<u8> {
    let mut payload = vec![2];
    payload.extend_from_slice(&type_entry(0, &[field(0, b"x"), field(1, b"yy")]));
    payload.extend_from_slice(&type_entry(3, &[field(0, b"val")]));
    payload
}

#[test]
fn subsection_lists_types_in_order() {
    let entries = parse_field_names_subsection(&field_names_payload());
    assert_eq!(entries.len(), 2);
    assert_eq!(entries[0].type_index, 0);
    assert_eq!(entries[0].fields, vec!["x".to_string(), "yy".to_string()]);
    assert_eq!(entries[1].type_index, 3);
    assert_eq!(entries[1].fields, vec!["val".to_string()]);
}

#[test]
fn subsection_decodes_utf8_names() {
    let mut payload = vec![1];
    payload.extend_from_slice(&type_entry(0, &[field(0, "gr\u{00fc}n".as_bytes())]));
    let entries = parse_field_names_subsection(&payload);
    assert_eq!(entries.len(), 1);
    assert_eq!(entries[0].fields, vec!["gr\u{00fc}n".to_string()]);
}

#[test]
fn subsection_passes_over_names_that_are_not_utf8() {
    let mut payload = vec![1];
    payload.extend_from_slice(&type_entry(7, &[field(0, &[0xff, 0xfe]), field(1, b"ok")]));
    let entries = parse_field_names_subsection(&payload);
    assert_eq!(entries.len(), 1);
    assert_eq!(entries[0].type_index, 7);
    assert_eq!(entries[0].fields, vec!["ok".to_string()]);
}

#[test]
fn overlong_and_surrogate_encodings_are_not_names() {
    let mut payload = vec![1];
    payload.extend_from_slice(&type_entry(
        2,
        &[
            field(0, &[0xc0, 0x80]),
            field(1, &[0xed, 0xa0, 0x80]),
            field(2, &[0xf4, 0x90, 0x80, 0x80]),
            field(3, &[0xe2, 0x82]),
            field(4, "\u{20ac}".as_bytes()),
        ],
    ));
    let entries = parse_field_names_subsection(&payload);
    assert_eq!(entries.len(), 1);
    assert_eq!(entries[0].fields, vec!["\u{20ac}".to_string()]);
}

#[test]
fn later_entry_for_a_type_replaces_the_earlier_in_place() {
    let mut payload = vec![3];
    payload.extend_from_slice(&type_entry(1, &[field(0, b"a")]));
    payload.extend_from_slice(&type_entry(2, &[field(0, b"b")]));
    payload.extend_from_slice(&type_entry(1, &[field(0, b"c"), field(1, b"d")]));
    let entries = parse_field_names_subsection(&payload);
    assert_eq!(entries.len(), 2);
    assert_eq!(entries[0].type_index, 1);
    assert_eq!(entries[0].fields, vec!["c".to_string(), "d".to_string()]);
    assert_eq!(entries[1].type_index, 2);
    assert_eq!(entries[1].fields, vec!["b".to_string()]);
}

#[test]
fn subsection_cut_short_keeps_what_was_read() {
    let mut payload = vec![2];
    payload.extend_from_slice(&type_entry(0, &[field(0, b"x")]));
    payload.extend_from_slice(&[1, 2, 0, 9, b'a']);
    let entries = parse_field_names_subsection(&payload);
    assert_eq!(entries.len(), 2);
    assert_eq!(entries[0].fields, vec!["x".to_string()]);
    assert_eq!(entries[1].type_index, 1);
    assert!(entries[1].fields.is_empty());
}

#[test]
fn empty_subsection_has_no_entries() {
    assert!(parse_field_names_subsection(&[]).is_empty());
    assert!(parse_field_names_subsection(&[0]).is_empty());
    assert!(parse_field_names_subsection(&[5]).is_empty());
}

#[test]
fn name_section_gives_fields_of_first_type() {
    let mut binary = header();
    binary.extend_from_slice(&[1, 1, 0]);
    let mut body = subsection(4, &[0]);
    body.extend_from_slice(&subsection(12, &field_names_payload()));
    binary.extend_from_slice(&custom_section(b"name", &body));
    assert_eq!(
        parse_name_section(&binary),
        Some(vec!["x".to_string(), "yy".to_string()])
    );
}

#[test]
fn other_custom_sections_are_passed_over() {
    let mut binary = header();
    binary.extend_from_slice(&custom_section(b"producers", &[0]));
    let body = subsection(12, &field_names_payload());
    binary.extend_from_slice(&custom_section(b"name", &body));
    assert_eq!(
        parse_name_section(&binary),
        Some(vec!["x".to_string(), "yy".to_string()])
    );
}

#[test]
fn absent_name_section_gives_no_metadata() {
    assert_eq!(parse_name_section(&[]), None);
    assert_eq!(parse_name_section(&header()), None);
    let mut binary = header();
    binary.extend_from_slice(&[1, 1, 0, 10, 1, 0]);
    assert_eq!(parse_name_section(&binary), None);
    binary.extend_from_slice(&custom_section(b"name", &subsection(1, &[0])));
    assert_eq!(parse_name_section(&binary), None);
}

#[test]
fn name_section_past_the_end_gives_no_metadata() {
    let mut binary = header();
    let body = subsection(12, &field_names_payload());
    let mut section = custom_section(b"name", &body);
    section[1] += 1;
    binary.extend_from_slice(&section);
    assert_eq!(parse_name_section(&binary), None);
}

#[test]
fn field_names_subsection_past_the_end_is_not_read() {
    let mut binary = header();
    let mut body = subsection(12, &field_names_payload());
    body[1] = 0x7f;
    let mut section = custom_section(b"name", &body);
    binary.extend_from_slice(&section);
    assert_eq!(parse_name_section(&binary), None);
    section.clear();
}

#[test]
fn garbage_name_sections_are_taken_without_fault() {
    let mut seed: u32 = 0x0bad_cafe;
    for len in 0..200usize {
        let mut binary = header();
        binary.extend_from_slice(&[0, 0x7f, 4, b'n', b'a', b'm', b'e']);
        for _ in 0..len {
            seed = seed.wrapping_mul(1_664_525).wrapping_add(1_013_904_223);
            binary.push((seed >> 24) as u8);
        }
        let _ = parse_name_section(&binary);
        let _ = parse_field_names_subsection(&binary[15..]);
    }
}
