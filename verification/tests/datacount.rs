use wasm_compiler::datacount::{inject_datacount_section, restore_datacount, DatacountOutcome};
use wasm_compiler::sections::{scan_sections, starts_with_magic};

fn header() -> Vec<u8> {
    vec![0x00, 0x61, 0x73, 0x6d, 0x01, 0x00, 0x00, 0x00]
}

fn module(sections: &[(u8, Vec<u8>)]) -> Vec<u8> {
    let mut out = header();
    for (id, payload) in sections {
        out.push(*id);
        assert!(payload.len() < 128);
        out.push(payload.len() as u8);
        out.extend_from_slice(payload);
    }
    out
}

fn ids(binary: &[u8]) -> Vec<u8> {
    scan_sections(binary, 8).iter().map(|s| s.id).collect()
}

#[test]
fn magic_is_recognised() {
    assert!(starts_with_magic(&header()));
    assert!(!starts_with_magic(&[0x00, 0x61, 0x73]));
    assert!(!starts_with_magic(b"(module)"));
}

#[test]
fn scan_reports_offsets_and_sizes() {
    let binary = module(&[(1, vec![0x00]), (10, vec![0x01, 0x02, 0x03]), (11, vec![0x01])]);
    let sections = scan_sections(&binary, 8);
    assert_eq!(sections.len(), 3);
    assert_eq!((sections[0].id, sections[0].offset, sections[0].start, sections[0].size), (1, 8, 10, 1));
    assert_eq!((sections[1].id, sections[1].offset, sections[1].start, sections[1].size), (10, 11, 13, 3));
    assert_eq!((sections[2].id, sections[2].offset, sections[2].start, sections[2].size), (11, 16, 18, 1));
}

#[test]
fn scan_ends_at_a_section_that_passes_the_end() {
    let mut binary = module(&[(1, vec![0x00])]);
    binary.extend_from_slice(&[10, 0x20, 0x00]);
    binary.extend_from_slice(&[11, 0x01, 0x01]);
    let sections = scan_sections(&binary, 8);
    assert_eq!(sections.len(), 2);
    assert_eq!((sections[1].id, sections[1].offset, sections[1].start, sections[1].size), (10, 11, 13, 0x20));
}

#[test]
fn scan_of_short_or_empty_input_finds_nothing() {
    assert!(scan_sections(&[], 8).is_empty());
    assert!(scan_sections(&header(), 8).is_empty());
    assert!(scan_sections(&[1, 2, 3], 8).is_empty());
}

#[test]
fn injects_before_code_section() {
    let mut binary = module(&[(1, vec![0x00]), (10, vec![0x00, 0x00]), (11, vec![0x01, 0x01, 0x00])]);
    let expected = module(&[
        (1, vec![0x00]),
        (12, vec![0x01]),
        (10, vec![0x00, 0x00]),
        (11, vec![0x01, 0x01, 0x00]),
    ]);
    inject_datacount_section(&mut binary);
    assert_eq!(binary, expected);
    assert_eq!(ids(&binary), vec![1, 12, 10, 11]);
}

#[test]
fn injected_count_is_leb128() {
    let mut binary = module(&[(10, vec![0x00]), (11, vec![0xC8, 0x01, 0x00])]);
    let expected = module(&[(12, vec![0xC8, 0x01]), (10, vec![0x00]), (11, vec![0xC8, 0x01, 0x00])]);
    inject_datacount_section(&mut binary);
    assert_eq!(binary, expected);
}

#[test]
fn data_section_before_code_section_counts_too() {
    let mut binary = module(&[(11, vec![0x02, 0x00]), (10, vec![0x00])]);
    let expected = module(&[(11, vec![0x02, 0x00]), (12, vec![0x02]), (10, vec![0x00])]);
    inject_datacount_section(&mut binary);
    assert_eq!(binary, expected);
}

#[test]
fn no_injection_without_data_segments() {
    let given = module(&[(1, vec![0x00]), (10, vec![0x00]), (11, vec![0x00])]);
    let mut binary = given.clone();
    inject_datacount_section(&mut binary);
    assert_eq!(binary, given);

    let given = module(&[(1, vec![0x00]), (10, vec![0x00])]);
    let mut binary = given.clone();
    inject_datacount_section(&mut binary);
    assert_eq!(binary, given);
}

#[test]
fn no_injection_when_section_is_present() {
    let given = module(&[(12, vec![0x01]), (10, vec![0x00]), (11, vec![0x01, 0x00])]);
    let mut binary = given.clone();
    inject_datacount_section(&mut binary);
    assert_eq!(binary, given);
}

#[test]
fn no_injection_without_code_section() {
    let given = module(&[(1, vec![0x00]), (11, vec![0x03, 0x00])]);
    let mut binary = given.clone();
    inject_datacount_section(&mut binary);
    assert_eq!(binary, given);
}

#[test]
fn no_injection_without_header() {
    for given in [vec![], vec![0x00, 0x61, 0x73], vec![1, 2, 3, 4, 5, 6, 7, 8, 10, 1, 0, 11, 1, 1]] {
        let mut binary = given.clone();
        inject_datacount_section(&mut binary);
        assert_eq!(binary, given);
    }
}

#[test]
fn last_data_section_gives_the_count() {
    let mut binary = module(&[(10, vec![0x00]), (11, vec![0x05]), (11, vec![0x02])]);
    let expected = module(&[(12, vec![0x02]), (10, vec![0x00]), (11, vec![0x05]), (11, vec![0x02])]);
    inject_datacount_section(&mut binary);
    assert_eq!(binary, expected);
}

#[test]
fn first_code_section_is_the_anchor() {
    let mut binary = module(&[(10, vec![0x00]), (10, vec![0x01]), (11, vec![0x01])]);
    let expected = module(&[(12, vec![0x01]), (10, vec![0x00]), (10, vec![0x01]), (11, vec![0x01])]);
    inject_datacount_section(&mut binary);
    assert_eq!(binary, expected);
}

#[test]
fn injecting_twice_changes_nothing_more() {
    let mut binary = module(&[(10, vec![0x00]), (11, vec![0x01, 0x00])]);
    inject_datacount_section(&mut binary);
    let once = binary.clone();
    inject_datacount_section(&mut binary);
    assert_eq!(binary, once);
}

#[test]
fn truncated_data_section_is_read_as_far_as_it_goes() {
    let mut binary = module(&[(10, vec![0x00])]);
    binary.extend_from_slice(&[11, 0x10, 0x03]);
    let mut expected = module(&[(12, vec![0x03]), (10, vec![0x00])]);
    expected.extend_from_slice(&[11, 0x10, 0x03]);
    inject_datacount_section(&mut binary);
    assert_eq!(binary, expected);
}

#[test]
fn garbage_is_taken_without_fault() {
    let mut seed: u32 = 0x1234_5678;
    for len in 0..200usize {
        let mut binary = header();
        for _ in 0..len {
            seed = seed.wrapping_mul(1_664_525).wrapping_add(1_013_904_223);
            binary.push((seed >> 24) as u8);
        }
        let before = binary.len();
        let _ = scan_sections(&binary, 8);
        inject_datacount_section(&mut binary);
        assert!(binary.len() == before || (binary.len() > before && binary.len() <= before + 7));
    }
}

#[test]
fn outcome_tells_what_was_found() {
    let mut short = vec![1, 2, 3];
    assert_eq!(restore_datacount(&mut short), DatacountOutcome::NoHeader);

    let mut present = module(&[(12, vec![0x01]), (10, vec![0x00]), (11, vec![0x01, 0x00])]);
    assert_eq!(restore_datacount(&mut present), DatacountOutcome::AlreadyPresent);

    let mut none = module(&[(1, vec![0x00]), (10, vec![0x00])]);
    assert_eq!(restore_datacount(&mut none), DatacountOutcome::NoSegments);

    let mut no_code = module(&[(1, vec![0x00]), (11, vec![0x03, 0x00])]);
    let given = no_code.clone();
    assert_eq!(
        restore_datacount(&mut no_code),
        DatacountOutcome::NoCodeSection { segments: 3 }
    );
    assert_eq!(no_code, given);

    let mut needed = module(&[(1, vec![0x00]), (10, vec![0x00]), (11, vec![0x02, 0x00])]);
    assert_eq!(
        restore_datacount(&mut needed),
        DatacountOutcome::Injected { segments: 2, offset: 11 }
    );
    assert_eq!(needed[11..14], [12, 1, 2]);
}
