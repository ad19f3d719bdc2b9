//! Restoring the data-count section.
//!
//! Instructions that build an array from a data segment are only accepted by
//! a strict consumer where the module declares, ahead of its code, how many
//! data segments it has. An encoder may leave that declaration out; this pass
//! puts it in, immediately before the code section.

use vstd::prelude::*;
use vstd::slice::slice_subrange;
use crate::leb128::{
    encode_leb128_u32,
    leb128_encoding,
    leb128_len,
    leb128_value,
    lemma_encoding_shape,
    lemma_read_after_encode,
    lemma_reader_bounds,
    read_leb128_u32,
};
use crate::sections::{
    has_magic,
    scan_sections,
    section_views,
    lemma_walk_moved,
    lemma_walk_positions,
    lemma_walk_prefix,
    lemma_walk_suffix,
    moved,
    moved_all,
    section_at,
    sections_from,
    starts_with_magic,
    Section,
    SectionView,
    CODE_SECTION,
    DATA_COUNT_SECTION,
    DATA_SECTION,
    HEADER_LEN,
};

verus! {

/// Whether `module` is long enough for a header and begins with the magic
/// bytes.
pub open spec fn has_header(module: Seq<u8>) -> bool {
    module.len() >= HEADER_LEN && has_magic(module)
}

/// The sections of `module`, walked from the end of its header.
pub open spec fn module_sections(module: Seq<u8>) -> Seq<SectionView> {
    sections_from(module, HEADER_LEN as int)
}

/// Whether one of `sections` has the id `id`.
pub open spec fn has_section(sections: Seq<SectionView>, id: u8) -> bool {
    exists|i: int| 0 <= i < sections.len() && #[trigger] sections[i].id == id
}

/// The index of the first of the first `n` sections that has the id `id`.
pub open spec fn first_section(sections: Seq<SectionView>, id: u8, n: int) -> Option<int>
    decreases n,
{
    if n <= 0 {
        None
    } else {
        match first_section(sections, id, n - 1) {
            Some(i) => Some(i),
            None => if sections[n - 1].id == id {
                Some(n - 1)
            } else {
                None
            },
        }
    }
}

/// The part of a section's payload that lies inside the module.
pub open spec fn payload_in(module: Seq<u8>, section: SectionView) -> Seq<u8> {
    module.subrange(
        section.start,
        if section.end() < module.len() {
            section.end()
        } else {
            module.len() as int
        },
    )
}

/// The number of segments that the last data section among the first `n`
/// sections declares: the integer at the front of its payload. Without a
/// data section it is 0.
pub open spec fn declared_segments(module: Seq<u8>, sections: Seq<SectionView>, n: int) -> int
    decreases n,
{
    if n <= 0 {
        0
    } else if sections[n - 1].id == DATA_SECTION {
        leb128_value(payload_in(module, sections[n - 1]))
    } else {
        declared_segments(module, sections, n - 1)
    }
}

/// The number of data segments of `module`.
pub open spec fn data_segments(module: Seq<u8>) -> int {
    declared_segments(module, module_sections(module), module_sections(module).len() as int)
}

/// The offset of the id byte of the first code section of `module`.
pub open spec fn code_offset(module: Seq<u8>) -> Option<int> {
    let sections = module_sections(module);
    match first_section(sections, CODE_SECTION, sections.len() as int) {
        Some(i) => Some(sections[i].offset),
        None => None,
    }
}

/// Whether `module` lacks a data-count section that it should have, and
/// offers a place for one: it has a header, no data-count section, at least
/// one data segment, and a code section.
pub open spec fn needs_datacount(module: Seq<u8>) -> bool {
    &&& has_header(module)
    &&& !has_section(module_sections(module), DATA_COUNT_SECTION)
    &&& data_segments(module) > 0
    &&& code_offset(module) is Some
}

/// The bytes of a data-count section that declares `count` segments: the id,
/// the length of the encoded count, the encoded count.
pub open spec fn datacount_section(count: u32) -> Seq<u8> {
    seq![DATA_COUNT_SECTION, leb128_encoding(count).len() as u8] + leb128_encoding(count)
}

/// The module `module` with a data-count section for `count` segments put
/// in at index `at`.
pub open spec fn with_section_at(module: Seq<u8>, at: int, count: u32) -> Seq<u8> {
    module.subrange(0, at) + datacount_section(count) + module.subrange(at, module.len() as int)
}

/// `module` with its data-count section restored: where one is needed, it is
/// spliced in at the offset of the first code section, and every later byte
/// moves up; otherwise the module stays as it is.
pub open spec fn with_datacount(module: Seq<u8>) -> Seq<u8> {
    if needs_datacount(module) {
        with_section_at(module, code_offset(module)->Some_0, data_segments(module) as u32)
    } else {
        module
    }
}

/// What the pass finds in a module, and what it does about it.
#[derive(Clone, Copy, Debug, PartialEq, Eq)]
pub enum DatacountOutcome {
    /// The buffer has no header of a binary module; nothing is done.
    NoHeader,
    /// The module has a data-count section already; nothing is done.
    AlreadyPresent,
    /// The module declares no data segments; nothing is done.
    NoSegments,
    /// The module declares `segments` data segments, but has no code
    /// section in front of which the section could go; nothing is done.
    NoCodeSection { segments: u32 },
    /// A data-count section for `segments` data segments is put in at
    /// `offset`, where the first code section began.
    Injected { segments: u32, offset: usize },
}

/// What the pass finds in `module` and does about it.
pub open spec fn datacount_outcome(module: Seq<u8>) -> DatacountOutcome {
    if !has_header(module) {
        DatacountOutcome::NoHeader
    } else if has_section(module_sections(module), DATA_COUNT_SECTION) {
        DatacountOutcome::AlreadyPresent
    } else if data_segments(module) <= 0 {
        DatacountOutcome::NoSegments
    } else {
        match code_offset(module) {
            None => DatacountOutcome::NoCodeSection { segments: data_segments(module) as u32 },
            Some(at) => DatacountOutcome::Injected {
                segments: data_segments(module) as u32,
                offset: at as usize,
            },
        }
    }
}

/// What one pass over the section table finds.
struct Survey {
    has_datacount: bool,
    segments: u32,
    code: Option<usize>,
}

/// Looks through the sections of `module` for a data-count section, the
/// declared number of data segments and the first code section.
fn survey(module: &[u8], sections: &Vec<Section>) -> (found: Survey)
    requires
        section_views(sections@) == module_sections(module@),
    ensures
        found.has_datacount == has_section(module_sections(module@), DATA_COUNT_SECTION),
        found.segments as int == data_segments(module@),
        found.code is Some == code_offset(module@) is Some,
        found.code is Some ==> found.code->Some_0 as int == code_offset(module@)->Some_0,
        found.code is Some ==> found.code->Some_0 < module@.len(),
{
    let ghost views = section_views(sections@);
    let mut has_datacount: bool = false;
    let mut segments: u32 = 0;
    let mut code: Option<usize> = None;
    let mut i: usize = 0;
    proof {
        lemma_walk_positions(module@, HEADER_LEN as int);
    }
    while i < sections.len()
        invariant
            i <= sections.len(),
            views == section_views(sections@),
            views == module_sections(module@),
            has_datacount == has_section(views.take(i as int), DATA_COUNT_SECTION),
            segments as int == declared_segments(module@, views, i as int),
            code is Some == first_section(views, CODE_SECTION, i as int) is Some,
            code is Some ==> code->Some_0 as int == views[first_section(
                views,
                CODE_SECTION,
                i as int,
            )->Some_0].offset,
            code is Some ==> code->Some_0 < module@.len(),
            forall|k: int|
                0 <= k < views.len() ==> 0 <= (#[trigger] views[k]).offset < module@.len()
                    && views[k].offset < views[k].start <= module@.len(),
        decreases sections.len() - i,
    {
        let section = sections[i];
        assert(section@ == views[i as int]);
        proof {
            let shorter = views.take(i as int);
            let longer = views.take(i + 1);
            assert(longer =~= shorter.push(views[i as int]));
            if has_section(shorter, DATA_COUNT_SECTION) {
                let k = choose|k: int|
                    0 <= k < shorter.len() && #[trigger] shorter[k].id == DATA_COUNT_SECTION;
                assert(longer[k].id == DATA_COUNT_SECTION);
            }
            if has_section(longer, DATA_COUNT_SECTION) && section.id != DATA_COUNT_SECTION {
                let k = choose|k: int|
                    0 <= k < longer.len() && #[trigger] longer[k].id == DATA_COUNT_SECTION;
                assert(shorter[k].id == DATA_COUNT_SECTION);
            }
            if section.id == DATA_COUNT_SECTION {
                assert(longer[i as int].id == DATA_COUNT_SECTION);
            }
        }
        if section.id == DATA_COUNT_SECTION {
            has_datacount = true;
        }
        if section.id == DATA_SECTION {
            let room: usize = module.len() - section.start;
            let end: usize = if (section.size as usize) < room {
                section.start + section.size as usize
            } else {
                module.len()
            };
            let payload = slice_subrange(module, section.start, end);
            assert(payload@ == payload_in(module@, section@));
            let (count, _) = read_leb128_u32(payload);
            segments = count;
        }
        if section.id == CODE_SECTION && code.is_none() {
            code = Some(section.offset);
        }
        i += 1;
    }
    assert(views.take(i as int) =~= views);
    Survey { has_datacount, segments, code }
}

/// Restores the data-count section of `binary` where it is needed, and
/// leaves `binary` as it is where it is not: without a header, with a
/// data-count section already there, without data segments, or without a
/// code section to put it in front of. The result tells which of these it
/// was.
pub fn restore_datacount(binary: &mut Vec<u8>) -> (outcome: DatacountOutcome)
    ensures
        final(binary)@ == with_datacount(old(binary)@),
        outcome == datacount_outcome(old(binary)@),
{
    if binary.len() < HEADER_LEN || !starts_with_magic(binary.as_slice()) {
        return DatacountOutcome::NoHeader;
    }
    let sections = scan_sections(binary.as_slice(), HEADER_LEN);
    let found = survey(binary.as_slice(), &sections);
    if found.has_datacount {
        return DatacountOutcome::AlreadyPresent;
    }
    if found.segments == 0 {
        return DatacountOutcome::NoSegments;
    }
    match found.code {
        None => DatacountOutcome::NoCodeSection { segments: found.segments },
        Some(at) => {
            let count_bytes = encode_leb128_u32(found.segments);
            proof {
                lemma_encoding_shape(found.segments);
            }
            let ghost before = binary@;
            let ghost section = datacount_section(found.segments);
            binary.insert(at, DATA_COUNT_SECTION);
            binary.insert(at + 1, count_bytes.len() as u8);
            let mut i: usize = 0;
            while i < count_bytes.len()
                invariant
                    i <= count_bytes.len(),
                    count_bytes@ == leb128_encoding(found.segments),
                    count_bytes@.len() <= 5,
                    at < before.len(),
                    binary@.len() == before.len() + 2 + i,
                    section == datacount_section(found.segments),
                    binary@ == before.subrange(0, at as int) + section.take(i + 2)
                        + before.subrange(at as int, before.len() as int),
                decreases count_bytes.len() - i,
            {
                let len: usize = binary.len();
                assert(at + 2 + i < len);
                binary.insert(at + 2 + i, count_bytes[i]);
                assert(binary@ =~= before.subrange(0, at as int) + section.take(i + 3)
                    + before.subrange(at as int, before.len() as int));
                i += 1;
            }
            assert(section.take(i + 2) =~= section);
            DatacountOutcome::Injected { segments: found.segments, offset: at }
        },
    }
}

/// Restores the data-count section of `binary` where it is needed: see
/// [`with_datacount`].
pub fn inject_datacount_section(binary: &mut Vec<u8>)
    ensures
        final(binary)@ == with_datacount(old(binary)@),
{
    let _ = restore_datacount(binary);
}

/// A section is put in exactly where the outcome says so.
pub proof fn lemma_outcome_of_need(module: Seq<u8>)
    ensures
        needs_datacount(module) <==> datacount_outcome(module) is Injected,
{
}

/// `first_section` finds the least index that has the id, and finds one
/// wherever there is one.
pub proof fn lemma_first_section(sections: Seq<SectionView>, id: u8, n: int)
    requires
        0 <= n <= sections.len(),
    ensures
        match first_section(sections, id, n) {
            Some(i) => {
                &&& 0 <= i < n
                &&& sections[i].id == id
                &&& forall|j: int| 0 <= j < i ==> (#[trigger] sections[j]).id != id
            },
            None => forall|j: int| 0 <= j < n ==> (#[trigger] sections[j]).id != id,
        },
    decreases n,
{
    if n > 0 {
        lemma_first_section(sections, id, n - 1);
    }
}

/// The index that `first_section` gives is the only one that has the id and
/// has no such index before it.
pub proof fn lemma_first_section_is(sections: Seq<SectionView>, id: u8, n: int, i: int)
    requires
        0 <= i < n <= sections.len(),
        sections[i].id == id,
        forall|j: int| 0 <= j < i ==> (#[trigger] sections[j]).id != id,
    ensures
        first_section(sections, id, n) == Some(i),
{
    lemma_first_section(sections, id, n);
}

/// The section that the injected bytes make, where they stand at `at`.
pub open spec fn injected_section(count: u32, at: int) -> SectionView {
    SectionView {
        id: DATA_COUNT_SECTION,
        offset: at,
        start: at + 2,
        size: leb128_encoding(count).len() as int,
    }
}

proof fn lemma_injected_header(module: Seq<u8>, at: int, count: u32)
    requires
        0 <= at < module.len(),
    ensures
        ({
            let restored = with_section_at(module, at, count);
            &&& section_at(restored, at) == injected_section(count, at)
            &&& payload_in(restored, injected_section(count, at)) == leb128_encoding(count)
            &&& injected_section(count, at).end() == at + datacount_section(count).len()
            &&& injected_section(count, at).end() < restored.len()
            &&& restored.subrange(0, at) == module.subrange(0, at)
            &&& restored.subrange(injected_section(count, at).end(), restored.len() as int)
                == module.subrange(at, module.len() as int)
        }),
{
    let encoded = leb128_encoding(count);
    let added = datacount_section(count);
    let restored = module.subrange(0, at) + added + module.subrange(at, module.len() as int);
    lemma_encoding_shape(count);
    assert(added.len() == encoded.len() + 2);
    assert(restored[at] == DATA_COUNT_SECTION);
    let size_field = restored.subrange(at + 1, restored.len() as int);
    assert(size_field[0] == encoded.len() as u8);
    reveal_with_fuel(crate::leb128::payload_sum, 2);
    assert(leb128_len(size_field) == 1);
    assert(leb128_value(size_field) == encoded.len());
    assert(payload_in(restored, injected_section(count, at)) =~= encoded);
    assert(restored.subrange(0, at) =~= module.subrange(0, at));
    assert(restored.subrange(at + added.len(), restored.len() as int) =~= module.subrange(
        at,
        module.len() as int,
    ));
}

proof fn lemma_walk_with_section(module: Seq<u8>, k: int, count: u32)
    requires
        0 <= k < module_sections(module).len(),
    ensures
        ({
            let before = module_sections(module);
            let at = before[k].offset;
            module_sections(with_section_at(module, at, count)) == before.take(k) + seq![
                injected_section(count, at),
            ] + moved_all(before.skip(k), datacount_section(count).len() as int)
        }),
{
    let before = module_sections(module);
    let at = before[k].offset;
    let added = datacount_section(count).len() as int;
    let restored = with_section_at(module, at, count);
    let new = injected_section(count, at);
    assert(HEADER_LEN <= at < module.len()) by {
        lemma_walk_positions(module, HEADER_LEN as int);
    }
    lemma_injected_header(module, at, count);
    assert(module_sections(restored) == before.take(k) + sections_from(restored, at)) by {
        lemma_walk_prefix(restored, module, HEADER_LEN as int, k);
    }
    assert(sections_from(restored, new.end()) == moved_all(before.skip(k), added)) by {
        lemma_walk_moved(restored, at + added, module, at);
        lemma_walk_suffix(module, HEADER_LEN as int, k);
    }
    assert(sections_from(restored, at) == seq![new] + sections_from(restored, new.end()));
    assert(before.take(k) + (seq![new] + moved_all(before.skip(k), added)) =~= before.take(k)
        + seq![new] + moved_all(before.skip(k), added));
}

/// The sections of a module with its data-count section restored: those
/// before the first code section as they were, the new section, and the
/// code section and all after it moved up by the length of what was put in.
pub proof fn lemma_sections_after_injection(module: Seq<u8>)
    requires
        needs_datacount(module),
    ensures
        ({
            let before = module_sections(module);
            let k = first_section(before, CODE_SECTION, before.len() as int)->Some_0;
            let count = data_segments(module) as u32;
            &&& 0 <= k < before.len()
            &&& count == data_segments(module)
            &&& module_sections(with_datacount(module)) == before.take(k) + seq![
                injected_section(count, before[k].offset),
            ] + moved_all(before.skip(k), datacount_section(count).len() as int)
        }),
{
    let before = module_sections(module);
    lemma_first_section(before, CODE_SECTION, before.len() as int);
    let k = first_section(before, CODE_SECTION, before.len() as int)->Some_0;
    lemma_segments_fit(module, before, before.len() as int);
    let count = data_segments(module) as u32;
    lemma_walk_with_section(module, k, count);
    assert(with_datacount(module) == with_section_at(module, before[k].offset, count));
}

proof fn lemma_segments_fit(module: Seq<u8>, sections: Seq<SectionView>, n: int)
    requires
        0 <= n <= sections.len(),
    ensures
        0 <= declared_segments(module, sections, n) < 0x1_0000_0000,
    decreases n,
{
    if n > 0 {
        lemma_reader_bounds(payload_in(module, sections[n - 1]));
        lemma_segments_fit(module, sections, n - 1);
    }
}

/// Where a module has data segments, a code section and no data-count
/// section, the restored module has exactly one data-count section; its
/// payload lies inside the module and decodes to the number of data
/// segments; it ends where the first code section begins; and every other
/// section is as it was, or as it was and moved up.
pub proof fn lemma_datacount_restored(module: Seq<u8>)
    requires
        needs_datacount(module),
    ensures
        ({
            let before = module_sections(module);
            let restored = with_datacount(module);
            let after = module_sections(restored);
            let k = first_section(before, CODE_SECTION, before.len() as int)->Some_0;
            &&& 0 <= k < before.len()
            &&& after.len() == before.len() + 1
            &&& after[k].id == DATA_COUNT_SECTION
            &&& forall|j: int|
                0 <= j < after.len() && j != k ==> (#[trigger] after[j]).id != DATA_COUNT_SECTION
            &&& after[k].end() <= restored.len()
            &&& leb128_value(payload_in(restored, after[k])) == data_segments(module)
            &&& leb128_len(payload_in(restored, after[k])) == after[k].size
            &&& first_section(after, CODE_SECTION, after.len() as int) == Some(k + 1)
            &&& after[k + 1].offset == after[k].end()
            &&& forall|j: int| 0 <= j < k ==> #[trigger] after[j] == before[j]
            &&& forall|j: int|
                k <= j < before.len() ==> #[trigger] after[j + 1] == moved(
                    before[j],
                    restored.len() - module.len(),
                )
        }),
{
    let before = module_sections(module);
    let restored = with_datacount(module);
    let after = module_sections(restored);
    lemma_sections_after_injection(module);
    lemma_first_section(before, CODE_SECTION, before.len() as int);
    let k = first_section(before, CODE_SECTION, before.len() as int)->Some_0;
    let count = data_segments(module) as u32;
    let at = before[k].offset;
    let added = datacount_section(count).len() as int;
    lemma_walk_positions(module, HEADER_LEN as int);
    lemma_injected_header(module, at, count);
    lemma_read_after_encode(count, Seq::empty());
    assert(leb128_encoding(count) + Seq::<u8>::empty() =~= leb128_encoding(count));
    assert(restored.len() - module.len() == added);
    assert forall|j: int| 0 <= j < k implies #[trigger] after[j] == before[j] by {}
    assert forall|j: int| k <= j < before.len() implies #[trigger] after[j + 1] == moved(
        before[j],
        added,
    ) by {
        assert(after[j + 1] == moved_all(before.skip(k), added)[j - k]);
    }
    assert forall|j: int| 0 <= j < after.len() && j != k implies (#[trigger] after[j]).id
        != DATA_COUNT_SECTION by {
        if j < k {
            assert(before[j].id != DATA_COUNT_SECTION);
        } else {
            assert(after[(j - 1) + 1] == moved(before[j - 1], added));
            assert(before[j - 1].id != DATA_COUNT_SECTION);
        }
    }
    assert(after[k + 1] == moved(before[k], added));
    assert forall|j: int| 0 <= j < k + 1 implies (#[trigger] after[j]).id != CODE_SECTION by {
        if j < k {
            assert(after[j] == before[j]);
        }
    }
    lemma_first_section_is(after, CODE_SECTION, after.len() as int, k + 1);
}

/// The place of a section in the order that the binary format asks for:
/// type, import, function, table, memory, tag, global, export, start,
/// element, data count, code, data. A custom section, or one with an id that
/// the format does not know, has no place in it and may stand anywhere.
pub open spec fn place(id: u8) -> Option<int> {
    if 1 <= id <= 5 {
        Some(id as int)
    } else if id == 13 {
        Some(6)
    } else if 6 <= id <= 9 {
        Some(id as int + 1)
    } else if id == DATA_COUNT_SECTION {
        Some(11)
    } else if id == CODE_SECTION {
        Some(12)
    } else if id == DATA_SECTION {
        Some(13)
    } else {
        None
    }
}

/// Whether `sections` stand in the order that the binary format asks for:
/// of two sections that have a place, the earlier has no later place.
pub open spec fn in_order(sections: Seq<SectionView>) -> bool {
    forall|i: int, j: int|
        0 <= i < j < sections.len() && place(#[trigger] sections[i].id) is Some && place(
            #[trigger] sections[j].id,
        ) is Some ==> place(sections[i].id)->Some_0 <= place(sections[j].id)->Some_0
}

/// Restoring the data-count section keeps the sections in order: in front
/// of the first code section is where the format wants it.
pub proof fn lemma_order_is_kept(module: Seq<u8>)
    requires
        needs_datacount(module),
        in_order(module_sections(module)),
    ensures
        in_order(module_sections(with_datacount(module))),
{
    let before = module_sections(module);
    let after = module_sections(with_datacount(module));
    lemma_datacount_restored(module);
    lemma_first_section(before, CODE_SECTION, before.len() as int);
    let k = first_section(before, CODE_SECTION, before.len() as int)->Some_0;
    let by = with_datacount(module).len() - module.len();
    assert forall|i: int, j: int|
        0 <= i < j < after.len() && place(#[trigger] after[i].id) is Some && place(
            #[trigger] after[j].id,
        ) is Some implies place(after[i].id)->Some_0 <= place(after[j].id)->Some_0 by {
        let from_i = if i < k {
            i
        } else {
            i - 1
        };
        let from_j = if j < k {
            j
        } else {
            j - 1
        };
        if i != k {
            assert(after[i].id == before[from_i].id) by {
                if i > k {
                    assert(after[(i - 1) + 1] == moved(before[i - 1], by));
                }
            }
        }
        if j != k {
            assert(after[j].id == before[from_j].id) by {
                if j > k {
                    assert(after[(j - 1) + 1] == moved(before[j - 1], by));
                }
            }
        }
        if i == k {
            assert(place(before[k].id)->Some_0 <= place(before[from_j].id)->Some_0 || from_j == k);
        } else if j == k {
            assert(before[from_i].id != CODE_SECTION);
            assert(place(before[from_i].id)->Some_0 <= place(before[k].id)->Some_0);
        } else {
            assert(from_i < from_j);
        }
    }
}

/// A buffer too short to hold anything after a header has no sections, no
/// data segments and no place for a data-count section, and is left as it
/// is.
pub proof fn lemma_short_module(module: Seq<u8>)
    requires
        module.len() <= HEADER_LEN,
    ensures
        module_sections(module) == Seq::<SectionView>::empty(),
        data_segments(module) == 0,
        code_offset(module) is None,
        with_datacount(module) == module,
{
}

/// A module without data segments is left as it is.
pub proof fn lemma_no_segments_no_injection(module: Seq<u8>)
    requires
        data_segments(module) == 0,
    ensures
        with_datacount(module) == module,
{
}

/// Restoring the data-count section a second time changes nothing.
pub proof fn lemma_restoring_twice(module: Seq<u8>)
    ensures
        with_datacount(with_datacount(module)) == with_datacount(module),
{
    if needs_datacount(module) {
        lemma_datacount_restored(module);
        let after = module_sections(with_datacount(module));
        let k = first_section(
            module_sections(module),
            CODE_SECTION,
            module_sections(module).len() as int,
        )->Some_0;
        assert(after[k].id == DATA_COUNT_SECTION);
    }
}

} // verus!
