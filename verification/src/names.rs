//! Field names from the name section of a binary module.
//!
//! The name section is the custom section called `name`. Of its
//! subsections, the one with the id 12 is read here: a count of types, and
//! for each type its index, a count of fields, and for each field its index
//! and its name, as a length and that many bytes of UTF-8. All the integers
//! are LEB128. Like the walk over the sections, the reading is lenient: what
//! cannot be read ends it, and what was read until then stands.

use vstd::prelude::*;
use vstd::slice::slice_subrange;
use vstd::utf8::{decode_utf8, valid_utf8};
use crate::leb128::{leb128_len, leb128_value, lemma_reader_bounds, read_leb128_u32};
use crate::sections::{
    lemma_walk_positions,
    scan_sections,
    section_at,
    section_views,
    sections_from,
    SectionView,
    CUSTOM_SECTION,
    HEADER_LEN,
};

verus! {

/// The id of the subsection of the name section that holds field names.
pub const FIELD_NAMES_SUBSECTION: u8 = 12;

/// The field names recorded for one type.
#[derive(Debug, Clone, PartialEq, Eq)]
pub struct FieldNames {
    /// The index of the type.
    pub type_index: u32,
    /// The names of its fields, in the order in which they are listed.
    pub fields: Vec<String>,
}

/// The field names of one type, as mathematical values.
pub struct FieldNamesView {
    pub type_index: u32,
    pub fields: Seq<Seq<char>>,
}

/// The texts that `names` hold.
pub open spec fn name_texts(names: Seq<String>) -> Seq<Seq<char>> {
    names.map_values(|name: String| name@)
}

impl View for FieldNames {
    type V = FieldNamesView;

    open spec fn view(&self) -> FieldNamesView {
        FieldNamesView { type_index: self.type_index, fields: name_texts(self.fields@) }
    }
}

/// The views of a sequence of entries.
pub open spec fn entry_views(entries: Seq<FieldNames>) -> Seq<FieldNamesView> {
    entries.map_values(|entry: FieldNames| entry@)
}

/// What reading one list of fields gives: the names read, and the position
/// at which the reading ended.
pub struct FieldList {
    pub names: Seq<Seq<char>>,
    pub pos: int,
}

/// Reads up to `count` fields from `data` at `pos`, after `names`. Each
/// field is an index, which is passed over, the length of a name and the
/// name. The reading ends early at the end of the data, and just after a
/// length that promises more bytes than there are. A name that is not
/// UTF-8 is passed over.
pub open spec fn fields_from(data: Seq<u8>, pos: int, count: nat, names: Seq<Seq<char>>) -> FieldList
    decreases count,
{
    if count == 0 || pos < 0 || pos >= data.len() {
        FieldList { names, pos }
    } else {
        let index_field = data.subrange(pos, data.len() as int);
        let length_at = pos + leb128_len(index_field);
        let length_field = data.subrange(length_at, data.len() as int);
        let name_at = length_at + leb128_len(length_field);
        let name_end = name_at + leb128_value(length_field);
        if name_end > data.len() {
            FieldList { names, pos: name_at }
        } else {
            let bytes = data.subrange(name_at, name_end);
            fields_from(
                data,
                name_end,
                (count - 1) as nat,
                if valid_utf8(bytes) {
                    names.push(decode_utf8(bytes))
                } else {
                    names
                },
            )
        }
    }
}

/// The index among the first `n` of `entries` of the one for the type
/// `type_index`.
pub open spec fn entry_of(entries: Seq<FieldNamesView>, type_index: u32, n: int) -> Option<int>
    decreases n,
{
    if n <= 0 {
        None
    } else if entries[n - 1].type_index == type_index {
        Some(n - 1)
    } else {
        entry_of(entries, type_index, n - 1)
    }
}

/// `entries` with `fields` recorded for the type `type_index`: in place of
/// what was recorded for that type before, or else as a new last entry.
pub open spec fn recorded(
    entries: Seq<FieldNamesView>,
    type_index: u32,
    fields: Seq<Seq<char>>,
) -> Seq<FieldNamesView> {
    match entry_of(entries, type_index, entries.len() as int) {
        Some(i) => entries.update(i, FieldNamesView { type_index, fields }),
        None => entries.push(FieldNamesView { type_index, fields }),
    }
}

/// Reads up to `count` types from `data` at `pos`, after `entries`. Each
/// type is its index, a count of fields and the fields. The reading ends
/// early at the end of the data.
pub open spec fn types_from(
    data: Seq<u8>,
    pos: int,
    count: nat,
    entries: Seq<FieldNamesView>,
) -> Seq<FieldNamesView>
    decreases count,
{
    if count == 0 || pos < 0 || pos >= data.len() {
        entries
    } else {
        let index_field = data.subrange(pos, data.len() as int);
        let count_at = pos + leb128_len(index_field);
        let count_field = data.subrange(count_at, data.len() as int);
        let fields_at = count_at + leb128_len(count_field);
        let list = fields_from(data, fields_at, leb128_value(count_field) as nat, Seq::empty());
        types_from(
            data,
            list.pos,
            (count - 1) as nat,
            recorded(entries, leb128_value(index_field) as u32, list.names),
        )
    }
}

/// The field names that the payload `data` of a field-names subsection
/// holds: one entry for each type listed, in the order in which the types
/// first appear.
pub open spec fn field_names_of(data: Seq<u8>) -> Seq<FieldNamesView> {
    types_from(data, leb128_len(data), leb128_value(data) as nat, Seq::empty())
}

/// Decodes `bytes` as UTF-8, as `core::str::from_utf8` does: there is a
/// result exactly where the bytes are valid UTF-8, and it is the text that
/// they encode.
#[verifier::external_body]
fn decode_name(bytes: &[u8]) -> (name: Option<String>)
    ensures
        name is Some == valid_utf8(bytes@),
        name is Some ==> name->Some_0@ == decode_utf8(bytes@),
{
    match core::str::from_utf8(bytes) {
        Ok(text) => Some(text.to_string()),
        Err(_) => None,
    }
}

fn read_fields(data: &[u8], from: usize, count: u32) -> (r: (Vec<String>, usize))
    requires
        from <= data@.len(),
    ensures
        name_texts(r.0@) == fields_from(data@, from as int, count as nat, Seq::empty()).names,
        r.1 as int == fields_from(data@, from as int, count as nat, Seq::empty()).pos,
        from <= r.1 <= data@.len(),
{
    let mut names: Vec<String> = Vec::new();
    let mut pos: usize = from;
    let mut left: u32 = count;
    assert(name_texts(names@) =~= Seq::empty());
    while left > 0 && pos < data.len()
        invariant
            from <= pos <= data@.len(),
            fields_from(data@, from as int, count as nat, Seq::empty()) == fields_from(
                data@,
                pos as int,
                left as nat,
                name_texts(names@),
            ),
        decreases left,
    {
        let (_, index_len) = read_leb128_u32(slice_subrange(data, pos, data.len()));
        let length_at: usize = pos + index_len;
        let (name_len, length_len) = read_leb128_u32(slice_subrange(data, length_at, data.len()));
        let name_at: usize = length_at + length_len;
        if name_len as usize > data.len() - name_at {
            return (names, name_at);
        }
        let name_end: usize = name_at + name_len as usize;
        let ghost before = name_texts(names@);
        match decode_name(slice_subrange(data, name_at, name_end)) {
            Some(name) => {
                names.push(name);
                assert(name_texts(names@) =~= before.push(name@));
            },
            None => {},
        }
        pos = name_end;
        left -= 1;
    }
    (names, pos)
}

fn record(entries: &mut Vec<FieldNames>, type_index: u32, fields: Vec<String>)
    ensures
        entry_views(final(entries)@) == recorded(
            entry_views(old(entries)@),
            type_index,
            name_texts(fields@),
        ),
{
    let ghost before = entry_views(entries@);
    let mut i: usize = entries.len();
    while i > 0
        invariant
            i <= entries.len(),
            before == entry_views(entries@),
            before == entry_views(old(entries)@),
            entry_of(before, type_index, before.len() as int) == entry_of(
                before,
                type_index,
                i as int,
            ),
        decreases i,
    {
        assert(before[i - 1] == entries@[i - 1]@);
        if entries[i - 1].type_index == type_index {
            assert(entry_of(before, type_index, i as int) == Some(i - 1));
            entries.remove(i - 1);
            entries.insert(i - 1, FieldNames { type_index, fields });
            assert(entry_views(entries@) =~= before.update(
                i - 1,
                FieldNamesView { type_index, fields: name_texts(fields@) },
            ));
            return ;
        }
        i -= 1;
    }
    entries.push(FieldNames { type_index, fields });
    assert(entry_views(entries@) =~= before.push(
        FieldNamesView { type_index, fields: name_texts(fields@) },
    ));
}

/// Reads the payload of a field-names subsection: see [`field_names_of`].
pub fn parse_field_names_subsection(data: &[u8]) -> (entries: Vec<FieldNames>)
    ensures
        entry_views(entries@) == field_names_of(data@),
{
    let mut entries: Vec<FieldNames> = Vec::new();
    let (type_count, count_len) = read_leb128_u32(data);
    let mut pos: usize = count_len;
    let mut left: u32 = type_count;
    assert(entry_views(entries@) =~= Seq::empty());
    while left > 0 && pos < data.len()
        invariant
            pos <= data@.len(),
            field_names_of(data@) == types_from(
                data@,
                pos as int,
                left as nat,
                entry_views(entries@),
            ),
        decreases left,
    {
        let (type_index, index_len) = read_leb128_u32(slice_subrange(data, pos, data.len()));
        let count_at: usize = pos + index_len;
        let (field_count, field_count_len) = read_leb128_u32(
            slice_subrange(data, count_at, data.len()),
        );
        let fields_at: usize = count_at + field_count_len;
        let (fields, end) = read_fields(data, fields_at, field_count);
        record(&mut entries, type_index, fields);
        pos = end;
        left -= 1;
    }
    entries
}

/// The name of the name section, in bytes: `name`.
pub open spec fn name_section_name() -> Seq<u8> {
    seq![0x6e, 0x61, 0x6d, 0x65]
}

/// The field names found in the subsections between `pos` and `end`, after
/// `found`. A subsection is laid out as a section is. Each field-names
/// subsection replaces what was found before. The walk ends where fewer
/// than two bytes are left before `end`, and it ends in front of a
/// field-names subsection that runs past the end of the module.
pub open spec fn subsections_from(
    module: Seq<u8>,
    pos: int,
    end: int,
    found: Seq<FieldNamesView>,
) -> Seq<FieldNamesView>
    decreases end - pos,
    via subsections_from_decreases
{
    if pos < 0 || pos + 1 >= end || pos >= module.len() {
        found
    } else {
        let sub = section_at(module, pos);
        if sub.id == FIELD_NAMES_SUBSECTION && sub.end() > module.len() {
            found
        } else {
            let next = if sub.id == FIELD_NAMES_SUBSECTION {
                field_names_of(module.subrange(sub.start, sub.end()))
            } else {
                found
            };
            if sub.end() < end {
                subsections_from(module, sub.end(), end, next)
            } else {
                next
            }
        }
    }
}

#[via_fn]
proof fn subsections_from_decreases(
    module: Seq<u8>,
    pos: int,
    end: int,
    found: Seq<FieldNamesView>,
) {
    if 0 <= pos < module.len() {
        lemma_reader_bounds(module.subrange(pos + 1, module.len() as int));
    }
}

/// The field names of the name section, looked for among `sections` from
/// index `from` on. The first custom section decides, unless it has another
/// name: one that runs past the end of the module, or whose name does, ends
/// the search without a result.
pub open spec fn named_fields(module: Seq<u8>, sections: Seq<SectionView>, from: int) -> Seq<
    FieldNamesView,
>
    decreases sections.len() - from,
{
    if from < 0 || from >= sections.len() {
        Seq::empty()
    } else {
        let section = sections[from];
        if section.id != CUSTOM_SECTION {
            named_fields(module, sections, from + 1)
        } else if section.end() > module.len() {
            Seq::empty()
        } else {
            let name_field = module.subrange(section.start, module.len() as int);
            let name_at = section.start + leb128_len(name_field);
            let name_end = name_at + leb128_value(name_field);
            if name_end > module.len() {
                Seq::empty()
            } else if module.subrange(name_at, name_end) == name_section_name() {
                subsections_from(module, name_end, section.end(), Seq::empty())
            } else {
                named_fields(module, sections, from + 1)
            }
        }
    }
}

/// The field names that the name section of `module` records, one entry
/// for each type. A module shorter than a header has none.
pub open spec fn name_section_fields(module: Seq<u8>) -> Seq<FieldNamesView> {
    if module.len() < HEADER_LEN {
        Seq::empty()
    } else {
        named_fields(module, sections_from(module, HEADER_LEN as int), 0)
    }
}

/// The field names of the first type that the name section of `module`
/// records, if it records any.
pub open spec fn binary_field_names(module: Seq<u8>) -> Option<Seq<Seq<char>>> {
    if name_section_fields(module).len() == 0 {
        None
    } else {
        Some(name_section_fields(module)[0].fields)
    }
}

/// A module without sections records no field names; so does any buffer
/// too short to hold anything after a header.
pub proof fn lemma_no_sections_no_names(module: Seq<u8>)
    requires
        module.len() <= HEADER_LEN,
    ensures
        name_section_fields(module) == Seq::<FieldNamesView>::empty(),
        binary_field_names(module) is None,
{
}

fn is_name_section_name(bytes: &[u8]) -> (r: bool)
    ensures
        r == (bytes@ == name_section_name()),
{
    if bytes.len() == 4 && bytes[0] == 0x6e && bytes[1] == 0x61 && bytes[2] == 0x6d && bytes[3]
        == 0x65 {
        assert(bytes@ =~= name_section_name());
        true
    } else {
        false
    }
}

fn read_subsections(module: &[u8], from: usize, end: usize) -> (found: Vec<FieldNames>)
    requires
        from <= module@.len(),
        end <= module@.len(),
    ensures
        entry_views(found@) == subsections_from(module@, from as int, end as int, Seq::empty()),
{
    let mut found: Vec<FieldNames> = Vec::new();
    let mut pos: usize = from;
    assert(entry_views(found@) =~= Seq::empty());
    while pos < end && end - pos > 1
        invariant
            pos <= module@.len(),
            end <= module@.len(),
            subsections_from(module@, from as int, end as int, Seq::empty()) == subsections_from(
                module@,
                pos as int,
                end as int,
                entry_views(found@),
            ),
        decreases end - pos,
    {
        let id: u8 = module[pos];
        let (size, taken) = read_leb128_u32(slice_subrange(module, pos + 1, module.len()));
        let start: usize = pos + 1 + taken;
        let ghost sub = section_at(module@, pos as int);
        assert(sub.start == start && sub.size == size && sub.id == id);
        let past_module: bool = size as usize > module.len() - start;
        if id == FIELD_NAMES_SUBSECTION {
            if past_module {
                return found;
            }
            found = parse_field_names_subsection(
                slice_subrange(module, start, start + size as usize),
            );
        }
        if past_module || start + size as usize >= end {
            return found;
        }
        pos = start + size as usize;
    }
    found
}

/// Reads the field names of the first type that the name section of
/// `wasm_binary` records. There is no result where the module has no name
/// section, or the name section records no field names.
pub fn parse_name_section(wasm_binary: &[u8]) -> (fields: Option<Vec<String>>)
    ensures
        fields is Some == binary_field_names(wasm_binary@) is Some,
        fields is Some ==> name_texts(fields->Some_0@) == binary_field_names(
            wasm_binary@,
        )->Some_0,
{
    if wasm_binary.len() < HEADER_LEN {
        return None;
    }
    let sections = scan_sections(wasm_binary, HEADER_LEN);
    let ghost views = section_views(sections@);
    proof {
        lemma_walk_positions(wasm_binary@, HEADER_LEN as int);
    }
    let mut found: Vec<FieldNames> = Vec::new();
    assert(entry_views(found@) =~= Seq::empty());
    let mut i: usize = 0;
    while i < sections.len()
        invariant_except_break
            name_section_fields(wasm_binary@) == named_fields(wasm_binary@, views, i as int),
            found@.len() == 0,
        invariant
            i <= sections.len(),
            views == section_views(sections@),
            views == sections_from(wasm_binary@, HEADER_LEN as int),
            wasm_binary@.len() >= HEADER_LEN,
            forall|k: int|
                0 <= k < views.len() ==> 0 <= (#[trigger] views[k]).start <= wasm_binary@.len(),
        ensures
            entry_views(found@) == name_section_fields(wasm_binary@),
        decreases sections.len() - i,
    {
        let section = sections[i];
        assert(section@ == views[i as int]);
        if section.id == CUSTOM_SECTION {
            if section.size as usize > wasm_binary.len() - section.start {
                break ;
            }
            let end: usize = section.start + section.size as usize;
            let (name_len, taken) = read_leb128_u32(
                slice_subrange(wasm_binary, section.start, wasm_binary.len()),
            );
            let name_at: usize = section.start + taken;
            if name_len as usize > wasm_binary.len() - name_at {
                break ;
            }
            let name_end: usize = name_at + name_len as usize;
            if is_name_section_name(slice_subrange(wasm_binary, name_at, name_end)) {
                found = read_subsections(wasm_binary, name_end, end);
                break ;
            }
        }
        i += 1;
    }
    if found.len() == 0 {
        None
    } else {
        let first = found.swap_remove(0);
        Some(first.fields)
    }
}

} // verus!
