//! The section table of a binary module.
//!
//! A binary module is an eight-byte header followed by sections, each an id
//! byte, a LEB128 size and that many bytes of payload. The walk over them is
//! lenient: it never fails, and it ends at the first section that reaches or
//! passes the end of the buffer.

use vstd::prelude::*;
use vstd::slice::slice_subrange;
use crate::leb128::{
    leb128_len,
    leb128_value,
    lemma_reader_bounds,
    lemma_reader_local,
    read_leb128_u32,
};

verus! {

/// The length of the header: four bytes of magic, four of version.
pub const HEADER_LEN: usize = 8;

/// The id of a custom section.
pub const CUSTOM_SECTION: u8 = 0;

/// The id of the code section.
pub const CODE_SECTION: u8 = 10;

/// The id of the data section.
pub const DATA_SECTION: u8 = 11;

/// The id of the data-count section.
pub const DATA_COUNT_SECTION: u8 = 12;

/// Where one section lies in its module.
#[derive(Clone, Copy, Debug)]
pub struct Section {
    /// The section's id byte.
    pub id: u8,
    /// The index of the id byte.
    pub offset: usize,
    /// The index of the first payload byte, just after the size field.
    pub start: usize,
    /// The declared length of the payload.
    pub size: u32,
}

/// A section over mathematical integers.
pub struct SectionView {
    pub id: u8,
    pub offset: int,
    pub start: int,
    pub size: int,
}

impl SectionView {
    /// The index just after the declared payload. It may lie past the end of
    /// the module, where the size field promises more than there is.
    pub open spec fn end(self) -> int {
        self.start + self.size
    }
}

impl View for Section {
    type V = SectionView;

    open spec fn view(&self) -> SectionView {
        SectionView {
            id: self.id,
            offset: self.offset as int,
            start: self.start as int,
            size: self.size as int,
        }
    }
}

/// The views of a sequence of sections.
pub open spec fn section_views(sections: Seq<Section>) -> Seq<SectionView> {
    sections.map_values(|s: Section| s@)
}

/// Whether `module` begins with the four magic bytes of a binary module.
pub open spec fn has_magic(module: Seq<u8>) -> bool {
    &&& module.len() >= 4
    &&& module[0] == 0x00
    &&& module[1] == 0x61
    &&& module[2] == 0x73
    &&& module[3] == 0x6d
}

/// The section whose id byte is at `pos`.
pub open spec fn section_at(module: Seq<u8>, pos: int) -> SectionView
    recommends
        0 <= pos < module.len(),
{
    let size_field = module.subrange(pos + 1, module.len() as int);
    SectionView {
        id: module[pos],
        offset: pos,
        start: pos + 1 + leb128_len(size_field),
        size: leb128_value(size_field),
    }
}

/// The sections met on the walk that begins at `pos`: the one at `pos`, then
/// the one at its end, and so on while the position lies inside the module.
pub open spec fn sections_from(module: Seq<u8>, pos: int) -> Seq<SectionView>
    decreases module.len() - pos,
{
    if 0 <= pos < module.len() {
        let first = section_at(module, pos);
        if first.end() < module.len() {
            seq![first] + sections_from(module, first.end())
        } else {
            seq![first]
        }
    } else {
        Seq::empty()
    }
}

/// `section`, seen in a module in which it lies `by` bytes further on.
pub open spec fn moved(section: SectionView, by: int) -> SectionView {
    SectionView {
        id: section.id,
        offset: section.offset + by,
        start: section.start + by,
        size: section.size,
    }
}

/// Each of `sections` moved by `by` bytes.
pub open spec fn moved_all(sections: Seq<SectionView>, by: int) -> Seq<SectionView> {
    sections.map_values(|s: SectionView| moved(s, by))
}

/// Every section of a walk begins at or after the walk's start and inside
/// the module; its payload begins after its id byte and no later than the
/// module ends; and each section but the last ends, inside the module, where
/// the next begins.
pub proof fn lemma_walk_positions(module: Seq<u8>, pos: int)
    ensures
        forall|k: int|
            #![trigger sections_from(module, pos)[k]]
            0 <= k < sections_from(module, pos).len() ==> {
                let s = sections_from(module, pos)[k];
                &&& pos <= s.offset < module.len()
                &&& s.offset < s.start <= module.len()
                &&& 0 <= s.size
                &&& s == section_at(module, s.offset)
                &&& k + 1 < sections_from(module, pos).len() ==> s.end() == sections_from(
                    module,
                    pos,
                )[k + 1].offset
                &&& k + 1 == sections_from(module, pos).len() ==> s.end() >= module.len()
            },
        0 <= pos < module.len() ==> sections_from(module, pos).len() >= 1 && sections_from(
            module,
            pos,
        )[0].offset == pos,
    decreases module.len() - pos,
{
    if 0 <= pos < module.len() {
        let first = section_at(module, pos);
        lemma_reader_bounds(module.subrange(pos + 1, module.len() as int));
        let walk = sections_from(module, pos);
        assert(walk[0] == first);
        if first.end() < module.len() {
            lemma_walk_positions(module, first.end());
            let rest = sections_from(module, first.end());
            assert(walk =~= seq![first] + rest);
            assert forall|k: int| 0 < k < walk.len() implies #[trigger] walk[k] == rest[k - 1] by {}
            assert forall|k: int|
                #![trigger walk[k]]
                0 <= k < walk.len() implies {
                let s = walk[k];
                &&& pos <= s.offset < module.len()
                &&& s.offset < s.start <= module.len()
                &&& 0 <= s.size
                &&& s == section_at(module, s.offset)
                &&& k + 1 < walk.len() ==> s.end() == walk[k + 1].offset
                &&& k + 1 == walk.len() ==> s.end() >= module.len()
            } by {
                if k > 0 {
                    assert(walk[k] == rest[k - 1]);
                    if k + 1 < walk.len() {
                        assert(walk[k + 1] == rest[k]);
                    }
                } else {
                    assert(walk[1] == rest[0]);
                }
            }
        }
    }
}

/// The walk that begins at a section of a walk is the rest of that walk.
pub proof fn lemma_walk_suffix(module: Seq<u8>, pos: int, k: int)
    requires
        0 <= k < sections_from(module, pos).len(),
    ensures
        sections_from(module, sections_from(module, pos)[k].offset) == sections_from(
            module,
            pos,
        ).skip(k),
    decreases k,
{
    let walk = sections_from(module, pos);
    lemma_walk_positions(module, pos);
    if k == 0 {
        assert(walk.skip(0) =~= walk);
    } else {
        let first = section_at(module, pos);
        let rest = sections_from(module, first.end());
        assert(walk =~= seq![first] + rest);
        lemma_walk_suffix(module, first.end(), k - 1);
        assert(walk[k] == rest[k - 1]);
        assert(walk.skip(k) =~= rest.skip(k - 1));
    }
}

/// A walk sees only the bytes from its start on: where two modules hold the
/// same bytes from `pos_a` and from `pos_b` on, the two walks find the same
/// sections, moved by the distance between the two positions.
pub proof fn lemma_walk_moved(a: Seq<u8>, pos_a: int, b: Seq<u8>, pos_b: int)
    requires
        0 <= pos_a <= a.len(),
        0 <= pos_b <= b.len(),
        a.subrange(pos_a, a.len() as int) == b.subrange(pos_b, b.len() as int),
    ensures
        sections_from(a, pos_a) == moved_all(sections_from(b, pos_b), pos_a - pos_b),
    decreases b.len() - pos_b,
{
    let by = pos_a - pos_b;
    let tail_a = a.subrange(pos_a, a.len() as int);
    let tail_b = b.subrange(pos_b, b.len() as int);
    assert(tail_a.len() == tail_b.len());
    if pos_b < b.len() {
        assert(a[pos_a] == tail_a[0]);
        assert(b[pos_b] == tail_b[0]);
        assert(a.subrange(pos_a + 1, a.len() as int) =~= tail_a.subrange(1, tail_a.len() as int));
        assert(b.subrange(pos_b + 1, b.len() as int) =~= tail_b.subrange(1, tail_b.len() as int));
        let first_a = section_at(a, pos_a);
        let first_b = section_at(b, pos_b);
        assert(first_a == moved(first_b, by));
        lemma_reader_bounds(b.subrange(pos_b + 1, b.len() as int));
        if first_b.end() < b.len() {
            assert(a.subrange(first_a.end(), a.len() as int) =~= tail_a.subrange(
                first_b.end() - pos_b,
                tail_a.len() as int,
            ));
            assert(b.subrange(first_b.end(), b.len() as int) =~= tail_b.subrange(
                first_b.end() - pos_b,
                tail_b.len() as int,
            ));
            lemma_walk_moved(a, first_a.end(), b, first_b.end());
            assert(sections_from(a, pos_a) =~= moved_all(sections_from(b, pos_b), by));
        } else {
            assert(sections_from(a, pos_a) =~= moved_all(sections_from(b, pos_b), by));
        }
    } else {
        assert(sections_from(a, pos_a) =~= moved_all(sections_from(b, pos_b), by));
    }
}

/// A section header is read from its own bytes: where two modules hold the
/// same bytes up to `limit`, and the header at `pos` ends by there in the
/// one, it reads the same in the other.
pub proof fn lemma_section_prefix(a: Seq<u8>, b: Seq<u8>, pos: int, limit: int)
    requires
        0 <= pos < limit,
        limit <= a.len(),
        limit < b.len(),
        section_at(b, pos).start <= limit,
        a.subrange(0, limit) == b.subrange(0, limit),
    ensures
        section_at(a, pos) == section_at(b, pos),
{
    let field_a = a.subrange(pos + 1, a.len() as int);
    let field_b = b.subrange(pos + 1, b.len() as int);
    let head_a = a.subrange(0, limit);
    let head_b = b.subrange(0, limit);
    lemma_reader_bounds(field_b);
    assert(section_at(b, pos).start == pos + 1 + leb128_len(field_b));
    assert forall|i: int| 0 <= i < leb128_len(field_b) implies field_b[i] == field_a[i] by {
        assert(field_b[i] == b[pos + 1 + i]);
        assert(field_a[i] == a[pos + 1 + i]);
        assert(head_b[pos + 1 + i] == b[pos + 1 + i]);
        assert(head_a[pos + 1 + i] == a[pos + 1 + i]);
    }
    assert(leb128_len(field_b) < field_b.len());
    lemma_reader_local(field_b, field_a);
    assert(a[pos] == b[pos]) by {
        assert(head_b[pos] == b[pos]);
        assert(head_a[pos] == a[pos]);
    }
}

/// A walk up to one of its sections sees only the bytes before that section:
/// a module that holds the same bytes up to there has the same sections up
/// to there.
pub proof fn lemma_walk_prefix(a: Seq<u8>, b: Seq<u8>, pos: int, k: int)
    requires
        0 <= k < sections_from(b, pos).len(),
        sections_from(b, pos)[k].offset <= a.len(),
        a.subrange(0, sections_from(b, pos)[k].offset) == b.subrange(
            0,
            sections_from(b, pos)[k].offset,
        ),
    ensures
        sections_from(a, pos) == sections_from(b, pos).take(k) + sections_from(
            a,
            sections_from(b, pos)[k].offset,
        ),
    decreases k,
{
    let walk = sections_from(b, pos);
    let at = walk[k].offset;
    lemma_walk_positions(b, pos);
    if k == 0 {
        assert(walk.take(0) + sections_from(a, at) =~= sections_from(a, pos));
    } else {
        let first = section_at(b, pos);
        let rest = sections_from(b, first.end());
        assert(walk[0] == first);
        assert(first.end() == walk[1].offset);
        lemma_walk_suffix(b, pos, 1);
        assert(rest == walk.skip(1));
        assert(rest[k - 1] == walk[k]);
        assert(first.end() <= at) by {
            lemma_walk_positions(b, first.end());
        }
        lemma_section_prefix(a, b, pos, at);
        assert(section_at(a, pos) == first);
        assert(walk.take(k) =~= seq![first] + rest.take(k - 1));
        if first.end() < a.len() {
            lemma_walk_prefix(a, b, first.end(), k - 1);
            assert(sections_from(a, pos) == seq![first] + sections_from(a, first.end()));
            assert(seq![first] + (rest.take(k - 1) + sections_from(a, at)) =~= (seq![first]
                + rest.take(k - 1)) + sections_from(a, at));
        } else {
            assert(first.end() == at);
            assert(rest[0].offset == at) by {
                lemma_walk_positions(b, first.end());
            }
            assert(k == 1) by {
                lemma_walk_positions(b, first.end());
                if k > 1 {
                    assert(rest[0].offset < rest[0].start);
                    assert(rest[0].end() == rest[1].offset);
                    assert(rest[k - 1].offset >= rest[1].offset) by {
                        lemma_walk_suffix(b, first.end(), 1);
                        lemma_walk_positions(b, rest[1].offset);
                        assert(sections_from(b, rest[1].offset)[k - 2] == rest[k - 1]);
                    }
                }
            }
            assert(sections_from(a, at) =~= Seq::empty());
            assert(sections_from(a, pos) =~= seq![first]);
            assert(sections_from(a, pos) =~= walk.take(k) + sections_from(a, at));
        }
    }
}

/// Tells whether `module` begins with the magic bytes of a binary module.
pub fn starts_with_magic(module: &[u8]) -> (r: bool)
    ensures
        r == has_magic(module@),
{
    module.len() >= 4 && module[0] == 0x00 && module[1] == 0x61 && module[2] == 0x73 && module[3]
        == 0x6d
}

/// Walks the sections of `module` from the id byte at `from` on.
pub fn scan_sections(module: &[u8], from: usize) -> (out: Vec<Section>)
    ensures
        section_views(out@) == sections_from(module@, from as int),
{
    let mut out: Vec<Section> = Vec::new();
    let mut pos: usize = from;
    assert(section_views(out@) =~= Seq::empty());
    while pos < module.len()
        invariant
            sections_from(module@, from as int) == section_views(out@) + sections_from(
                module@,
                pos as int,
            ),
        decreases module.len() - pos,
    {
        let id: u8 = module[pos];
        let size_field = slice_subrange(module, pos + 1, module.len());
        let (size, taken) = read_leb128_u32(size_field);
        let start: usize = pos + 1 + taken;
        let section = Section { id, offset: pos, start, size };
        let ghost before = section_views(out@);
        out.push(section);
        proof {
            assert(section@ == section_at(module@, pos as int));
            assert(section_views(out@) =~= before.push(section@));
            assert(before + (seq![section@] + sections_from(module@, section@.end()))
                =~= section_views(out@) + sections_from(module@, section@.end()));
            assert(before + seq![section@] =~= section_views(out@) + Seq::<SectionView>::empty());
        }
        if size as usize >= module.len() - start {
            pos = module.len();
        } else {
            pos = start + size as usize;
        }
    }
    assert(section_views(out@) + Seq::<SectionView>::empty() =~= section_views(out@));
    out
}

} // verus!
