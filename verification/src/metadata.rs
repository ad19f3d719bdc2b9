//! The names of the first struct type of a module and of its fields.
//!
//! The names come from the binary module's name section where it has them,
//! and otherwise from the module text, which is searched line by line for
//! the first declaration of a struct type and for the fields declared under
//! it. The script that loads the module finds them under the key `default`.

use vstd::prelude::*;
use vstd::slice::slice_subrange;
use crate::names::{binary_field_names, name_texts, parse_name_section};
use crate::text::{
    chars_of,
    contains,
    copy_range,
    count_of,
    find,
    find_from,
    find_name_end,
    find_space,
    first_match,
    first_match_from,
    first_name_end,
    first_space,
    has_at_least,
    lemma_first_match_from,
    lemma_first_stop,
    lines_of,
    occurs_in,
    split_lines,
    string_of,
    texts,
    trim,
    trimmed,
};

verus! {

/// How the declaration of a type begins.
pub const TYPE_OPEN: &'static str = "(type";

/// How the body of a struct type begins.
pub const STRUCT_OPEN: &'static str = "(struct";

/// How the declaration of a field begins.
pub const FIELD_OPEN: &'static str = "(field";

/// The sign in front of a name.
pub const NAME_SIGN: &'static str = "$";

/// The closing parenthesis.
pub const CLOSING: &'static str = ")";

/// The name of a struct type whose own name is not known.
pub const DEFAULT_TYPE_NAME: &'static str = "WasmGcStruct";

/// The metadata where no field names are known.
pub const NO_METADATA: &'static str = "{}";

/// The names of a struct type and of its fields.
#[derive(Debug, Clone, PartialEq, Eq)]
pub struct TypeInfo {
    /// The name of the type, without the sign in front.
    pub name: String,
    /// The names of the fields, in the order of their declaration, which is
    /// the order of the fields in the binary module.
    pub fields: Vec<String>,
}

/// The names of a struct type and of its fields, as texts.
pub struct TypeInfoView {
    pub name: Seq<char>,
    pub fields: Seq<Seq<char>>,
}

impl View for TypeInfo {
    type V = TypeInfoView;

    open spec fn view(&self) -> TypeInfoView {
        TypeInfoView { name: self.name@, fields: name_texts(self.fields@) }
    }
}

/// The view of what may be a `TypeInfo`.
pub open spec fn info_view(info: Option<TypeInfo>) -> Option<TypeInfoView> {
    match info {
        Some(info) => Some(info@),
        None => None,
    }
}

/// Whether the trimmed line `line` declares a struct type.
pub open spec fn declares_struct(line: Seq<char>) -> bool {
    occurs_in(TYPE_OPEN@, line) && occurs_in(STRUCT_OPEN@, line)
}

/// Where the first name of `line` lies: from its sign to the first white
/// space after the sign. A name that nothing follows on its line does not
/// count.
pub open spec fn name_span(line: Seq<char>) -> Option<(int, int)> {
    match first_match(line, NAME_SIGN@) {
        None => None,
        Some(sign) => match first_space(line, sign) {
            None => None,
            Some(end) => Some((sign, end)),
        },
    }
}

/// The name of the struct type that the trimmed line `line` declares, with
/// its sign.
pub open spec fn declared_type(line: Seq<char>) -> Option<Seq<char>> {
    if declares_struct(line) && name_span(line) is Some {
        Some(line.subrange(name_span(line)->Some_0.0, name_span(line)->Some_0.1))
    } else {
        None
    }
}

/// The name of the first struct type that the lines from `from` on declare,
/// without its sign; `WasmGcStruct` where they declare none.
pub open spec fn first_type_name_from(lines: Seq<Seq<char>>, from: int) -> Seq<char>
    decreases lines.len() - from,
{
    if from < 0 || from >= lines.len() {
        DEFAULT_TYPE_NAME@
    } else {
        match declared_type(trimmed(lines[from])) {
            Some(name) => name.subrange(1, name.len() as int),
            None => first_type_name_from(lines, from + 1),
        }
    }
}

/// The name of the first struct type that `source` declares.
pub open spec fn first_type_name(source: Seq<char>) -> Seq<char> {
    first_type_name_from(lines_of(source), 0)
}

/// The name of the field whose declaration begins at index `at` of
/// `line`: what stands between the first sign after its `(field` and the
/// next white space or closing parenthesis.
pub open spec fn field_name_at(line: Seq<char>, at: int) -> Option<Seq<char>> {
    match first_match_from(line, NAME_SIGN@, at + FIELD_OPEN@.len()) {
        None => None,
        Some(sign) => match first_name_end(line, sign + 1) {
            None => None,
            Some(end) => Some(line.subrange(sign + 1, end)),
        },
    }
}

/// The names of the fields that `line` declares from index `pos` on, in
/// their order: one for each `(field` that a name follows, the search for
/// the next `(field` beginning just after the last.
pub open spec fn declared_fields_from(line: Seq<char>, pos: int) -> Seq<Seq<char>>
    decreases line.len() - pos,
    via declared_fields_from_decreases
{
    if pos < 0 {
        Seq::empty()
    } else {
        match first_match_from(line, FIELD_OPEN@, pos) {
            None => Seq::empty(),
            Some(at) => (match field_name_at(line, at) {
                Some(name) => seq![name],
                None => Seq::empty(),
            }) + declared_fields_from(line, at + FIELD_OPEN@.len()),
        }
    }
}

#[via_fn]
proof fn declared_fields_from_decreases(line: Seq<char>, pos: int) {
    if 0 <= pos {
        reveal_strlit("(field");
        lemma_first_match_from(line, FIELD_OPEN@, pos);
    }
}

/// The names of all the fields that the trimmed line `line` declares, in
/// their order.
pub open spec fn declared_fields(line: Seq<char>) -> Seq<Seq<char>> {
    declared_fields_from(line, 0)
}

/// Whether the trimmed line `line` ends the declaration of a type: it
/// declares no field and holds two closing parentheses or more.
pub open spec fn closes_type(line: Seq<char>) -> bool {
    !occurs_in(FIELD_OPEN@, line) && count_of(line, ')', line.len() as int) >= 2
}

/// How far the search for field names has come.
pub struct Search {
    /// The type, named with its sign, under whose declaration the search
    /// stands.
    pub current: Option<Seq<char>>,
    /// The first type found to have a field, named with its sign, and
    /// the fields found for it.
    pub found: Option<(Seq<char>, Seq<Seq<char>>)>,
}

/// `found` with the fields `fields` of the type `owner` added: the first
/// fields open the record, later fields join it where they belong to the
/// same type, and fields of other types are left out.
pub open spec fn with_fields(
    found: Option<(Seq<char>, Seq<Seq<char>>)>,
    owner: Seq<char>,
    fields: Seq<Seq<char>>,
) -> Option<(Seq<char>, Seq<Seq<char>>)> {
    if fields.len() == 0 {
        found
    } else {
        match found {
            None => Some((owner, fields)),
            Some((first, known)) => if first == owner {
                Some((first, known + fields))
            } else {
                found
            },
        }
    }
}

/// The search after one more line. A line that declares a struct type
/// makes that type the current one; every field declared on a line while a
/// type is current is a field of that type; and a line that ends the
/// declaration leaves no type current.
pub open spec fn search_step(before: Search, line: Seq<char>) -> Search {
    let inner = trimmed(line);
    let current = match declared_type(inner) {
        Some(name) => Some(name),
        None => before.current,
    };
    let found = if current is Some {
        with_fields(before.found, current->Some_0, declared_fields(inner))
    } else {
        before.found
    };
    Search {
        current: if closes_type(inner) {
            None
        } else {
            current
        },
        found,
    }
}

/// The search after the first `n` of `lines`.
pub open spec fn search(lines: Seq<Seq<char>>, n: int) -> Search
    decreases n,
{
    if n <= 0 {
        Search { current: None, found: None }
    } else {
        search_step(search(lines, n - 1), lines[n - 1])
    }
}

/// The names that `source` declares for its first struct type with a field:
/// the type's name without its sign, and all its fields in the order of
/// their declaration.
pub open spec fn source_type_info(source: Seq<char>) -> Option<TypeInfoView> {
    match search(lines_of(source), lines_of(source).len() as int).found {
        None => None,
        Some((name, fields)) => Some(
            TypeInfoView {
                name: if name.len() > 0 && name[0] == '$' {
                    name.subrange(1, name.len() as int)
                } else {
                    name
                },
                fields,
            },
        ),
    }
}

fn line_declares_struct(line: &[char]) -> (r: bool)
    ensures
        r == declares_struct(line@),
{
    contains(line, chars_of(TYPE_OPEN).as_slice()) && contains(
        line,
        chars_of(STRUCT_OPEN).as_slice(),
    )
}

fn find_declared_type(line: &[char]) -> (span: Option<(usize, usize)>)
    ensures
        span is Some == declared_type(line@) is Some,
        span is Some ==> span->Some_0.0 < span->Some_0.1 < line@.len(),
        span is Some ==> declared_type(line@)->Some_0 == line@.subrange(
            span->Some_0.0 as int,
            span->Some_0.1 as int,
        ),
{
    if !line_declares_struct(line) {
        return None;
    }
    match find(line, chars_of(NAME_SIGN).as_slice()) {
        None => None,
        Some(sign) => {
            proof {
                reveal_strlit("$");
                lemma_first_match_from(line@, NAME_SIGN@, 0);
                assert(NAME_SIGN@.len() == 1 && NAME_SIGN@[0] == '$');
                assert(line@.subrange(sign as int, sign + 1)[0] == '$');
                assert(line@[sign as int] == '$');
                assert(!crate::text::is_whitespace('$'));
                assert(first_space(line@, sign as int) == first_space(line@, sign + 1));
                lemma_first_stop(line@, sign + 1);
            }
            match find_space(line, sign) {
                None => None,
                Some(end) => Some((sign, end)),
            }
        },
    }
}

/// Finds the name of the first struct type that `source` declares: see
/// [`first_type_name`].
pub fn extract_first_type_name(source: &str) -> (name: String)
    ensures
        name@ == first_type_name(source@),
{
    let chars = chars_of(source);
    let lines = split_lines(chars.as_slice());
    let mut i: usize = 0;
    while i < lines.len()
        invariant
            i <= lines.len(),
            texts(lines@) == lines_of(source@),
            first_type_name(source@) == first_type_name_from(lines_of(source@), i as int),
        decreases lines.len() - i,
    {
        assert(texts(lines@)[i as int] == lines@[i as int]@);
        let inner = trim(lines[i].as_slice());
        match find_declared_type(inner) {
            Some((sign, end)) => {
                let name = slice_subrange(inner, sign + 1, end);
                assert(name@ =~= inner@.subrange(sign as int, end as int).subrange(
                    1,
                    end - sign,
                ));
                return string_of(name);
            },
            None => {},
        }
        i += 1;
    }
    let mut name = String::new();
    name.append(DEFAULT_TYPE_NAME);
    assert(Seq::<char>::empty() + DEFAULT_TYPE_NAME@ =~= DEFAULT_TYPE_NAME@);
    name
}

fn find_field_name(line: &[char], at: usize) -> (name: Option<Vec<char>>)
    requires
        at + FIELD_OPEN@.len() <= line@.len(),
    ensures
        name is Some == field_name_at(line@, at as int) is Some,
        name is Some ==> name->Some_0@ == field_name_at(line@, at as int)->Some_0,
{
    let opener = chars_of(FIELD_OPEN);
    let len: usize = line.len();
    match find_from(line, chars_of(NAME_SIGN).as_slice(), at + opener.len()) {
        None => None,
        Some(sign) => {
            proof {
                reveal_strlit("$");
                lemma_first_match_from(line@, NAME_SIGN@, at + FIELD_OPEN@.len());
                assert(crate::text::matches_at(line@, NAME_SIGN@, sign as int));
                lemma_first_stop(line@, sign + 1);
            }
            match find_name_end(line, sign + 1) {
                None => None,
                Some(end) => Some(copy_range(line, sign + 1, end)),
            }
        },
    }
}

fn find_declared_fields(line: &[char]) -> (fields: Vec<Vec<char>>)
    ensures
        texts(fields@) == declared_fields(line@),
{
    let opener = chars_of(FIELD_OPEN);
    let mut fields: Vec<Vec<char>> = Vec::new();
    let mut pos: usize = 0;
    assert(texts(fields@) =~= Seq::empty());
    loop
        invariant_except_break
            pos <= line@.len(),
            opener@ == FIELD_OPEN@,
            declared_fields(line@) == texts(fields@) + declared_fields_from(line@, pos as int),
        ensures
            texts(fields@) == declared_fields(line@),
        decreases line@.len() - pos,
    {
        proof {
            reveal_strlit("(field");
            lemma_first_match_from(line@, FIELD_OPEN@, pos as int);
        }
        match find_from(line, opener.as_slice(), pos) {
            None => {
                assert(texts(fields@) + Seq::<Seq<char>>::empty() =~= texts(fields@));
                break ;
            },
            Some(at) => {
                assert(crate::text::matches_at(line@, FIELD_OPEN@, at as int));
                let len: usize = line.len();
                let ghost before = texts(fields@);
                match find_field_name(line, at) {
                    Some(name) => {
                        fields.push(name);
                        assert(texts(fields@) =~= before + seq![name@]);
                        assert(before + (seq![name@] + declared_fields_from(
                            line@,
                            at + FIELD_OPEN@.len(),
                        )) =~= texts(fields@) + declared_fields_from(
                            line@,
                            at + FIELD_OPEN@.len(),
                        ));
                    },
                    None => {
                        assert(before + (Seq::<Seq<char>>::empty() + declared_fields_from(
                            line@,
                            at + FIELD_OPEN@.len(),
                        )) =~= texts(fields@) + declared_fields_from(
                            line@,
                            at + FIELD_OPEN@.len(),
                        ));
                    },
                }
                pos = at + opener.len();
            },
        }
    }
    fields
}

fn line_closes_type(line: &[char]) -> (r: bool)
    ensures
        r == closes_type(line@),
{
    !contains(line, chars_of(FIELD_OPEN).as_slice()) && has_at_least(line, ')', 2)
}

fn same_text(a: &[char], b: &[char]) -> (r: bool)
    ensures
        r == (a@ == b@),
{
    if a.len() != b.len() {
        return false;
    }
    let mut i: usize = 0;
    while i < a.len()
        invariant
            i <= a.len(),
            a@.len() == b@.len(),
            forall|k: int| 0 <= k < i ==> a@[k] == b@[k],
        decreases a.len() - i,
    {
        if a[i] != b[i] {
            return false;
        }
        i += 1;
    }
    assert(a@ =~= b@);
    true
}

fn strings_of(texts_in: &Vec<Vec<char>>) -> (out: Vec<String>)
    ensures
        name_texts(out@) == texts(texts_in@),
{
    let mut out: Vec<String> = Vec::new();
    let mut i: usize = 0;
    assert(name_texts(out@) =~= texts(texts_in@).take(0));
    while i < texts_in.len()
        invariant
            i <= texts_in.len(),
            name_texts(out@) == texts(texts_in@).take(i as int),
        decreases texts_in.len() - i,
    {
        let one = string_of(texts_in[i].as_slice());
        let ghost before = name_texts(out@);
        out.push(one);
        assert(name_texts(out@) =~= before.push(one@));
        assert(texts(texts_in@).take(i + 1) =~= texts(texts_in@).take(i as int).push(
            texts_in@[i as int]@,
        ));
        i += 1;
    }
    assert(texts(texts_in@).take(i as int) =~= texts(texts_in@));
    out
}

/// Searches `source` for the names of its first struct type with a field:
/// see [`source_type_info`]. There is no result where the source declares
/// no field under a struct type.
pub fn parse_wat_field_names(source: &str) -> (info: Option<TypeInfo>)
    ensures
        info_view(info) == source_type_info(source@),
{
    let chars = chars_of(source);
    let lines = split_lines(chars.as_slice());
    let mut current: Option<Vec<char>> = None;
    let mut owner: Option<Vec<char>> = None;
    let mut fields: Vec<Vec<char>> = Vec::new();
    let mut i: usize = 0;
    assert(texts(fields@) =~= Seq::empty());
    while i < lines.len()
        invariant
            i <= lines.len(),
            texts(lines@) == lines_of(source@),
            current is Some == search(lines_of(source@), i as int).current is Some,
            current is Some ==> current->Some_0@ == search(
                lines_of(source@),
                i as int,
            ).current->Some_0,
            owner is Some == search(lines_of(source@), i as int).found is Some,
            owner is Some ==> search(lines_of(source@), i as int).found->Some_0 == (
                owner->Some_0@,
                texts(fields@),
            ),
            owner is None ==> fields@.len() == 0,
        decreases lines.len() - i,
    {
        assert(texts(lines@)[i as int] == lines@[i as int]@);
        let inner = trim(lines[i].as_slice());
        match find_declared_type(inner) {
            Some((sign, end)) => {
                current = Some(copy_range(inner, sign, end));
            },
            None => {},
        }
        match &current {
            Some(name) => {
                let mut here = find_declared_fields(inner);
                if here.len() > 0 {
                    let ghost before = texts(fields@);
                    let ghost added = texts(here@);
                    match &owner {
                        None => {
                            owner = Some(copy_range(name.as_slice(), 0, name.len()));
                            fields.append(&mut here);
                            assert(texts(fields@) =~= added);
                        },
                        Some(first) => {
                            if same_text(first.as_slice(), name.as_slice()) {
                                fields.append(&mut here);
                                assert(texts(fields@) =~= before + added);
                            }
                        },
                    }
                }
            },
            None => {},
        }
        if line_closes_type(inner) {
            current = None;
        }
        i += 1;
    }
    match owner {
        None => None,
        Some(name) => {
            let name = if name.len() > 0 && name[0] == '$' {
                string_of(slice_subrange(name.as_slice(), 1, name.len()))
            } else {
                string_of(name.as_slice())
            };
            Some(TypeInfo { name, fields: strings_of(&fields) })
        },
    }
}

/// The first `n` of `fields`, each between quotation marks, with commas
/// between them.
pub open spec fn quoted_list(fields: Seq<Seq<char>>, n: int) -> Seq<char>
    decreases n,
{
    if n <= 0 {
        Seq::empty()
    } else if n == 1 {
        "\""@ + fields[0] + "\""@
    } else {
        quoted_list(fields, n - 1) + ","@ + "\""@ + fields[n - 1] + "\""@
    }
}

/// The metadata as the loading script holds it: an object with the one
/// key `default`, under it the type's name as `typeName` and the field
/// names as `fields`; the empty object where nothing is known.
pub open spec fn metadata_json(info: Option<TypeInfoView>) -> Seq<char> {
    match info {
        None => NO_METADATA@,
        Some(info) => "{\"default\":{\"typeName\":\""@ + info.name + "\",\"fields\":["@
            + quoted_list(info.fields, info.fields.len() as int) + "]}}"@,
    }
}

/// Writes the metadata for the loading script: see [`metadata_json`].
pub fn field_names_json(info: &Option<TypeInfo>) -> (out: String)
    ensures
        out@ == metadata_json(info_view(*info)),
{
    let mut out = String::new();
    match info {
        None => {
            out.append(NO_METADATA);
            assert(out@ =~= NO_METADATA@);
        },
        Some(info) => {
            out.append("{\"default\":{\"typeName\":\"");
            out.append(info.name.as_str());
            out.append("\",\"fields\":[");
            let ghost head = out@;
            let ghost fields = name_texts(info.fields@);
            let mut i: usize = 0;
            assert(out@ =~= head + quoted_list(fields, 0));
            while i < info.fields.len()
                invariant
                    i <= info.fields.len(),
                    fields == name_texts(info.fields@),
                    out@ == head + quoted_list(fields, i as int),
                decreases info.fields.len() - i,
            {
                assert(fields[i as int] == info.fields@[i as int]@);
                let ghost before = out@;
                if i > 0 {
                    out.append(",");
                }
                out.append("\"");
                out.append(info.fields[i].as_str());
                out.append("\"");
                proof {
                    if i == 0 {
                        assert(out@ =~= head + ("\""@ + fields[0] + "\""@));
                    } else {
                        assert(out@ =~= head + (quoted_list(fields, i as int) + ","@ + "\""@
                            + fields[i as int] + "\""@));
                    }
                }
                i += 1;
            }
            out.append("]}}");
            assert(out@ =~= metadata_json(info_view(Some(*info))));
        },
    }
    out
}

/// The names of the first struct type of a module, from its binary form
/// `binary` and its text `source`. Where the name section of the binary
/// records field names, they are taken, and the type's name is taken from
/// the first struct type that the text declares, as the name section is not
/// read for it. Where it records none, all comes from the text.
pub open spec fn module_type_info(binary: Seq<u8>, source: Seq<char>) -> Option<TypeInfoView> {
    match binary_field_names(binary) {
        Some(fields) => Some(TypeInfoView { name: first_type_name(source), fields }),
        None => source_type_info(source),
    }
}

/// Joins field names read from the binary module with the name of the first
/// struct type that `source` declares.
pub fn augment_with_type_name(source: &str, fields: Vec<String>) -> (info: TypeInfo)
    ensures
        info@ == (TypeInfoView { name: first_type_name(source@), fields: name_texts(fields@) }),
{
    TypeInfo { name: extract_first_type_name(source), fields }
}

/// Recovers the names of the first struct type of a module: see
/// [`module_type_info`].
pub fn extract_type_info(binary: &[u8], source: &str) -> (info: Option<TypeInfo>)
    ensures
        info_view(info) == module_type_info(binary@, source@),
{
    match parse_name_section(binary) {
        Some(fields) => Some(augment_with_type_name(source, fields)),
        None => parse_wat_field_names(source),
    }
}

} // verus!
