//! Lowering the `string` type of module text.
//!
//! The binary format has no string type. This pass gives module text that
//! uses one a concrete representation: a mutable array of bytes, declared
//! once as `$string`. A field, parameter or result of type `string` becomes a
//! nullable reference to that array, and a quoted literal handed to
//! `struct.new` becomes an `array.new_data` over a data segment that holds the
//! literal's bytes. The pass works line by line on the text as it is written;
//! it does not parse the module.

use vstd::prelude::*;
use vstd::slice::slice_subrange;
use vstd::utf8::encode_utf8;
use crate::text::{
    append,
    append_str,
    chars_of,
    contains,
    copy_range,
    decimal,
    decimal_digits,
    find,
    find_from,
    first_match,
    first_match_from,
    has_prefix,
    lemma_first_match_from,
    lines_of,
    occurs_in,
    replace,
    replaced,
    split_lines,
    starts_with,
    string_of,
    texts,
    trim,
    trimmed,
    utf8_len,
};

verus! {

/// How a line that opens the module begins.
pub const MODULE_OPEN: &'static str = "(module";

/// How a line comment begins.
pub const COMMENT_OPEN: &'static str = ";";

/// How the declaration of the concrete string type begins.
pub const STRING_TYPE_OPEN: &'static str = "(type $string";

/// The declaration of the concrete string type, as the pass writes it.
pub const STRING_TYPE_DECLARATION: &'static str =
    "  ;; String type: array of i8 (UTF-8)\n  (type $string (array (mut i8)))\n\n";

/// The name of the abstract type.
pub const STRING_WORD: &'static str = "string";

/// The name of the concrete type.
pub const STRING_NAME: &'static str = "$string";

/// A mutable field of the abstract type, and what it becomes.
pub const MUT_STRING: &'static str = "(mut string)";

pub const MUT_STRING_LOWERED: &'static str = "(mut (ref null $string))";

/// A parameter of the abstract type, and what it becomes.
pub const PARAM_STRING: &'static str = "(param string)";

pub const PARAM_STRING_LOWERED: &'static str = "(param (ref null $string))";

/// A result of the abstract type, and what it becomes.
pub const RESULT_STRING: &'static str = "(result string)";

pub const RESULT_STRING_LOWERED: &'static str = "(result (ref null $string))";

/// The instruction whose literal operand is rewritten.
pub const STRUCT_NEW: &'static str = "struct.new";

/// The quotation mark.
pub const QUOTE: &'static str = "\"";

/// What stands above the data segments that the pass adds.
pub const DATA_HEADING: &'static str = "\n  ;; String data sections\n";

/// Whether `line` opens the module.
pub open spec fn opens_module(line: Seq<char>) -> bool {
    has_prefix(trimmed(line), MODULE_OPEN@)
}

/// Whether `source` declares the concrete string type itself.
pub open spec fn declares_string_type(source: Seq<char>) -> bool {
    occurs_in(STRING_TYPE_OPEN@, source)
}

/// Whether `line` is module content in front of which the declaration can
/// stand: it is not blank and not a comment.
pub open spec fn is_content(line: Seq<char>) -> bool {
    trimmed(line).len() > 0 && !has_prefix(trimmed(line), COMMENT_OPEN@)
}

/// Whether `line` names the abstract type and not yet the concrete one.
pub open spec fn names_abstract_string(line: Seq<char>) -> bool {
    occurs_in(STRING_WORD@, line) && !occurs_in(STRING_NAME@, line)
}

/// `line` with its fields, parameters and results of the abstract type turned
/// into nullable references to the concrete type.
pub open spec fn with_lowered_types(line: Seq<char>) -> Seq<char> {
    if names_abstract_string(line) {
        replaced(
            replaced(
                replaced(line, MUT_STRING@, MUT_STRING_LOWERED@),
                PARAM_STRING@,
                PARAM_STRING_LOWERED@,
            ),
            RESULT_STRING@,
            RESULT_STRING_LOWERED@,
        )
    } else {
        line
    }
}

/// Whether `line` is looked at for a literal: it holds `struct.new` and a
/// quotation mark.
pub open spec fn may_hold_literal(line: Seq<char>) -> bool {
    occurs_in(STRUCT_NEW@, trimmed(line)) && occurs_in(QUOTE@, trimmed(line))
}

/// The indices of the two quotation marks of the literal of `line`: the
/// first two quotation marks after the first `struct.new`.
pub open spec fn literal_site(line: Seq<char>) -> Option<(int, int)> {
    match first_match(line, STRUCT_NEW@) {
        None => None,
        Some(instruction) => match first_match_from(line, QUOTE@, instruction) {
            None => None,
            Some(open) => match first_match_from(line, QUOTE@, open + 1) {
                None => None,
                Some(close) => Some((open, close)),
            },
        },
    }
}

/// The text between the two quotation marks of the literal of `line`.
pub open spec fn literal_text(line: Seq<char>) -> Seq<char>
    recommends
        literal_site(line) is Some,
{
    line.subrange(literal_site(line)->Some_0.0 + 1, literal_site(line)->Some_0.1)
}

/// The name of the data segment with the number `number`.
pub open spec fn data_name(number: nat) -> Seq<char> {
    "$str_"@ + decimal_digits(number)
}

/// The declaration of the data segment `number` with the bytes of `literal`.
pub open spec fn data_declaration(number: nat, literal: Seq<char>) -> Seq<char> {
    "(data "@ + data_name(number) + " \""@ + literal + "\")"@
}

/// The expression that builds a string from the data segment `number`, whose
/// literal is `literal`: all of the segment, from offset 0, as many bytes as
/// the literal takes in UTF-8.
pub open spec fn array_from_data(number: nat, literal: Seq<char>) -> Seq<char> {
    "(array.new_data $string "@ + data_name(number) + " (i32.const 0) (i32.const "@
        + decimal_digits(encode_utf8(literal).len()) + "))"@
}

/// `line` with its literal, quotation marks included, replaced by the
/// expression over the data segment `number`.
pub open spec fn with_literal_lowered(line: Seq<char>, number: nat) -> Seq<char>
    recommends
        literal_site(line) is Some,
{
    let (open, close) = literal_site(line)->Some_0;
    line.subrange(0, open) + array_from_data(number, literal_text(line)) + line.subrange(
        close + 1,
        line.len() as int,
    )
}

/// The two quotation marks of a literal lie inside the line, the first
/// before the second.
pub proof fn lemma_literal_site(line: Seq<char>)
    requires
        literal_site(line) is Some,
    ensures
        0 <= literal_site(line)->Some_0.0 < literal_site(line)->Some_0.1 < line.len(),
{
    reveal_strlit("\"");
    lemma_first_match_from(line, STRUCT_NEW@, 0);
    let instruction = first_match(line, STRUCT_NEW@)->Some_0;
    lemma_first_match_from(line, QUOTE@, instruction);
    let open = first_match_from(line, QUOTE@, instruction)->Some_0;
    lemma_first_match_from(line, QUOTE@, open + 1);
}

fn find_literal(line: &[char]) -> (site: Option<(usize, usize)>)
    ensures
        site is Some == literal_site(line@) is Some,
        site is Some ==> site->Some_0.0 == literal_site(line@)->Some_0.0 && site->Some_0.1
            == literal_site(line@)->Some_0.1,
        site is Some ==> site->Some_0.0 < site->Some_0.1 < line@.len(),
{
    let instruction_text = chars_of(STRUCT_NEW);
    let quote = chars_of(QUOTE);
    match find(line, instruction_text.as_slice()) {
        None => None,
        Some(instruction) => match find_from(line, quote.as_slice(), instruction) {
            None => None,
            Some(open) => {
                proof {
                    reveal_strlit("\"");
                    assert(QUOTE@.len() == 1);
                    lemma_first_match_from(line@, QUOTE@, instruction as int);
                    assert(crate::text::matches_at(line@, QUOTE@, open as int));
                }
                let len: usize = line.len();
                assert(open < len);
                match find_from(line, quote.as_slice(), open + 1) {
                    None => None,
                    Some(close) => {
                        proof {
                            lemma_literal_site(line@);
                        }
                        Some((open, close))
                    },
                }
            },
        },
    }
}

fn write_data_name(text: &mut Vec<char>, number: usize)
    ensures
        final(text)@ == old(text)@ + data_name(number as nat),
{
    append_str(text, "$str_");
    let digits = decimal(number as u128);
    append(text, digits.as_slice());
    assert(text@ =~= old(text)@ + data_name(number as nat));
}

/// Rewrites the literal of `line`, where it has one, into an expression over
/// the data segment `number`, and returns the rewritten line with the
/// segment's declaration.
pub fn lower_literal(line: &[char], number: usize) -> (r: Option<(Vec<char>, Vec<char>)>)
    ensures
        r is Some == literal_site(line@) is Some,
        r is Some ==> r->Some_0.0@ == with_literal_lowered(line@, number as nat),
        r is Some ==> r->Some_0.1@ == data_declaration(number as nat, literal_text(line@)),
{
    match find_literal(line) {
        None => None,
        Some((open, close)) => {
            let len: usize = line.len();
            let literal = slice_subrange(line, open + 1, close);
            let mut declaration: Vec<char> = Vec::new();
            append_str(&mut declaration, "(data ");
            write_data_name(&mut declaration, number);
            append_str(&mut declaration, " \"");
            append(&mut declaration, literal);
            append_str(&mut declaration, "\")");
            assert(declaration@ =~= data_declaration(number as nat, literal_text(line@)));
            let mut rewritten = copy_range(line, 0, open);
            let ghost head = rewritten@;
            append_str(&mut rewritten, "(array.new_data $string ");
            write_data_name(&mut rewritten, number);
            append_str(&mut rewritten, " (i32.const 0) (i32.const ");
            let length = decimal(utf8_len(literal));
            append(&mut rewritten, length.as_slice());
            append_str(&mut rewritten, "))");
            assert(rewritten@ =~= head + array_from_data(number as nat, literal_text(line@)));
            append(&mut rewritten, slice_subrange(line, close + 1, line.len()));
            Some((rewritten, declaration))
        },
    }
}

/// Rewrites the first quoted literal after `struct.new` in `line` into an
/// expression over a fresh data segment, numbered by `counter`, and returns
/// the rewritten line and the segment's declaration; the counter then moves
/// on by one. A line without `struct.new`, or without two quotation marks
/// after it, comes back as it is, without a declaration, and the counter
/// stays.
pub fn transform_string_literal_to_data(line: &str, counter: &mut usize) -> (r: (
    String,
    Option<String>,
))
    requires
        *old(counter) < usize::MAX,
    ensures
        literal_site(line@) is Some ==> {
            &&& r.0@ == with_literal_lowered(line@, *old(counter) as nat)
            &&& r.1 is Some
            &&& r.1->Some_0@ == data_declaration(*old(counter) as nat, literal_text(line@))
            &&& *final(counter) == *old(counter) + 1
        },
        literal_site(line@) is None ==> {
            &&& r.0@ == line@
            &&& r.1 is None
            &&& *final(counter) == *old(counter)
        },
{
    let chars = chars_of(line);
    match lower_literal(chars.as_slice(), *counter) {
        None => (string_of(chars.as_slice()), None),
        Some((rewritten, declaration)) => {
            *counter = *counter + 1;
            (string_of(rewritten.as_slice()), Some(string_of(declaration.as_slice())))
        },
    }
}

/// How far the pass has come.
pub struct Progress {
    /// Whether a line that opens the module has been met.
    pub in_module: bool,
    /// Whether the pass has written the declaration of the concrete type.
    pub declared: bool,
    /// The number of literals rewritten so far, which numbers the next one.
    pub literals: nat,
    /// The text written so far.
    pub text: Seq<char>,
    /// The declarations of the data segments, one for each literal, in the
    /// order of the literals.
    pub data: Seq<Seq<char>>,
}

/// The pass before its first line.
pub open spec fn start() -> Progress {
    Progress {
        in_module: false,
        declared: false,
        literals: 0,
        text: Seq::empty(),
        data: Seq::empty(),
    }
}

/// The pass after one more line. A line that opens the module is copied. Any
/// other line has its types lowered and then its literal; ahead of the first
/// such line that is module content and follows the opening of the module,
/// the declaration of the concrete type is written, unless the source
/// declares the type itself (`declared_in_source`).
pub open spec fn step(before: Progress, line: Seq<char>, declared_in_source: bool) -> Progress {
    if opens_module(line) {
        Progress { in_module: true, text: before.text + line + seq!['\n'], ..before }
    } else {
        let declare = before.in_module && !before.declared && !declared_in_source && is_content(
            line,
        );
        let head = if declare {
            before.text + STRING_TYPE_DECLARATION@
        } else {
            before.text
        };
        let typed = with_lowered_types(line);
        if may_hold_literal(line) && literal_site(typed) is Some {
            Progress {
                in_module: before.in_module,
                declared: before.declared || declare,
                literals: before.literals + 1,
                text: head + with_literal_lowered(typed, before.literals) + seq!['\n'],
                data: before.data.push(data_declaration(before.literals, literal_text(typed))),
            }
        } else {
            Progress {
                declared: before.declared || declare,
                text: head + typed + seq!['\n'],
                ..before
            }
        }
    }
}

/// The pass after the first `n` of `lines`.
pub open spec fn progress(lines: Seq<Seq<char>>, n: int, declared_in_source: bool) -> Progress
    decreases n,
{
    if n <= 0 {
        start()
    } else {
        step(progress(lines, n - 1, declared_in_source), lines[n - 1], declared_in_source)
    }
}

/// The lines of the first `n` data segments, each indented by two spaces.
pub open spec fn data_lines(data: Seq<Seq<char>>, n: int) -> Seq<char>
    decreases n,
{
    if n <= 0 {
        Seq::empty()
    } else {
        data_lines(data, n - 1) + "  "@ + data[n - 1] + seq!['\n']
    }
}

/// What the pass adds for its data segments: nothing where there is none,
/// else a heading and their lines.
pub open spec fn data_block(data: Seq<Seq<char>>) -> Seq<char> {
    if data.len() == 0 {
        Seq::empty()
    } else {
        DATA_HEADING@ + data_lines(data, data.len() as int)
    }
}

/// The index of the last closing parenthesis among the first `n` characters
/// of `text`.
pub open spec fn last_closing(text: Seq<char>, n: int) -> Option<int>
    decreases n,
{
    if n <= 0 {
        None
    } else if text[n - 1] == ')' {
        Some(n - 1)
    } else {
        last_closing(text, n - 1)
    }
}

/// `text` with `block` put in front of its last closing parenthesis, which
/// closes the module; at its end where it has none.
pub open spec fn before_closing(text: Seq<char>, block: Seq<char>) -> Seq<char> {
    match last_closing(text, text.len() as int) {
        Some(at) => text.subrange(0, at) + block + text.subrange(at, text.len() as int),
        None => text + block,
    }
}

/// Whether one of the first `n` of `lines` is looked at for a literal.
pub open spec fn any_may_hold_literal(lines: Seq<Seq<char>>, n: int) -> bool
    decreases n,
{
    if n <= 0 {
        false
    } else {
        any_may_hold_literal(lines, n - 1) || may_hold_literal(lines[n - 1])
    }
}

/// Whether `source` uses strings at all: it holds the word `string`, or a
/// line that is looked at for a literal.
pub open spec fn uses_strings(source: Seq<char>) -> bool {
    occurs_in(STRING_WORD@, source) || any_may_hold_literal(
        lines_of(source),
        lines_of(source).len() as int,
    )
}

/// The pass over all of `source`.
pub open spec fn final_progress(source: Seq<char>) -> Progress {
    progress(lines_of(source), lines_of(source).len() as int, declares_string_type(source))
}

/// `source` with its strings lowered. A source that uses no strings stays as
/// it is, to the character. Any other is rewritten line by line, each line
/// ended by a line feed, and the declarations of the data segments are put
/// in front of the parenthesis that closes the module.
pub open spec fn lowered(source: Seq<char>) -> Seq<char> {
    if uses_strings(source) {
        before_closing(final_progress(source).text, data_block(final_progress(source).data))
    } else {
        source
    }
}

fn line_opens_module(line: &[char]) -> (r: bool)
    ensures
        r == opens_module(line@),
{
    let pattern = chars_of(MODULE_OPEN);
    starts_with(trim(line), pattern.as_slice())
}

fn line_is_content(line: &[char]) -> (r: bool)
    ensures
        r == is_content(line@),
{
    let pattern = chars_of(COMMENT_OPEN);
    let inner = trim(line);
    inner.len() > 0 && !starts_with(inner, pattern.as_slice())
}

fn line_may_hold_literal(line: &[char]) -> (r: bool)
    ensures
        r == may_hold_literal(line@),
{
    let instruction = chars_of(STRUCT_NEW);
    let quote = chars_of(QUOTE);
    let inner = trim(line);
    contains(inner, instruction.as_slice()) && contains(inner, quote.as_slice())
}

/// Lowers the types of one line.
pub fn lower_types(line: &[char]) -> (out: Vec<char>)
    ensures
        out@ == with_lowered_types(line@),
{
    let word = chars_of(STRING_WORD);
    let name = chars_of(STRING_NAME);
    if contains(line, word.as_slice()) && !contains(line, name.as_slice()) {
        let fields = replace(
            line,
            chars_of(MUT_STRING).as_slice(),
            chars_of(MUT_STRING_LOWERED).as_slice(),
        );
        let params = replace(
            fields.as_slice(),
            chars_of(PARAM_STRING).as_slice(),
            chars_of(PARAM_STRING_LOWERED).as_slice(),
        );
        replace(
            params.as_slice(),
            chars_of(RESULT_STRING).as_slice(),
            chars_of(RESULT_STRING_LOWERED).as_slice(),
        )
    } else {
        copy_range(line, 0, line.len())
    }
}

proof fn lemma_any_may_hold_literal(lines: Seq<Seq<char>>, i: int, n: int)
    requires
        0 <= i < n,
        may_hold_literal(lines[i]),
    ensures
        any_may_hold_literal(lines, n),
    decreases n,
{
    if i < n - 1 {
        lemma_any_may_hold_literal(lines, i, n - 1);
    }
}

fn source_uses_strings(source: &[char], lines: &Vec<Vec<char>>) -> (r: bool)
    requires
        texts(lines@) == lines_of(source@),
    ensures
        r == uses_strings(source@),
{
    let word = chars_of(STRING_WORD);
    if contains(source, word.as_slice()) {
        return true;
    }
    let mut i: usize = 0;
    while i < lines.len()
        invariant
            i <= lines.len(),
            texts(lines@) == lines_of(source@),
            !any_may_hold_literal(lines_of(source@), i as int),
        decreases lines.len() - i,
    {
        assert(texts(lines@)[i as int] == lines@[i as int]@);
        if line_may_hold_literal(lines[i].as_slice()) {
            proof {
                lemma_any_may_hold_literal(lines_of(source@), i as int, lines@.len() as int);
            }
            return true;
        }
        i += 1;
    }
    false
}

fn put_before_closing(text: Vec<char>, block: &[char]) -> (out: Vec<char>)
    ensures
        out@ == before_closing(text@, block@),
{
    let mut at: usize = text.len();
    while at > 0 && text[at - 1] != ')'
        invariant
            at <= text.len(),
            last_closing(text@, text@.len() as int) == last_closing(text@, at as int),
        decreases at,
    {
        at -= 1;
    }
    if at == 0 {
        let mut out = text;
        append(&mut out, block);
        out
    } else {
        let mut out = copy_range(text.as_slice(), 0, at - 1);
        append(&mut out, block);
        append(&mut out, slice_subrange(text.as_slice(), at - 1, text.len()));
        out
    }
}

fn write_data_block(data: &Vec<Vec<char>>) -> (out: Vec<char>)
    ensures
        out@ == data_block(texts(data@)),
{
    let mut out: Vec<char> = Vec::new();
    if data.len() == 0 {
        return out;
    }
    append_str(&mut out, DATA_HEADING);
    let mut i: usize = 0;
    assert(out@ =~= DATA_HEADING@ + data_lines(texts(data@), 0));
    while i < data.len()
        invariant
            i <= data.len(),
            out@ == DATA_HEADING@ + data_lines(texts(data@), i as int),
        decreases data.len() - i,
    {
        let ghost before = out@;
        append_str(&mut out, "  ");
        append(&mut out, data[i].as_slice());
        out.push('\n');
        assert(texts(data@)[i as int] == data@[i as int]@);
        assert(out@ =~= DATA_HEADING@ + (data_lines(texts(data@), i as int) + "  "@ + data@[i as int]@
            + seq!['\n']));
        i += 1;
    }
    out
}

/// Lowers the strings of module text: see [`lowered`].
pub fn transform_string_types(source: &str) -> (out: String)
    ensures
        out@ == lowered(source@),
{
    let chars = chars_of(source);
    let lines = split_lines(chars.as_slice());
    if !source_uses_strings(chars.as_slice(), &lines) {
        return string_of(chars.as_slice());
    }
    let declared_in_source = contains(chars.as_slice(), chars_of(STRING_TYPE_OPEN).as_slice());
    let mut text: Vec<char> = Vec::new();
    let mut data: Vec<Vec<char>> = Vec::new();
    let mut in_module: bool = false;
    let mut declared: bool = false;
    let mut literals: usize = 0;
    let mut i: usize = 0;
    assert(texts(data@) =~= Seq::empty());
    while i < lines.len()
        invariant
            i <= lines.len(),
            literals <= i,
            texts(lines@) == lines_of(source@),
            declared_in_source == declares_string_type(source@),
            progress(lines_of(source@), i as int, declared_in_source) == (Progress {
                in_module,
                declared,
                literals: literals as nat,
                text: text@,
                data: texts(data@),
            }),
        decreases lines.len() - i,
    {
        let line = lines[i].as_slice();
        assert(texts(lines@)[i as int] == line@);
        let ghost before = progress(lines_of(source@), i as int, declared_in_source);
        if line_opens_module(line) {
            append(&mut text, line);
            text.push('\n');
            in_module = true;
            assert(text@ =~= before.text + line@ + seq!['\n']);
        } else {
            if in_module && !declared && !declared_in_source && line_is_content(line) {
                append_str(&mut text, STRING_TYPE_DECLARATION);
                declared = true;
            }
            let ghost head = text@;
            let typed = lower_types(line);
            let rewritten = if line_may_hold_literal(line) {
                lower_literal(typed.as_slice(), literals)
            } else {
                None
            };
            match rewritten {
                Some((lowered_line, declaration)) => {
                    append(&mut text, lowered_line.as_slice());
                    text.push('\n');
                    let ghost segments = texts(data@);
                    data.push(declaration);
                    literals += 1;
                    assert(texts(data@) =~= segments.push(declaration@));
                    assert(text@ =~= head + lowered_line@ + seq!['\n']);
                },
                None => {
                    append(&mut text, typed.as_slice());
                    text.push('\n');
                    assert(text@ =~= head + typed@ + seq!['\n']);
                },
            }
        }
        i += 1;
    }
    let block = write_data_block(&data);
    let finished = put_before_closing(text, block.as_slice());
    string_of(finished.as_slice())
}

/// The pass writes the declaration of the concrete string type at most
/// once, and never where the source declares that type itself.
pub proof fn lemma_declared_type_is_kept(source: Seq<char>)
    requires
        declares_string_type(source),
    ensures
        !final_progress(source).declared,
{
    lemma_never_declared(lines_of(source), lines_of(source).len() as int);
}

proof fn lemma_never_declared(lines: Seq<Seq<char>>, n: int)
    ensures
        !progress(lines, n, true).declared,
    decreases n,
{
    if n > 0 {
        lemma_never_declared(lines, n - 1);
    }
}

/// A source that uses no strings comes out of the pass as it went in.
pub proof fn lemma_no_strings_no_change(source: Seq<char>)
    requires
        !uses_strings(source),
    ensures
        lowered(source) == source,
{
}

} // verus!
