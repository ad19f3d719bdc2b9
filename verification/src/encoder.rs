//! From module text to a binary module.
//!
//! The text is lowered, handed to the `wat` encoder, and the encoder's
//! output gets its data-count section restored. A source that is a binary
//! module already is taken as it is: it is not encoded again, and nothing
//! is put into it.

use vstd::prelude::*;
use vstd::slice::slice_to_vec;
use vstd::utf8::encode_utf8;
use crate::datacount::{datacount_outcome, restore_datacount, with_datacount, DatacountOutcome};
use crate::lowering::{lowered, transform_string_types};
use crate::sections::{has_magic, starts_with_magic};
use crate::text::has_prefix;

verus! {

/// How the message of a `CompileError` begins when it is shown.
pub const ERROR_HEADING: &'static str = "WAT parse error: ";

/// Why a compilation failed.
#[derive(Debug)]
pub enum CompileError {
    /// The text is not a module that the encoder accepts. The message
    /// names the file and gives the encoder's own words.
    ParseError(String),
}

impl CompileError {
    /// The message that the error carries.
    pub open spec fn detail(self) -> Seq<char> {
        match self {
            CompileError::ParseError(message) => message@,
        }
    }

    /// The error as a line for a reader: a heading and the message.
    pub fn message(&self) -> (text: String)
        ensures
            text@ == ERROR_HEADING@ + self.detail(),
    {
        let mut text = String::new();
        text.append(ERROR_HEADING);
        match self {
            CompileError::ParseError(message) => {
                text.append(message.as_str());
            },
        }
        assert(text@ =~= ERROR_HEADING@ + self.detail());
        text
    }
}

/// The error of the `wat` encoder.
#[verifier::external_type_specification]
#[verifier::external_body]
pub struct ExWatError(wat::Error);

/// The binary module that `wat::parse_str` makes of `text`, if it accepts
/// the text.
pub uninterp spec fn wat_encoding(text: Seq<char>) -> Option<Seq<u8>>;

/// Encodes module text with `wat::parse_str`. The encoder is a function of
/// its input: it succeeds exactly on the texts that `wat_encoding` has a
/// module for, and returns that module.
#[verifier::external_body]
fn parse_wat(text: &str) -> (r: Result<Vec<u8>, wat::Error>)
    ensures
        r is Ok == wat_encoding(text@) is Some,
        r is Ok ==> r->Ok_0@ == wat_encoding(text@)->Some_0,
{
    wat::parse_str(text)
}

/// The words of an encoder error, as its `Display` writes them.
#[verifier::external_body]
fn wat_error_text(error: &wat::Error) -> (text: String) {
    error.to_string()
}

/// The message of a parse error in the file `filename`, of which the
/// encoder said `detail`.
pub open spec fn parse_error_message(filename: Seq<char>, detail: Seq<char>) -> Seq<char> {
    "in "@ + filename + ": "@ + detail
}

/// Makes the error for a text that the encoder refused.
pub fn parse_error(filename: &str, detail: &str) -> (error: CompileError)
    ensures
        error.detail() == parse_error_message(filename@, detail@),
{
    let mut message = String::new();
    message.append("in ");
    message.append(filename);
    message.append(": ");
    message.append(detail);
    assert(message@ =~= parse_error_message(filename@, detail@));
    CompileError::ParseError(message)
}

/// Whether `source` is a binary module already: its bytes begin with the
/// magic bytes.
pub open spec fn is_binary(source: Seq<char>) -> bool {
    has_magic(encode_utf8(source))
}

/// The binary module that `source` compiles to. A source that is a binary
/// module already is that module, byte for byte. Any other source is
/// lowered and encoded, and what the encoder made gets its data-count
/// section restored.
pub open spec fn compiled(source: Seq<char>) -> Option<Seq<u8>> {
    if is_binary(source) {
        Some(encode_utf8(source))
    } else {
        match wat_encoding(lowered(source)) {
            Some(binary) => Some(with_datacount(binary)),
            None => None,
        }
    }
}

/// What the data-count pass found in the module that the encoder made of
/// `source`; nothing for a source that is not encoded.
pub open spec fn datacount_report(source: Seq<char>) -> Option<DatacountOutcome> {
    if is_binary(source) {
        None
    } else {
        match wat_encoding(lowered(source)) {
            Some(binary) => Some(datacount_outcome(binary)),
            None => None,
        }
    }
}

/// A compiled module, with what the data-count pass found in it.
#[derive(Debug)]
pub struct Compilation {
    /// The binary module.
    pub binary: Vec<u8>,
    /// The outcome of the data-count pass, where the pass ran.
    pub datacount: Option<DatacountOutcome>,
}

/// Gives the module accessor functions for its struct fields. None are
/// generated: a module exports the accessors it wants to offer, and the
/// binary comes back as it is.
pub fn inject_gc_accessors(wasm_binary: &[u8]) -> (r: Result<Vec<u8>, CompileError>)
    ensures
        r is Ok,
        r->Ok_0@ == wasm_binary@,
{
    Ok(slice_to_vec(wasm_binary))
}

/// Compiles `source` to a binary module, and tells what the data-count
/// pass found: see [`compiled`] and [`datacount_report`]. The compilation
/// fails exactly where the source has to be encoded and the encoder
/// refuses the lowered text, with a parse error whose message begins with
/// the name of the file.
pub fn compile_wat_traced(source: &str, filename: &str) -> (r: Result<Compilation, CompileError>)
    ensures
        r is Ok == compiled(source@) is Some,
        r is Ok ==> r->Ok_0.binary@ == compiled(source@)->Some_0,
        r is Ok ==> r->Ok_0.datacount == datacount_report(source@),
        r is Err ==> has_prefix(r->Err_0.detail(), "in "@ + filename@ + ": "@),
{
    let source_bytes = source.as_bytes();
    if starts_with_magic(source_bytes) {
        return Ok(Compilation { binary: slice_to_vec(source_bytes), datacount: None });
    }
    let text = transform_string_types(source);
    match parse_wat(text.as_str()) {
        Ok(encoded) => {
            let mut binary = encoded;
            let outcome = restore_datacount(&mut binary);
            Ok(Compilation { binary, datacount: Some(outcome) })
        },
        Err(error) => {
            let detail = wat_error_text(&error);
            let failure = parse_error(filename, detail.as_str());
            assert(("in "@ + filename@ + ": "@ + detail@).subrange(
                0,
                ("in "@ + filename@ + ": "@).len() as int,
            ) =~= "in "@ + filename@ + ": "@);
            Err(failure)
        },
    }
}

/// Compiles `source` to a binary module: see [`compiled`]. The compilation
/// fails exactly where the source has to be encoded and the encoder
/// refuses the lowered text, with a parse error whose message begins with
/// the name of the file.
pub fn compile_wat_internal(source: &str, filename: &str) -> (r: Result<Vec<u8>, CompileError>)
    ensures
        r is Ok == compiled(source@) is Some,
        r is Ok ==> r->Ok_0@ == compiled(source@)->Some_0,
        r is Err ==> has_prefix(r->Err_0.detail(), "in "@ + filename@ + ": "@),
{
    match compile_wat_traced(source, filename) {
        Ok(compilation) => inject_gc_accessors(compilation.binary.as_slice()),
        Err(error) => Err(error),
    }
}

/// A source that is a binary module already compiles to its own bytes,
/// whatever they hold and whatever the encoder would make of them.
pub proof fn lemma_binary_passes_through(source: Seq<char>)
    requires
        is_binary(source),
    ensures
        compiled(source) == Some(encode_utf8(source)),
{
}

} // verus!
