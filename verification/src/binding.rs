//! The loading script for a compiled module.
//!
//! The script holds the bytes of the module, instantiates it, and puts its
//! exports into the host's global scope under their own names. Struct values
//! that a function returns, or that a global holds, are wrapped so that a
//! field can be read and written by its name; for that the script carries
//! the names of the type and of its fields.

use vstd::prelude::*;
use crate::metadata::{extract_type_info, field_names_json, metadata_json, module_type_info};
use crate::script::{
    SCRIPT_HEAD,
    SCRIPT_TAIL,
    SCRIPT_DISPLAY,
    SCRIPT_EXPORTS,
    SCRIPT_FIELD_NAMES,
    SCRIPT_GETTER,
    SCRIPT_INSTANTIATE,
    SCRIPT_SETTER,
    SCRIPT_STRING_FROM_MODULE,
    SCRIPT_STRING_TO_MODULE,
    SCRIPT_WRAP_GET,
    SCRIPT_WRAP_OPEN,
    SCRIPT_WRAP_SET,
    SCRIPT_WRAP_TO_PRIMITIVE,
    SCRIPT_WRAP_TO_STRING
};
use crate::text::{
    chars_of,
    hex_literal,
    push_hex_literal,
    string_of,
    trim,
    trimmed,
};

verus! {

/// What stands above a follow-up snippet.
pub const CALLBACK_HEADING: &'static str =
    "\n// Auto-generated callback from inline script content\n";

/// How the listener that runs a follow-up snippet begins.
pub const CALLBACK_OPEN: &'static str = "window.addEventListener('wasmloaded', function() {\n";

/// How the listener that runs a follow-up snippet ends.
pub const CALLBACK_CLOSE: &'static str = "\n});\n";

/// The script between the bytes of the module and the field names.
pub open spec fn script_body() -> Seq<char> {
    SCRIPT_INSTANTIATE@ + SCRIPT_STRING_FROM_MODULE@ + SCRIPT_STRING_TO_MODULE@ + SCRIPT_WRAP_OPEN@ + SCRIPT_WRAP_TO_STRING@ + SCRIPT_WRAP_TO_PRIMITIVE@ + SCRIPT_WRAP_GET@ + SCRIPT_WRAP_SET@ + SCRIPT_EXPORTS@ + SCRIPT_DISPLAY@ + SCRIPT_GETTER@ + SCRIPT_SETTER@ + SCRIPT_FIELD_NAMES@
}

/// The first `n` of `bytes` as hexadecimal literals, with a comma and a
/// space between them.
pub open spec fn byte_list(bytes: Seq<u8>, n: int) -> Seq<char>
    decreases n,
{
    if n <= 0 {
        Seq::empty()
    } else if n == 1 {
        hex_literal(bytes[0])
    } else {
        byte_list(bytes, n - 1) + ", "@ + hex_literal(bytes[n - 1])
    }
}

/// What the script gets for a follow-up snippet: a listener that runs the
/// snippet once the module is loaded. A snippet that is missing, empty or
/// all white space adds nothing.
pub open spec fn callback_part(callback: Option<Seq<char>>) -> Seq<char> {
    match callback {
        Some(code) => if trimmed(code).len() > 0 {
            CALLBACK_HEADING@ + CALLBACK_OPEN@ + code + CALLBACK_CLOSE@
        } else {
            Seq::empty()
        },
        None => Seq::empty(),
    }
}

/// The loading script for the module `binary` with the field names
/// `metadata` and the follow-up snippet `callback`.
pub open spec fn binding_script(
    binary: Seq<u8>,
    metadata: Seq<char>,
    callback: Option<Seq<char>>,
) -> Seq<char> {
    SCRIPT_HEAD@ + byte_list(binary, binary.len() as int) + script_body() + metadata
        + SCRIPT_TAIL@ + callback_part(callback)
}

/// The loading script for the module `binary` that was compiled from
/// `source`: the field names are those that the two give.
pub open spec fn module_script(
    binary: Seq<u8>,
    source: Seq<char>,
    callback: Option<Seq<char>>,
) -> Seq<char> {
    binding_script(binary, metadata_json(module_type_info(binary, source)), callback)
}

/// The text of what may be a snippet.
pub open spec fn snippet_view(snippet: Option<&str>) -> Option<Seq<char>> {
    match snippet {
        Some(code) => Some(code@),
        None => None,
    }
}

fn write_byte_list(binary: &[u8]) -> (out: Vec<char>)
    ensures
        out@ == byte_list(binary@, binary@.len() as int),
{
    let mut out: Vec<char> = Vec::new();
    let mut i: usize = 0;
    while i < binary.len()
        invariant
            i <= binary.len(),
            out@ == byte_list(binary@, i as int),
        decreases binary.len() - i,
    {
        let ghost before = out@;
        if i > 0 {
            out.push(',');
            out.push(' ');
            proof {
                reveal_strlit(", ");
                assert(out@ =~= before + ", "@);
            }
        }
        push_hex_literal(&mut out, binary[i]);
        proof {
            if i == 0 {
                assert(out@ =~= hex_literal(binary@[0]));
            }
        }
        i += 1;
    }
    out
}

/// Writes the loading script for `binary` with the field names `metadata`
/// and the follow-up snippet `callback`: see [`binding_script`].
pub fn write_binding(binary: &[u8], metadata: &str, callback: Option<&str>) -> (out: String)
    ensures
        out@ == binding_script(binary@, metadata@, snippet_view(callback)),
{
    let mut out = String::new();
    out.append(SCRIPT_HEAD);
    let bytes = string_of(write_byte_list(binary).as_slice());
    out.append(bytes.as_str());
    out.append(SCRIPT_INSTANTIATE);
    out.append(SCRIPT_STRING_FROM_MODULE);
    out.append(SCRIPT_STRING_TO_MODULE);
    out.append(SCRIPT_WRAP_OPEN);
    out.append(SCRIPT_WRAP_TO_STRING);
    out.append(SCRIPT_WRAP_TO_PRIMITIVE);
    out.append(SCRIPT_WRAP_GET);
    out.append(SCRIPT_WRAP_SET);
    out.append(SCRIPT_EXPORTS);
    out.append(SCRIPT_DISPLAY);
    out.append(SCRIPT_GETTER);
    out.append(SCRIPT_SETTER);
    out.append(SCRIPT_FIELD_NAMES);
    out.append(metadata);
    out.append(SCRIPT_TAIL);
    let ghost main = out@;
    assert(main =~= SCRIPT_HEAD@ + byte_list(binary@, binary@.len() as int) + script_body()
        + metadata@ + SCRIPT_TAIL@);
    match callback {
        Some(code) => {
            let chars = chars_of(code);
            if trim(chars.as_slice()).len() > 0 {
                out.append(CALLBACK_HEADING);
                out.append(CALLBACK_OPEN);
                out.append(code);
                out.append(CALLBACK_CLOSE);
                assert(out@ =~= main + (CALLBACK_HEADING@ + CALLBACK_OPEN@ + code@
                    + CALLBACK_CLOSE@));
            } else {
                assert(out@ =~= main + Seq::<char>::empty());
            }
        },
        None => {
            assert(out@ =~= main + Seq::<char>::empty());
        },
    }
    out
}

/// Writes the loading script for the module `binary` that was compiled
/// from `source`: see [`module_script`].
pub fn generate_binding(binary: &[u8], source: &str, callback: Option<&str>) -> (out: String)
    ensures
        out@ == module_script(binary@, source@, snippet_view(callback)),
{
    let info = extract_type_info(binary, source);
    let metadata = field_names_json(&info);
    write_binding(binary, metadata.as_str(), callback)
}

} // verus!
