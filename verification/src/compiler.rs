//! The compiler: from module text to its loading script, by way of the
//! cache.
//!
//! A compilation first asks the cache for the binary module of the text. A
//! text that the cache knows is not compiled again. A text that it does not
//! know is compiled, and the binary module is stored. The script is then
//! written for the binary module and the text.

use vstd::prelude::*;
use crate::binding::{generate_binding, module_script, snippet_view};
use crate::cache::{after_store, calculate_hash, fingerprint, CompileCache};
use crate::datacount::DatacountOutcome;
use crate::encoder::{compile_wat_traced, compiled, datacount_report, CompileError};
use crate::text::has_prefix;

verus! {

/// The binary module that a compilation works with.
#[derive(Debug)]
pub struct Obtained {
    /// The binary module.
    pub binary: Vec<u8>,
    /// Whether the module was compiled just now, and is to be stored.
    pub fresh: bool,
    /// What the data-count pass found, where the module was compiled just
    /// now and the pass ran.
    pub datacount: Option<DatacountOutcome>,
}

/// Settles which binary module a compilation of `source` works with, given
/// what the cache holds for the text: the cached module where there is
/// one, and else the module that the text compiles to, which is then
/// fresh. Only a text that has to be compiled can fail.
pub fn obtain_binary(cached: Option<Vec<u8>>, source: &str, filename: &str) -> (r: Result<
    Obtained,
    CompileError,
>)
    ensures
        cached is Some ==> r is Ok && r->Ok_0.binary@ == cached->Some_0@ && !r->Ok_0.fresh
            && r->Ok_0.datacount is None,
        cached is None ==> (r is Ok == compiled(source@) is Some),
        cached is None && r is Ok ==> r->Ok_0.binary@ == compiled(source@)->Some_0
            && r->Ok_0.fresh && r->Ok_0.datacount == datacount_report(source@),
        r is Err ==> has_prefix(r->Err_0.detail(), "in "@ + filename@ + ": "@),
{
    match cached {
        Some(binary) => Ok(Obtained { binary, fresh: false, datacount: None }),
        None => match compile_wat_traced(source, filename) {
            Ok(compilation) => Ok(
                Obtained {
                    binary: compilation.binary,
                    fresh: true,
                    datacount: compilation.datacount,
                },
            ),
            Err(error) => Err(error),
        },
    }
}

/// The binary module that a compilation of `source` works with: the one
/// that `entries` holds under the fingerprint of the source, and the
/// compiled one only where they hold none.
pub open spec fn binary_for(entries: Map<u64, Seq<u8>>, source: Seq<char>) -> Option<Seq<u8>> {
    if entries.contains_key(fingerprint(source)) {
        Some(entries[fingerprint(source)])
    } else {
        compiled(source)
    }
}

/// What the cache holds after a compilation of `source`: a module that was
/// compiled for it is stored, and nothing else changes.
pub open spec fn entries_after(entries: Map<u64, Seq<u8>>, source: Seq<char>) -> Map<
    u64,
    Seq<u8>,
> {
    if entries.contains_key(fingerprint(source)) {
        entries
    } else {
        match compiled(source) {
            Some(binary) => after_store(entries, fingerprint(source), binary),
            None => entries,
        }
    }
}

/// Compiles module text to its loading script. The binary module is taken
/// from `cache` where the cache holds one for this very text, and the text
/// is then not compiled again; else it is compiled and stored. `filename`
/// names the text in an error, and `callback` is a snippet to run once the
/// module is loaded.
///
/// The compilation fails only where the text has to be compiled and the
/// encoder refuses it; the cache then stays as it was.
pub fn compile_wat_to_js(
    cache: &mut CompileCache,
    source: &str,
    filename: &str,
    callback: Option<&str>,
) -> (r: Result<String, CompileError>)
    ensures
        r is Ok == binary_for(old(cache)@, source@) is Some,
        r is Ok ==> r->Ok_0@ == module_script(
            binary_for(old(cache)@, source@)->Some_0,
            source@,
            snippet_view(callback),
        ),
        r is Err ==> has_prefix(r->Err_0.detail(), "in "@ + filename@ + ": "@),
        final(cache)@ == entries_after(old(cache)@, source@),
        old(cache).wf() ==> final(cache).wf(),
{
    let key = calculate_hash(source);
    match obtain_binary(cache.lookup(key), source, filename) {
        Ok(obtained) => {
            if obtained.fresh {
                cache.store(key, obtained.binary.clone());
            }
            Ok(generate_binding(obtained.binary.as_slice(), source, callback))
        },
        Err(error) => Err(error),
    }
}

/// Empties the cache.
pub fn clear_cache(cache: &mut CompileCache)
    ensures
        final(cache)@ == Map::<u64, Seq<u8>>::empty(),
        final(cache).wf(),
{
    cache.clear();
}

/// A text that compiled once compiles again to the same script, from the
/// cache and without the encoder: after the first compilation the cache
/// holds the module under the text's fingerprint, so the second works with
/// that module, whatever the encoder would say, and leaves the cache as it
/// is.
pub proof fn lemma_second_compilation_is_cached(entries: Map<u64, Seq<u8>>, source: Seq<char>)
    requires
        binary_for(entries, source) is Some,
    ensures
        entries_after(entries, source).contains_key(fingerprint(source)),
        entries_after(entries, source)[fingerprint(source)] == binary_for(
            entries,
            source,
        )->Some_0,
        binary_for(entries_after(entries, source), source) == binary_for(entries, source),
        entries_after(entries_after(entries, source), source) == entries_after(entries, source),
{
}

} // verus!
