//! Compilation of WebAssembly text modules into host-loadable bindings.
//!
//! The pipeline takes the text of a module, lowers its strings, encodes it
//! to the binary format, restores the data-count section where the encoder
//! left it out, recovers the names of the first struct type and of its
//! fields, and emits the script that instantiates the module and exposes its
//! exports. Compiled modules are kept in a cache by the fingerprint of their
//! text.

pub mod binding;
pub mod cache;
pub mod compiler;
pub mod datacount;
pub mod encoder;
pub mod leb128;
pub mod lowering;
pub mod metadata;
pub mod names;
pub mod script;
pub mod sections;
pub mod text;

pub use compiler::{clear_cache, compile_wat_to_js};
pub use cache::CompileCache;
pub use encoder::CompileError;
