//! Convert an ELF dynamic shared object into an ELF relocatable object.
//!
//! The conversion runs as an ordered pipeline of passes over a parsed view of
//! the input image: one pass coalesces every loadable input section into a
//! single output section whose byte offsets equal the input virtual
//! addresses, one synthesizes a static symbol table from the input's dynamic
//! symbols, and one rewrites dynamic relocations into static relocations
//! against the coalesced section.  The pipeline itself, the passes, and the
//! data they exchange live here; reading and writing object files on disk is
//! left to callers.

pub mod elf;
pub mod pass;
pub mod soname;
pub mod sorting;
