//! galette: an assembler for GAL-family programmable logic devices
//! (GAL16V8, GAL20V8, GAL22V10, GAL20RA10).
//!
//! The pipeline turns the text of an equations file into a JEDEC fuse
//! map: the parser builds a `Content`, the blueprint builder collapses
//! the equations into per-OLMC records, the fuse builder produces the
//! GAL bit state, and the writer renders the JEDEC payload with its
//! checksums.  `assemble` runs the whole pipeline over the lines of a
//! source file.

#![verifier::loop_isolation(false)]

use vstd::prelude::*;

pub mod blueprint;
pub mod chips;
pub mod errors;
pub mod gal;
pub mod gal_builder;
pub mod olmc;
pub mod parser;
pub mod text;
pub mod writer;

use crate::errors::Error;
use crate::writer::Config;

verus! {

/// What assembling a source file yields: the JEDEC payload of the
/// parsed, checked and fuse-mapped design, or the first error.
pub open spec fn spec_assemble(ls: Seq<Seq<char>>, sec: bool) -> Result<Seq<u8>, Error> {
    match crate::parser::spec_parse(ls) {
        Err(e) => Err(e),
        Ok(cv) => match crate::blueprint::spec_from(cv) {
            Err(e) => Err(e),
            Ok(bv) => match crate::gal_builder::spec_build(bv) {
                Err(e) => Err(e),
                Ok(gv) => Ok(crate::writer::spec_jedec_bytes(sec, gv)),
            },
        },
    }
}

/// Run the whole pipeline over the lines of a source file and render
/// the JEDEC file text.
pub fn assemble(lines: &Vec<String>, config: &Config) -> (r: Result<String, Error>)
    ensures
        match spec_assemble(lines@.map_values(|s: String| s@), config.jedec_sec_bit) {
            Ok(b) => r matches Ok(s) && s@.len() == b.len() && (forall|i: int|
                0 <= i < b.len() ==> (s@[i] as u32) == b[i] as u32) && (forall|i: int|
                0 <= i < s@.len() ==> (s@[i] as u32) < 128),
            Err(e) => r matches Err(e2) && e2 == e,
        },
{
    let content = match crate::parser::parse(lines) {
        Ok(c) => c,
        Err(e) => {
            return Err(e);
        },
    };
    let blueprint = match crate::blueprint::Blueprint::from(&content) {
        Ok(b) => b,
        Err(e) => {
            return Err(e);
        },
    };
    let gal = match crate::gal_builder::build(&blueprint) {
        Ok(g) => g,
        Err(e) => {
            return Err(e);
        },
    };
    Ok(crate::writer::make_jedec(config, &gal))
}

} // verus!
