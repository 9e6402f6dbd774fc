//! Mode analysis for the GAL16V8/20V8.
//!
//! The two V8 devices interpret their fuse array in one of three
//! modes.  A registered output forces Registered mode; a tristate
//! output forces Complex; so does an OLMC used as feedback that
//! Simple mode cannot provide (the two middle OLMCs have no pure
//! input path, and driven OLMCs cannot feed back combinatorially);
//! otherwise Simple mode serves.

use vstd::prelude::*;

use crate::blueprint::{OlmcView, PinMode, OLMC};
use crate::chips::Chip;
use crate::gal::{Mode, GAL};

verus! {

/// Some of the first eight OLMCs has a registered output.
pub open spec fn has_registered(olmcs: Seq<OlmcView>) -> bool {
    exists|n: int|
        0 <= n < 8 && (#[trigger] olmcs[n]).output matches Some((PinMode::Registered, _))
}

/// Some of the first eight OLMCs has a tristate output.
pub open spec fn has_tristate(olmcs: Seq<OlmcView>) -> bool {
    exists|n: int| 0 <= n < 8 && (#[trigger] olmcs[n]).output matches Some((PinMode::Tristate, _))
}

/// Some OLMC is read back in a way Simple mode cannot provide: a
/// driven OLMC, or one of the two middle OLMCs, which have no pure
/// input path.
pub open spec fn needs_complex(olmcs: Seq<OlmcView>) -> bool {
    exists|n: int|
        0 <= n < 8 && (#[trigger] olmcs[n]).feedback && (olmcs[n].output is Some || n == 3 || n
            == 4)
}

/// The mode the fuse array must run in for these OLMCs.
pub open spec fn spec_mode_v8(olmcs: Seq<OlmcView>) -> Mode {
    if has_registered(olmcs) {
        Mode::Registered
    } else if has_tristate(olmcs) {
        Mode::Complex
    } else if needs_complex(olmcs) {
        Mode::Complex
    } else {
        Mode::Simple
    }
}

/// Decide the mode for a GAL16V8/20V8 from its OLMCs.
pub fn get_mode_v8(olmcs: &[OLMC]) -> (r: Mode)
    requires
        olmcs@.len() == 8,
    ensures
        r == spec_mode_v8(olmcs@.map_values(|o: OLMC| o@)),
{
    let ghost views = olmcs@.map_values(|o: OLMC| o@);
    // If there's a registered pin, the chip must run registered.
    let mut n: usize = 0;
    while n < 8
        invariant
            0 <= n <= 8,
            forall|m: int|
                0 <= m < n ==> !((#[trigger] views[m]).output matches Some((
                    PinMode::Registered,
                    _,
                ))),
        decreases 8 - n,
    {
        match &olmcs[n].output {
            Some((PinMode::Registered, _)) => {
                proof {
                    assert(views[n as int].output matches Some((PinMode::Registered, _)));
                }
                return Mode::Registered;
            },
            _ => {},
        }
        n = n + 1;
    }
    // If there's a tristate, the chip runs complex.
    let mut n: usize = 0;
    while n < 8
        invariant
            0 <= n <= 8,
            forall|m: int|
                0 <= m < n ==> !((#[trigger] views[m]).output matches Some((PinMode::Tristate, _))),
        decreases 8 - n,
    {
        match &olmcs[n].output {
            Some((PinMode::Tristate, _)) => {
                proof {
                    assert(views[n as int].output matches Some((PinMode::Tristate, _)));
                }
                return Mode::Complex;
            },
            _ => {},
        }
        n = n + 1;
    }
    // Fall back to complex where simple mode cannot serve.
    let mut n: usize = 0;
    while n < 8
        invariant
            0 <= n <= 8,
            forall|m: int|
                0 <= m < n ==> !((#[trigger] views[m]).feedback && (views[m].output is Some || m
                    == 3 || m == 4)),
        decreases 8 - n,
    {
        let fb = olmcs[n].feedback;
        let driven = olmcs[n].output.is_some();
        if fb && (driven || n == 3 || n == 4) {
            proof {
                assert(views[n as int].feedback && (views[n as int].output is Some || n == 3 || n
                    == 4));
            }
            return Mode::Complex;
        }
        n = n + 1;
    }
    Mode::Simple
}

/// Decide the V8 mode and burn it into the SYN/AC0 fuses.
pub fn analyse_mode_v8(gal: &mut GAL, olmcs: &[OLMC])
    requires
        old(gal).chip == Chip::GAL16V8 || old(gal).chip == Chip::GAL20V8,
        olmcs@.len() == 8,
    ensures
        final(gal).spec_get_mode() == spec_mode_v8(olmcs@.map_values(|o: OLMC| o@)),
        final(gal).mode_set(),
        final(gal).syn == (spec_mode_v8(olmcs@.map_values(|o: OLMC| o@)) != Mode::Registered),
        final(gal).ac0 == (spec_mode_v8(olmcs@.map_values(|o: OLMC| o@)) != Mode::Simple),
        final(gal).chip == old(gal).chip,
        final(gal).fuses@ == old(gal).fuses@,
        final(gal).xor@ == old(gal).xor@,
        final(gal).sig@ == old(gal).sig@,
        final(gal).ac1@ == old(gal).ac1@,
        final(gal).pt@ == old(gal).pt@,
{
    let mode = get_mode_v8(olmcs);
    gal.set_mode(mode);
}

/// Mode analysis runs on the V8 family only; other chips have a
/// single interpretation and are left untouched.
pub fn analyse_mode(gal: &mut GAL, olmcs: &[OLMC])
    requires
        old(gal).chip == Chip::GAL16V8 || old(gal).chip == Chip::GAL20V8 ==> olmcs@.len() == 8,
    ensures
        final(gal).chip == old(gal).chip,
        final(gal).fuses@ == old(gal).fuses@,
        final(gal).xor@ == old(gal).xor@,
        final(gal).sig@ == old(gal).sig@,
        final(gal).ac1@ == old(gal).ac1@,
        final(gal).pt@ == old(gal).pt@,
        (old(gal).chip == Chip::GAL16V8 || old(gal).chip == Chip::GAL20V8) ==> {
            &&& final(gal).spec_get_mode() == spec_mode_v8(olmcs@.map_values(|o: OLMC| o@))
            &&& final(gal).mode_set()
        },
        !(old(gal).chip == Chip::GAL16V8 || old(gal).chip == Chip::GAL20V8) ==> *final(gal) == *old(
            gal,
        ),
{
    match gal.chip {
        Chip::GAL16V8 | Chip::GAL20V8 => analyse_mode_v8(gal, olmcs),
        _ => {},
    }
}


/// Any registered output forces Registered mode on the V8 family.
pub proof fn lemma_registered_forces_mode(olmcs: Seq<OlmcView>)
    requires
        has_registered(olmcs),
    ensures
        spec_mode_v8(olmcs) == Mode::Registered,
{
}

} // verus!
