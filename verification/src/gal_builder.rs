//! The fuse builder: from a blueprint to a fully populated GAL.
//!
//! Each chip family has its own path: the GAL16V8/20V8 get mode
//! analysis and the PT bits, the GAL22V10 its global AR/SP rows, the
//! GAL20RA10 its per-OLMC clock and reset rows.  All paths share the
//! signature bits, the tristate (AC1) bits, the main terms and the
//! XOR bits.  `spec_build` states the whole result.

use vstd::prelude::*;

use crate::blueprint::{Active, Blueprint, BlueprintView, OlmcView, PinMode, TermView, OLMC};
use crate::chips::{Bounds, Chip};
use crate::errors::{at_line, Error, ErrorCode, OutputSuffix};
use crate::gal::{
    false_term, spec_add_term_code, spec_apply_products, spec_clear_rows, unchanged_but_fuses,
    FuseCtx, GalView, Mode, Pin, GAL,
};
use crate::olmc::spec_mode_v8;

verus! {

/// Rows `[row_a, row_b)` of an OLMC slot lie inside the fuse array.
pub proof fn lemma_olmc_rows_in_range(chip: Chip, i: int)
    requires
        0 <= i < chip.num_olmcs(),
    ensures
        chip.spec_start_row_for_olmc(i as usize) + chip.spec_num_rows_for_olmc(i as usize)
            <= chip.num_rows(),
        chip.spec_num_rows_for_olmc(i as usize) >= 8,
{
}

/// The 64 signature bits: each signature byte big-endian, bytes
/// beyond the eighth ignored, missing bytes left as they were.
pub open spec fn spec_sig_bits(old_sig: Seq<bool>, sig: Seq<u8>) -> Seq<bool> {
    Seq::new(
        old_sig.len(),
        |k: int|
            if 0 <= k < 64 && k / 8 < sig.len() && k / 8 < 8 {
                ((sig[k / 8] as u32) >> ((7 - (k % 8)) as u32)) & 1 == 1
            } else {
                old_sig[k]
            },
    )
}

/// Copy the signature bytes into the signature bits.
pub fn set_sig(gal: &mut GAL, blueprint: &Blueprint)
    requires
        old(gal).sig@.len() == 64,
    ensures
        final(gal).sig@ == spec_sig_bits(old(gal).sig@, blueprint.sig@),
        final(gal).chip == old(gal).chip,
        final(gal).fuses@ == old(gal).fuses@,
        final(gal).xor@ == old(gal).xor@,
        final(gal).ac1@ == old(gal).ac1@,
        final(gal).pt@ == old(gal).pt@,
        final(gal).syn == old(gal).syn,
        final(gal).ac0 == old(gal).ac0,
{
    let n = if blueprint.sig.len() < 8 {
        blueprint.sig.len()
    } else {
        8
    };
    let mut i: usize = 0;
    while i < n
        invariant
            0 <= i <= n,
            n <= 8,
            n <= blueprint.sig@.len(),
            n == if blueprint.sig@.len() < 8 {
                blueprint.sig@.len() as int
            } else {
                8
            },
            gal.sig@.len() == 64,
            gal.chip == old(gal).chip,
            gal.fuses@ == old(gal).fuses@,
            gal.xor@ == old(gal).xor@,
            gal.ac1@ == old(gal).ac1@,
            gal.pt@ == old(gal).pt@,
            gal.syn == old(gal).syn,
            gal.ac0 == old(gal).ac0,
            forall|k: int|
                0 <= k < 64 ==> gal.sig@[k] == if k / 8 < i {
                    ((blueprint.sig@[k / 8] as u32) >> ((7 - (k % 8)) as u32)) & 1 == 1
                } else {
                    old(gal).sig@[k]
                },
        decreases n - i,
    {
        let c = blueprint.sig[i];
        let mut j: usize = 0;
        while j < 8
            invariant
                0 <= j <= 8,
                i < n,
                c == blueprint.sig@[i as int],
                gal.sig@.len() == 64,
                gal.chip == old(gal).chip,
                gal.fuses@ == old(gal).fuses@,
                gal.xor@ == old(gal).xor@,
                gal.ac1@ == old(gal).ac1@,
                gal.pt@ == old(gal).pt@,
                gal.syn == old(gal).syn,
                gal.ac0 == old(gal).ac0,
                forall|k: int|
                    0 <= k < 64 ==> gal.sig@[k] == if k / 8 < i || (k / 8 == i && k % 8 < j) {
                        ((blueprint.sig@[k / 8] as u32) >> ((7 - (k % 8)) as u32)) & 1 == 1
                    } else {
                        old(gal).sig@[k]
                    },
            decreases 8 - j,
        {
            let sh: u32 = (7 - j) as u32;
            let bit = ((c as u32) >> sh) & 1 == 1;
            gal.sig[i * 8 + j] = bit;
            proof {
                assert((i * 8 + j) / 8 == i && (i * 8 + j) % 8 == j) by (nonlinear_arith)
                    requires
                        0 <= j < 8,
                        0 <= i,
                ;
                assert(i * 8 + j < 64) by (nonlinear_arith)
                    requires
                        0 <= j < 8,
                        0 <= i < 8,
                ;
            }
            j = j + 1;
        }
        i = i + 1;
    }
    proof {
        assert(final(gal).sig@ =~= spec_sig_bits(old(gal).sig@, blueprint.sig@));
    }
}

/// Whether an OLMC's output stage is a tristate driver.
pub open spec fn spec_olmc_is_tristate(o: OlmcView, com_is_tri: bool) -> bool {
    match o.output {
        None => o.feedback,
        Some((PinMode::Tristate, _)) => true,
        Some((PinMode::Combinatorial, _)) => com_is_tri,
        Some((PinMode::Registered, _)) => false,
    }
}

/// The AC1 bits once every tristate OLMC is marked (bit `k` belongs
/// to OLMC `len - 1 - k`).
pub open spec fn spec_tristate_ac1(ac1: Seq<bool>, olmcs: Seq<OlmcView>, com_is_tri: bool) -> Seq<
    bool,
> {
    Seq::new(
        ac1.len(),
        |k: int|
            ac1[k] || (0 <= olmcs.len() - 1 - k < olmcs.len() && spec_olmc_is_tristate(
                olmcs[olmcs.len() - 1 - k],
                com_is_tri,
            )),
    )
}

/// Mark the AC1 bit of every OLMC that drives a tristate (or is used
/// for input feedback).  `com_is_tri` says whether combinatorial
/// outputs are implemented as always-enabled tristates.
pub fn set_tristate(gal: &mut GAL, blueprint: &Blueprint, com_is_tri: bool)
    requires
        blueprint.olmcs@.len() == old(gal).ac1@.len(),
    ensures
        final(gal).ac1@ == spec_tristate_ac1(
            old(gal).ac1@,
            blueprint.olmcs@.map_values(|o: OLMC| o@),
            com_is_tri,
        ),
        final(gal).chip == old(gal).chip,
        final(gal).fuses@ == old(gal).fuses@,
        final(gal).xor@ == old(gal).xor@,
        final(gal).sig@ == old(gal).sig@,
        final(gal).pt@ == old(gal).pt@,
        final(gal).syn == old(gal).syn,
        final(gal).ac0 == old(gal).ac0,
{
    let ghost views = blueprint.olmcs@.map_values(|o: OLMC| o@);
    let num_olmcs = blueprint.olmcs.len();
    let mut i: usize = 0;
    while i < num_olmcs
        invariant
            0 <= i <= num_olmcs,
            num_olmcs == views.len(),
            views == blueprint.olmcs@.map_values(|o: OLMC| o@),
            gal.ac1@.len() == num_olmcs,
            gal.chip == old(gal).chip,
            gal.fuses@ == old(gal).fuses@,
            gal.xor@ == old(gal).xor@,
            gal.sig@ == old(gal).sig@,
            gal.pt@ == old(gal).pt@,
            gal.syn == old(gal).syn,
            gal.ac0 == old(gal).ac0,
            forall|k: int|
                0 <= k < num_olmcs ==> gal.ac1@[k] == (old(gal).ac1@[k] || (0 <= num_olmcs - 1
                    - k < i && spec_olmc_is_tristate(views[num_olmcs - 1 - k], com_is_tri))),
        decreases num_olmcs - i,
    {
        let olmc = &blueprint.olmcs[i];
        let is_tristate = match &olmc.output {
            None => olmc.feedback,
            Some((PinMode::Tristate, _)) => true,
            Some((PinMode::Combinatorial, _)) => com_is_tri,
            Some((PinMode::Registered, _)) => false,
        };
        proof {
            assert(views[i as int] == olmc@);
            assert(is_tristate == spec_olmc_is_tristate(views[i as int], com_is_tri));
        }
        if is_tristate {
            gal.ac1[num_olmcs - 1 - i] = true;
        }
        i = i + 1;
    }
    proof {
        assert(final(gal).ac1@ =~= spec_tristate_ac1(old(gal).ac1@, views, com_is_tri));
    }
}

/// The XOR bits once every active-high output is marked (bit `k`
/// belongs to OLMC `len - 1 - k`).
pub open spec fn spec_xor_bits(xor: Seq<bool>, olmcs: Seq<OlmcView>) -> Seq<bool> {
    Seq::new(
        xor.len(),
        |k: int|
            xor[k] || (0 <= olmcs.len() - 1 - k < olmcs.len() && olmcs[olmcs.len() - 1 - k].output
                is Some && olmcs[olmcs.len() - 1 - k].active == Active::High),
    )
}

/// Mark the XOR bit of every driven, active-high output.
pub fn set_xors(gal: &mut GAL, blueprint: &Blueprint)
    requires
        blueprint.olmcs@.len() == old(gal).xor@.len(),
    ensures
        final(gal).xor@ == spec_xor_bits(
            old(gal).xor@,
            blueprint.olmcs@.map_values(|o: OLMC| o@),
        ),
        final(gal).chip == old(gal).chip,
        final(gal).fuses@ == old(gal).fuses@,
        final(gal).ac1@ == old(gal).ac1@,
        final(gal).sig@ == old(gal).sig@,
        final(gal).pt@ == old(gal).pt@,
        final(gal).syn == old(gal).syn,
        final(gal).ac0 == old(gal).ac0,
{
    let ghost views = blueprint.olmcs@.map_values(|o: OLMC| o@);
    let num_olmcs = blueprint.olmcs.len();
    let mut i: usize = 0;
    while i < num_olmcs
        invariant
            0 <= i <= num_olmcs,
            num_olmcs == views.len(),
            views == blueprint.olmcs@.map_values(|o: OLMC| o@),
            gal.xor@.len() == num_olmcs,
            gal.chip == old(gal).chip,
            gal.fuses@ == old(gal).fuses@,
            gal.ac1@ == old(gal).ac1@,
            gal.sig@ == old(gal).sig@,
            gal.pt@ == old(gal).pt@,
            gal.syn == old(gal).syn,
            gal.ac0 == old(gal).ac0,
            forall|k: int|
                0 <= k < num_olmcs ==> gal.xor@[k] == (old(gal).xor@[k] || (0 <= num_olmcs - 1
                    - k < i && views[num_olmcs - 1 - k].output is Some && views[num_olmcs - 1
                    - k].active == Active::High)),
        decreases num_olmcs - i,
    {
        let olmc = &blueprint.olmcs[i];
        let mark = olmc.output.is_some() && match olmc.active {
            Active::High => true,
            Active::Low => false,
        };
        proof {
            assert(views[i as int] == olmc@);
        }
        if mark {
            gal.xor[num_olmcs - 1 - i] = true;
        }
        i = i + 1;
    }
    proof {
        assert(final(gal).xor@ =~= spec_xor_bits(old(gal).xor@, views));
    }
}

/// The V8 PT fuses are unused by this assembler: all set.
pub fn set_pts(gal: &mut GAL)
    ensures
        final(gal).pt@ == Seq::new(old(gal).pt@.len(), |i: int| true),
        final(gal).chip == old(gal).chip,
        final(gal).fuses@ == old(gal).fuses@,
        final(gal).ac1@ == old(gal).ac1@,
        final(gal).sig@ == old(gal).sig@,
        final(gal).xor@ == old(gal).xor@,
        final(gal).syn == old(gal).syn,
        final(gal).ac0 == old(gal).ac0,
{
    let n = gal.pt.len();
    let mut i: usize = 0;
    while i < n
        invariant
            0 <= i <= n,
            n == gal.pt@.len(),
            gal.pt@.len() == old(gal).pt@.len(),
            gal.chip == old(gal).chip,
            gal.fuses@ == old(gal).fuses@,
            gal.ac1@ == old(gal).ac1@,
            gal.sig@ == old(gal).sig@,
            gal.xor@ == old(gal).xor@,
            gal.syn == old(gal).syn,
            gal.ac0 == old(gal).ac0,
            forall|k: int| 0 <= k < i ==> gal.pt@[k] == true,
            forall|k: int| i <= k < n ==> gal.pt@[k] == old(gal).pt@[k],
        decreases n - i,
    {
        gal.pt[i] = true;
        i = i + 1;
    }
    proof {
        assert(final(gal).pt@ =~= Seq::new(old(gal).pt@.len(), |i: int| true));
    }
}

/// The first `.CLK`/`.ARST`/`.APRST` term, which no chip but the
/// GAL20RA10 accepts.
pub open spec fn spec_check_ra10_terms(olmcs: Seq<OlmcView>) -> Option<Error>
    decreases olmcs.len(),
{
    if olmcs.len() == 0 {
        None
    } else {
        match olmcs[0].clock {
            Some(t) => Some(
                Error {
                    code: ErrorCode::DisallowedControl { suffix: OutputSuffix::CLK },
                    line: t.line_num,
                },
            ),
            None => match olmcs[0].arst {
                Some(t) => Some(
                    Error {
                        code: ErrorCode::DisallowedControl { suffix: OutputSuffix::ARST },
                        line: t.line_num,
                    },
                ),
                None => match olmcs[0].aprst {
                    Some(t) => Some(
                        Error {
                            code: ErrorCode::DisallowedControl { suffix: OutputSuffix::APRST },
                            line: t.line_num,
                        },
                    ),
                    None => spec_check_ra10_terms(olmcs.drop_first()),
                },
            },
        }
    }
}

/// Reject the GAL20RA10-only control equations on other chips.
pub fn check_not_gal20ra10(blueprint: &Blueprint) -> (r: Result<(), Error>)
    ensures
        match spec_check_ra10_terms(blueprint.olmcs@.map_values(|o: OLMC| o@)) {
            None => r == Ok::<(), Error>(()),
            Some(e) => r == Err::<(), Error>(e),
        },
{
    let ghost views = blueprint.olmcs@.map_values(|o: OLMC| o@);
    let n = blueprint.olmcs.len();
    let mut i: usize = 0;
    proof {
        assert(views.skip(0) =~= views);
    }
    while i < n
        invariant
            0 <= i <= n,
            n == views.len(),
            views == blueprint.olmcs@.map_values(|o: OLMC| o@),
            spec_check_ra10_terms(views) == spec_check_ra10_terms(views.skip(i as int)),
        decreases n - i,
    {
        proof {
            assert(views.skip(i as int)[0] == views[i as int]);
            assert(views.skip(i as int).drop_first() =~= views.skip(i as int + 1));
            assert(views[i as int] == blueprint.olmcs@[i as int]@);
        }
        let olmc = &blueprint.olmcs[i];
        match &olmc.clock {
            Some(term) => {
                return at_line(
                    term.line_num,
                    Err(ErrorCode::DisallowedControl { suffix: OutputSuffix::CLK }),
                );
            },
            None => {},
        }
        match &olmc.arst {
            Some(term) => {
                return at_line(
                    term.line_num,
                    Err(ErrorCode::DisallowedControl { suffix: OutputSuffix::ARST }),
                );
            },
            None => {},
        }
        match &olmc.aprst {
            Some(term) => {
                return at_line(
                    term.line_num,
                    Err(ErrorCode::DisallowedControl { suffix: OutputSuffix::APRST }),
                );
            },
            None => {},
        }
        i = i + 1;
    }
    proof {
        assert(views.skip(n as int) =~= Seq::<OlmcView>::empty());
    }
    Ok(())
}

/// Whether the main output may carry an explicit tristate enable.
pub open spec fn spec_check_tristate(chip: Chip, o: OlmcView) -> Result<(), ErrorCode> {
    match o.output {
        None => Err(ErrorCode::UndefinedOutput { suffix: OutputSuffix::E }),
        Some((PinMode::Registered, _)) => if chip == Chip::GAL16V8 || chip == Chip::GAL20V8 {
            Err(ErrorCode::TristateReg)
        } else {
            Ok(())
        },
        Some((PinMode::Combinatorial, _)) => Err(ErrorCode::UnmatchedTristate),
        Some((PinMode::Tristate, _)) => Ok(()),
    }
}

/// Check that the output is in the right mode for a tristate enable.
pub fn check_tristate(chip: Chip, olmc: &OLMC) -> (r: Result<(), ErrorCode>)
    ensures
        r == spec_check_tristate(chip, olmc@),
{
    match &olmc.output {
        None => Err(ErrorCode::UndefinedOutput { suffix: OutputSuffix::E }),
        Some((PinMode::Registered, _)) => {
            match chip {
                Chip::GAL16V8 | Chip::GAL20V8 => Err(ErrorCode::TristateReg),
                _ => Ok(()),
            }
        },
        Some((PinMode::Combinatorial, _)) => Err(ErrorCode::UnmatchedTristate),
        Some((PinMode::Tristate, _)) => Ok(()),
    }
}

/// A control term demands a registered output behind it.
pub open spec fn spec_check_aux(field: Option<TermView>, o: OlmcView, suffix: OutputSuffix) -> Result<
    (),
    Error,
> {
    match field {
        None => Ok(()),
        Some(t) => match o.output {
            None => Err(Error { code: ErrorCode::UndefinedOutput { suffix }, line: t.line_num }),
            Some((PinMode::Registered, _)) => Ok(()),
            Some(_) => Err(Error { code: ErrorCode::InvalidControl { suffix }, line: t.line_num }),
        },
    }
}

/// Check one GAL20RA10 control term against its output.
pub fn check_aux(field: &Option<crate::gal::Term>, olmc: &OLMC, suffix: OutputSuffix) -> (r: Result<
    (),
    Error,
>)
    ensures
        r == spec_check_aux(
            match *field {
                Some(ref t) => Some(t@),
                None => None,
            },
            olmc@,
            suffix,
        ),
{
    match field {
        Some(term) => at_line(
            term.line_num,
            match &olmc.output {
                None => Err(ErrorCode::UndefinedOutput { suffix }),
                Some((PinMode::Registered, _)) => Ok(()),
                Some(_) => Err(ErrorCode::InvalidControl { suffix }),
            },
        ),
        None => Ok(()),
    }
}

/// Where the main term starts inside its slot: after the enable row
/// where the mode reserves one, after the four control rows on the
/// GAL20RA10.
pub open spec fn spec_adjusted_offset(ctx: FuseCtx, output: Option<(PinMode, TermView)>) -> int {
    match ctx.chip {
        Chip::GAL16V8 | Chip::GAL20V8 => {
            if ctx.get_mode() == Mode::Simple || (output matches Some((PinMode::Registered, _))) {
                0
            } else {
                1
            }
        },
        Chip::GAL22V10 => 1,
        Chip::GAL20RA10 => 4,
    }
}

/// Adjust the bounds of a main term for the rows its slot reserves.
pub fn adjust_main_bounds(gal: &GAL, output: &Option<(PinMode, crate::gal::Term)>, bounds: &Bounds) -> (r:
    Bounds)
    requires
        gal.chip == Chip::GAL16V8 || gal.chip == Chip::GAL20V8 ==> gal.mode_set(),
        bounds.row_offset == 0,
    ensures
        r.start_row == bounds.start_row,
        r.max_row == bounds.max_row,
        r.row_offset == spec_adjusted_offset(
            gal.ctx(),
            match *output {
                Some((m, ref t)) => Some((m, t@)),
                None => None,
            },
        ),
{
    match gal.chip {
        Chip::GAL16V8 | Chip::GAL20V8 => {
            let reg_out = match output {
                Some((PinMode::Registered, _)) => true,
                _ => false,
            };
            if matches!(gal.get_mode(), Mode::Simple) || reg_out {
                *bounds
            } else {
                Bounds { row_offset: 1, ..*bounds }
            }
        },
        Chip::GAL22V10 => Bounds { row_offset: 1, ..*bounds },
        Chip::GAL20RA10 => Bounds { row_offset: 4, ..*bounds },
    }
}

/// The error, if any, of writing one OLMC's main term.
pub open spec fn spec_olmc_main_code(ctx: FuseCtx, o: OlmcView, m: int) -> Option<Error> {
    match o.output {
        Some((_, t)) => {
            let adj = spec_adjusted_offset(ctx, o.output);
            match spec_add_term_code(ctx, t.rows, adj, m, m == adj + 1) {
                Some(e) => Some(Error { code: e, line: t.line_num }),
                None => None,
            }
        },
        None => None,
    }
}

/// The fuse array after one OLMC's main term (rows `[s, s+m)`).
pub open spec fn spec_olmc_main_fuses(ctx: FuseCtx, f: Seq<bool>, o: OlmcView, s: int, m: int) -> Seq<
    bool,
> {
    let cols = ctx.chip.num_cols() as int;
    match o.output {
        Some((_, t)) => {
            let adj = spec_adjusted_offset(ctx, o.output);
            spec_clear_rows(
                spec_apply_products(ctx, f, s, adj, t.rows),
                cols,
                s + adj + t.rows.len(),
                s + m,
            )
        },
        None => spec_clear_rows(f, cols, s, s + m),
    }
}

/// The error, if any, of writing one OLMC's tristate-enable term.
pub open spec fn spec_olmc_enable_code(ctx: FuseCtx, o: OlmcView) -> Option<Error> {
    match o.tri_con {
        None => None,
        Some(t) => match spec_check_tristate(ctx.chip, o) {
            Err(e) => Some(Error { code: e, line: t.line_num }),
            Ok(_) => match spec_add_term_code(ctx, t.rows, 0, 1, true) {
                Some(e) => Some(Error { code: e, line: t.line_num }),
                None => None,
            },
        },
    }
}

/// The fuse array after one OLMC's enable term (row `s` only).
pub open spec fn spec_olmc_enable_fuses(ctx: FuseCtx, f: Seq<bool>, o: OlmcView, s: int) -> Seq<
    bool,
> {
    let cols = ctx.chip.num_cols() as int;
    match o.tri_con {
        None => f,
        Some(t) => spec_clear_rows(
            spec_apply_products(ctx, f, s, 0, t.rows),
            cols,
            s + t.rows.len(),
            s + 1,
        ),
    }
}

/// The main and enable terms of the OLMCs from `i` on, folded in
/// order over the fuse array.
pub open spec fn spec_core_eqns(ctx: FuseCtx, f: Seq<bool>, olmcs: Seq<OlmcView>, i: int) -> Result<
    Seq<bool>,
    Error,
>
    decreases olmcs.len() - i,
{
    if i < 0 || i >= olmcs.len() {
        Ok(f)
    } else {
        let s = ctx.chip.spec_start_row_for_olmc(i as usize) as int;
        let m = ctx.chip.spec_num_rows_for_olmc(i as usize) as int;
        match spec_olmc_main_code(ctx, olmcs[i], m) {
            Some(e) => Err(e),
            None => {
                let f1 = spec_olmc_main_fuses(ctx, f, olmcs[i], s, m);
                match spec_olmc_enable_code(ctx, olmcs[i]) {
                    Some(e) => Err(e),
                    None => {
                        let f2 = spec_olmc_enable_fuses(ctx, f1, olmcs[i], s);
                        spec_core_eqns(ctx, f2, olmcs, i + 1)
                    },
                }
            },
        }
    }
}

/// Write every OLMC's main term and tristate-enable term.
pub fn set_core_eqns(gal: &mut GAL, blueprint: &Blueprint) -> (r: Result<(), Error>)
    requires
        old(gal).wf(),
        old(gal).chip == blueprint.chip,
        blueprint@.valid(),
        old(gal).chip == Chip::GAL16V8 || old(gal).chip == Chip::GAL20V8 ==> old(gal).mode_set(),
    ensures
        final(gal).wf(),
        unchanged_but_fuses(*old(gal), *final(gal)),
        match spec_core_eqns(
            old(gal).ctx(),
            old(gal).fuses@,
            blueprint.olmcs@.map_values(|o: OLMC| o@),
            0,
        ) {
            Ok(f) => r == Ok::<(), Error>(()) && final(gal).fuses@ == f,
            Err(e) => r == Err::<(), Error>(e),
        },
{
    let ghost c0 = gal.ctx();
    let ghost views = blueprint.olmcs@.map_values(|o: OLMC| o@);
    let n = blueprint.olmcs.len();
    let mut i: usize = 0;
    while i < n
        invariant
            0 <= i <= n,
            n == views.len(),
            n == blueprint.chip.num_olmcs(),
            views == blueprint.olmcs@.map_values(|o: OLMC| o@),
            gal.wf(),
            unchanged_but_fuses(*old(gal), *gal),
            gal.ctx() == c0,
            spec_core_eqns(c0, old(gal).fuses@, views, 0) == spec_core_eqns(
                c0,
                gal.fuses@,
                views,
                i as int,
            ),
        decreases n - i,
    {
        proof {
            assert(views[i as int] == blueprint.olmcs@[i as int]@);
            lemma_olmc_rows_in_range(blueprint.chip, i as int);
        }
        let bounds = gal.chip.get_bounds(i);
        let olmc = &blueprint.olmcs[i];
        let ghost f_before = gal.fuses@;
        match &olmc.output {
            Some((_, term)) => {
                let adj_bounds = adjust_main_bounds(gal, &olmc.output, &bounds);
                proof {
                    assert(term@.valid_for(gal.chip));
                    assert(term.valid_for(gal.chip));
                }
                match gal.add_term(term, &adj_bounds) {
                    Ok(_) => {},
                    Err(e) => {
                        return Err(e);
                    },
                }
            },
            None => {
                let ft = false_term(0);
                proof {
                    assert(spec_add_term_code(
                        c0,
                        Seq::<Seq<Pin>>::empty(),
                        0,
                        bounds.max_row as int,
                        bounds.max_row == 1,
                    ) is None);
                }
                match gal.add_term(&ft, &bounds) {
                    Ok(_) => {},
                    Err(e) => {
                        return Err(e);
                    },
                }
                proof {
                    assert(spec_apply_products(
                        c0,
                        f_before,
                        bounds.start_row as int,
                        0,
                        Seq::<Seq<Pin>>::empty(),
                    ) == f_before);
                }
            },
        }
        proof {
            assert(gal.fuses@ == spec_olmc_main_fuses(
                c0,
                f_before,
                views[i as int],
                bounds.start_row as int,
                bounds.max_row as int,
            ));
        }
        let ghost f_mid = gal.fuses@;
        match &olmc.tri_con {
            Some(term) => {
                match at_line(term.line_num, check_tristate(gal.chip, olmc)) {
                    Ok(_) => {},
                    Err(e) => {
                        return Err(e);
                    },
                }
                proof {
                    assert(term@.valid_for(gal.chip));
                    assert(term.valid_for(gal.chip));
                }
                let en_bounds = Bounds { row_offset: 0, max_row: 1, start_row: bounds.start_row };
                match gal.add_term(term, &en_bounds) {
                    Ok(_) => {},
                    Err(e) => {
                        return Err(e);
                    },
                }
            },
            None => {},
        }
        proof {
            assert(gal.fuses@ == spec_olmc_enable_fuses(
                c0,
                f_mid,
                views[i as int],
                bounds.start_row as int,
            ));
            assert(spec_core_eqns(c0, f_before, views, i as int) == spec_core_eqns(
                c0,
                gal.fuses@,
                views,
                i + 1,
            ));
        }
        i = i + 1;
    }
    Ok(())
}

/// The error, if any, of an optional term in rows `[off, max)` of a
/// slot (a single row everywhere this is used).
pub open spec fn spec_opt_single_code(ctx: FuseCtx, t: Option<TermView>, off: int, max: int) -> Option<
    Error,
> {
    match t {
        None => None,
        Some(tv) => match spec_add_term_code(ctx, tv.rows, off, max, max == off + 1) {
            Some(e) => Some(Error { code: e, line: tv.line_num }),
            None => None,
        },
    }
}

/// The fuse array after an optional term is written into rows
/// `[off, max)` of the slot at `s`; an absent term zeroes the rows.
pub open spec fn spec_opt_single_fuses(
    ctx: FuseCtx,
    f: Seq<bool>,
    t: Option<TermView>,
    s: int,
    off: int,
    max: int,
) -> Seq<bool> {
    let cols = ctx.chip.num_cols() as int;
    match t {
        None => spec_clear_rows(f, cols, s + off, s + max),
        Some(tv) => spec_clear_rows(
            spec_apply_products(ctx, f, s, off, tv.rows),
            cols,
            s + off + tv.rows.len(),
            s + max,
        ),
    }
}

/// The GAL22V10 global rows: AR at fuse row 0, SP at fuse row 131.
pub open spec fn spec_arsp_eqns(
    ctx: FuseCtx,
    f: Seq<bool>,
    ar: Option<TermView>,
    sp: Option<TermView>,
) -> Result<Seq<bool>, Error> {
    match spec_opt_single_code(ctx, ar, 0, 1) {
        Some(e) => Err(e),
        None => {
            let f1 = spec_opt_single_fuses(ctx, f, ar, 0, 0, 1);
            match spec_opt_single_code(ctx, sp, 0, 1) {
                Some(e) => Err(e),
                None => Ok(spec_opt_single_fuses(ctx, f1, sp, 131, 0, 1)),
            }
        },
    }
}

/// Write the AR and SP terms, unique to the GAL22V10.
pub fn set_arsp_eqns(gal: &mut GAL, blueprint: &Blueprint) -> (r: Result<(), Error>)
    requires
        old(gal).wf(),
        old(gal).chip == Chip::GAL22V10,
        old(gal).chip == blueprint.chip,
        blueprint@.valid(),
    ensures
        final(gal).wf(),
        unchanged_but_fuses(*old(gal), *final(gal)),
        match spec_arsp_eqns(old(gal).ctx(), old(gal).fuses@, blueprint@.ar, blueprint@.sp) {
            Ok(f) => r == Ok::<(), Error>(()) && final(gal).fuses@ == f,
            Err(e) => r == Err::<(), Error>(e),
        },
{
    let ghost c0 = gal.ctx();
    let ar_bounds = Bounds { start_row: 0, max_row: 1, row_offset: 0 };
    match gal.add_term_opt(&blueprint.ar, &ar_bounds) {
        Ok(_) => {},
        Err(e) => {
            return Err(e);
        },
    }
    let sp_bounds = Bounds { start_row: 131, max_row: 1, row_offset: 0 };
    match gal.add_term_opt(&blueprint.sp, &sp_bounds) {
        Ok(_) => {},
        Err(e) => {
            return Err(e);
        },
    }
    Ok(())
}

/// The GAL20RA10 control rows of the OLMCs from `i` on: the
/// asynchronous reset and preset rows of each registered output, the
/// missing-clock check, and the clock row of every driven output.
pub open spec fn spec_aux_eqns(ctx: FuseCtx, f: Seq<bool>, olmcs: Seq<OlmcView>, i: int) -> Result<
    Seq<bool>,
    Error,
>
    decreases olmcs.len() - i,
{
    if i < 0 || i >= olmcs.len() {
        Ok(f)
    } else {
        let o = olmcs[i];
        let s = ctx.chip.spec_start_row_for_olmc(i as usize) as int;
        match spec_check_aux(o.clock, o, OutputSuffix::CLK) {
            Err(e) => Err(e),
            Ok(_) => match spec_check_aux(o.arst, o, OutputSuffix::ARST) {
                Err(e) => Err(e),
                Ok(_) => match spec_check_aux(o.aprst, o, OutputSuffix::APRST) {
                    Err(e) => Err(e),
                    Ok(_) => {
                        let reg = o.output matches Some((PinMode::Registered, _));
                        match (if reg {
                            spec_opt_single_code(ctx, o.arst, 2, 3)
                        } else {
                            None
                        }) {
                            Some(e) => Err(e),
                            None => {
                                let f1 = if reg {
                                    spec_opt_single_fuses(ctx, f, o.arst, s, 2, 3)
                                } else {
                                    f
                                };
                                match (if reg {
                                    spec_opt_single_code(ctx, o.aprst, 3, 4)
                                } else {
                                    None
                                }) {
                                    Some(e) => Err(e),
                                    None => {
                                        let f2 = if reg {
                                            spec_opt_single_fuses(ctx, f1, o.aprst, s, 3, 4)
                                        } else {
                                            f1
                                        };
                                        if reg && o.clock is None {
                                            match o.output {
                                                Some((_, t)) => Err(
                                                    Error { code: ErrorCode::NoCLK, line: t.line_num },
                                                ),
                                                None => Ok(f2),
                                            }
                                        } else {
                                            match (if o.output is Some {
                                                spec_opt_single_code(ctx, o.clock, 1, 2)
                                            } else {
                                                None
                                            }) {
                                                Some(e) => Err(e),
                                                None => {
                                                    let f3 = if o.output is Some {
                                                        spec_opt_single_fuses(ctx, f2, o.clock, s, 1, 2)
                                                    } else {
                                                        f2
                                                    };
                                                    spec_aux_eqns(ctx, f3, olmcs, i + 1)
                                                },
                                            }
                                        }
                                    },
                                }
                            },
                        }
                    },
                },
            },
        }
    }
}

/// Write the CLK, ARST and APRST rows, only used by the GAL20RA10.
pub fn set_aux_eqns(gal: &mut GAL, blueprint: &Blueprint) -> (r: Result<(), Error>)
    requires
        old(gal).wf(),
        old(gal).chip == Chip::GAL20RA10,
        old(gal).chip == blueprint.chip,
        blueprint@.valid(),
    ensures
        final(gal).wf(),
        unchanged_but_fuses(*old(gal), *final(gal)),
        match spec_aux_eqns(
            old(gal).ctx(),
            old(gal).fuses@,
            blueprint.olmcs@.map_values(|o: OLMC| o@),
            0,
        ) {
            Ok(f) => r == Ok::<(), Error>(()) && final(gal).fuses@ == f,
            Err(e) => r == Err::<(), Error>(e),
        },
{
    let ghost c0 = gal.ctx();
    let ghost views = blueprint.olmcs@.map_values(|o: OLMC| o@);
    let n = blueprint.olmcs.len();
    let mut i: usize = 0;
    while i < n
        invariant
            0 <= i <= n,
            n == views.len(),
            n == blueprint.chip.num_olmcs(),
            views == blueprint.olmcs@.map_values(|o: OLMC| o@),
            gal.wf(),
            unchanged_but_fuses(*old(gal), *gal),
            gal.ctx() == c0,
            spec_aux_eqns(c0, old(gal).fuses@, views, 0) == spec_aux_eqns(
                c0,
                gal.fuses@,
                views,
                i as int,
            ),
        decreases n - i,
    {
        proof {
            assert(views[i as int] == blueprint.olmcs@[i as int]@);
            lemma_olmc_rows_in_range(blueprint.chip, i as int);
        }
        let bounds = gal.chip.get_bounds(i);
        let olmc = &blueprint.olmcs[i];
        let ghost f_before = gal.fuses@;

        match check_aux(&olmc.clock, olmc, OutputSuffix::CLK) {
            Ok(_) => {},
            Err(e) => {
                return Err(e);
            },
        }
        match check_aux(&olmc.arst, olmc, OutputSuffix::ARST) {
            Ok(_) => {},
            Err(e) => {
                return Err(e);
            },
        }
        match check_aux(&olmc.aprst, olmc, OutputSuffix::APRST) {
            Ok(_) => {},
            Err(e) => {
                return Err(e);
            },
        }
        match &olmc.output {
            Some((PinMode::Registered, term)) => {
                let arst_bounds = Bounds {
                    row_offset: 2,
                    max_row: 3,
                    start_row: bounds.start_row,
                };
                match gal.add_term_opt(&olmc.arst, &arst_bounds) {
                    Ok(_) => {},
                    Err(e) => {
                        return Err(e);
                    },
                }
                let aprst_bounds = Bounds {
                    row_offset: 3,
                    max_row: 4,
                    start_row: bounds.start_row,
                };
                match gal.add_term_opt(&olmc.aprst, &aprst_bounds) {
                    Ok(_) => {},
                    Err(e) => {
                        return Err(e);
                    },
                }
                if olmc.clock.is_none() {
                    return at_line(term.line_num, Err(ErrorCode::NoCLK));
                }
            },
            _ => {},
        }
        let ghost f_two = gal.fuses@;
        if olmc.output.is_some() {
            let clock_bounds = Bounds { row_offset: 1, max_row: 2, start_row: bounds.start_row };
            match gal.add_term_opt(&olmc.clock, &clock_bounds) {
                Ok(_) => {},
                Err(e) => {
                    return Err(e);
                },
            }
        }
        proof {
            assert(spec_aux_eqns(c0, f_before, views, i as int) == spec_aux_eqns(
                c0,
                gal.fuses@,
                views,
                i + 1,
            ));
        }
        i = i + 1;
    }
    Ok(())
}

/// Burn the analysed mode into a GAL16V8/20V8.
fn set_mode(gal: &mut GAL, blueprint: &Blueprint)
    requires
        old(gal).chip == Chip::GAL16V8 || old(gal).chip == Chip::GAL20V8,
        blueprint.olmcs@.len() == 8,
    ensures
        final(gal).spec_get_mode() == spec_mode_v8(blueprint.olmcs@.map_values(|o: OLMC| o@)),
        final(gal).mode_set(),
        final(gal).syn == (spec_mode_v8(blueprint.olmcs@.map_values(|o: OLMC| o@))
            != Mode::Registered),
        final(gal).ac0 == (spec_mode_v8(blueprint.olmcs@.map_values(|o: OLMC| o@)) != Mode::Simple),
        final(gal).chip == old(gal).chip,
        final(gal).fuses@ == old(gal).fuses@,
        final(gal).xor@ == old(gal).xor@,
        final(gal).sig@ == old(gal).sig@,
        final(gal).ac1@ == old(gal).ac1@,
        final(gal).pt@ == old(gal).pt@,
{
    crate::olmc::analyse_mode_v8(gal, blueprint.olmcs.as_slice());
}

/// The fresh fuse state every path starts from.
pub open spec fn spec_gal_new(chip: Chip) -> GalView {
    GalView {
        chip,
        fuses: Seq::new(chip.logic_size() as nat, |i: int| true),
        xor: Seq::new(chip.num_olmcs() as nat, |i: int| false),
        sig: Seq::new(64, |i: int| false),
        ac1: Seq::new(chip.num_olmcs() as nat, |i: int| false),
        pt: Seq::new(64, |i: int| false),
        syn: false,
        ac0: false,
    }
}

/// The whole GAL16V8/20V8 result: reject the GAL20RA10 controls,
/// write the signature, analyse the mode, mark the tristates, write
/// the terms, mark the XOR bits, set the unused PT fuses.
pub open spec fn spec_build_v8(bp: BlueprintView) -> Result<GalView, Error> {
    let g = spec_gal_new(bp.chip);
    match spec_check_ra10_terms(bp.olmcs) {
        Some(e) => Err(e),
        None => {
            let g1 = GalView { sig: spec_sig_bits(g.sig, bp.sig), ..g };
            let mode = spec_mode_v8(bp.olmcs);
            let g2 = GalView { syn: mode != Mode::Registered, ac0: mode != Mode::Simple, ..g1 };
            let g3 = GalView {
                ac1: spec_tristate_ac1(g2.ac1, bp.olmcs, mode != Mode::Simple),
                ..g2
            };
            match spec_core_eqns(g3.ctx(), g3.fuses, bp.olmcs, 0) {
                Err(e) => Err(e),
                Ok(f) => {
                    let g4 = GalView { fuses: f, ..g3 };
                    let g5 = GalView { xor: spec_xor_bits(g4.xor, bp.olmcs), ..g4 };
                    Ok(GalView { pt: Seq::new(64, |i: int| true), ..g5 })
                },
            }
        },
    }
}

/// The whole GAL22V10 result: combinatorial outputs count as
/// tristate, and the global AR/SP rows follow the main terms.
pub open spec fn spec_build_22v10(bp: BlueprintView) -> Result<GalView, Error> {
    let g = spec_gal_new(bp.chip);
    match spec_check_ra10_terms(bp.olmcs) {
        Some(e) => Err(e),
        None => {
            let g1 = GalView { sig: spec_sig_bits(g.sig, bp.sig), ..g };
            let g2 = GalView { ac1: spec_tristate_ac1(g1.ac1, bp.olmcs, true), ..g1 };
            match spec_core_eqns(g2.ctx(), g2.fuses, bp.olmcs, 0) {
                Err(e) => Err(e),
                Ok(f) => match spec_arsp_eqns(g2.ctx(), f, bp.ar, bp.sp) {
                    Err(e) => Err(e),
                    Ok(f2) => Ok(
                        GalView { fuses: f2, xor: spec_xor_bits(g2.xor, bp.olmcs), ..g2 },
                    ),
                },
            }
        },
    }
}

/// The whole GAL20RA10 result: main terms, then the per-OLMC control
/// rows, then the XOR bits.
pub open spec fn spec_build_20ra10(bp: BlueprintView) -> Result<GalView, Error> {
    let g = spec_gal_new(bp.chip);
    let g1 = GalView { sig: spec_sig_bits(g.sig, bp.sig), ..g };
    match spec_core_eqns(g1.ctx(), g1.fuses, bp.olmcs, 0) {
        Err(e) => Err(e),
        Ok(f) => match spec_aux_eqns(g1.ctx(), f, bp.olmcs, 0) {
            Err(e) => Err(e),
            Ok(f2) => Ok(GalView { fuses: f2, xor: spec_xor_bits(g1.xor, bp.olmcs), ..g1 }),
        },
    }
}

/// What `build` produces for a blueprint.
pub open spec fn spec_build(bp: BlueprintView) -> Result<GalView, Error> {
    match bp.chip {
        Chip::GAL16V8 | Chip::GAL20V8 => spec_build_v8(bp),
        Chip::GAL22V10 => spec_build_22v10(bp),
        Chip::GAL20RA10 => spec_build_20ra10(bp),
    }
}

fn build_galxv8(gal: &mut GAL, blueprint: &Blueprint) -> (r: Result<(), Error>)
    requires
        old(gal)@ == spec_gal_new(blueprint.chip),
        old(gal).chip == Chip::GAL16V8 || old(gal).chip == Chip::GAL20V8,
        blueprint@.valid(),
    ensures
        final(gal).wf(),
        match spec_build_v8(blueprint@) {
            Ok(gv) => r == Ok::<(), Error>(()) && final(gal)@ == gv,
            Err(e) => r == Err::<(), Error>(e),
        },
{
    proof {
        assert(gal.wf());
        assert(blueprint@.olmcs =~= blueprint.olmcs@.map_values(|o: OLMC| o@));
    }
    match check_not_gal20ra10(blueprint) {
        Ok(_) => {},
        Err(e) => {
            return Err(e);
        },
    }
    set_sig(gal, blueprint);
    set_mode(gal, blueprint);
    // Combinatorial expressions are implemented as tristates outside
    // Simple mode.
    let com_is_tri = match gal.get_mode() {
        Mode::Simple => false,
        _ => true,
    };
    set_tristate(gal, blueprint, com_is_tri);
    match set_core_eqns(gal, blueprint) {
        Ok(_) => {},
        Err(e) => {
            return Err(e);
        },
    }
    set_xors(gal, blueprint);
    set_pts(gal);
    proof {
        let gv = spec_build_v8(blueprint@)->Ok_0;
        assert(final(gal)@.sig =~= gv.sig);
        assert(final(gal)@.ac1 =~= gv.ac1);
        assert(final(gal)@.xor =~= gv.xor);
        assert(final(gal)@.pt =~= gv.pt);
        assert(final(gal)@ == gv);
    }
    Ok(())
}

fn build_gal22v10(gal: &mut GAL, blueprint: &Blueprint) -> (r: Result<(), Error>)
    requires
        old(gal)@ == spec_gal_new(blueprint.chip),
        old(gal).chip == Chip::GAL22V10,
        blueprint@.valid(),
    ensures
        final(gal).wf(),
        match spec_build_22v10(blueprint@) {
            Ok(gv) => r == Ok::<(), Error>(()) && final(gal)@ == gv,
            Err(e) => r == Err::<(), Error>(e),
        },
{
    proof {
        assert(gal.wf());
        assert(blueprint@.olmcs =~= blueprint.olmcs@.map_values(|o: OLMC| o@));
    }
    match check_not_gal20ra10(blueprint) {
        Ok(_) => {},
        Err(e) => {
            return Err(e);
        },
    }
    set_sig(gal, blueprint);
    // The AC1 bits must be in place before the terms are written: the
    // registered-feedback flip reads them.
    set_tristate(gal, blueprint, true);
    match set_core_eqns(gal, blueprint) {
        Ok(_) => {},
        Err(e) => {
            return Err(e);
        },
    }
    match set_arsp_eqns(gal, blueprint) {
        Ok(_) => {},
        Err(e) => {
            return Err(e);
        },
    }
    set_xors(gal, blueprint);
    proof {
        let gv = spec_build_22v10(blueprint@)->Ok_0;
        assert(final(gal)@.sig =~= gv.sig);
        assert(final(gal)@.ac1 =~= gv.ac1);
        assert(final(gal)@.xor =~= gv.xor);
        assert(final(gal)@.pt =~= gv.pt);
        assert(final(gal)@ == gv);
    }
    Ok(())
}

fn build_gal20ra10(gal: &mut GAL, blueprint: &Blueprint) -> (r: Result<(), Error>)
    requires
        old(gal)@ == spec_gal_new(blueprint.chip),
        old(gal).chip == Chip::GAL20RA10,
        blueprint@.valid(),
    ensures
        final(gal).wf(),
        match spec_build_20ra10(blueprint@) {
            Ok(gv) => r == Ok::<(), Error>(()) && final(gal)@ == gv,
            Err(e) => r == Err::<(), Error>(e),
        },
{
    proof {
        assert(gal.wf());
        assert(blueprint@.olmcs =~= blueprint.olmcs@.map_values(|o: OLMC| o@));
    }
    set_sig(gal, blueprint);
    match set_core_eqns(gal, blueprint) {
        Ok(_) => {},
        Err(e) => {
            return Err(e);
        },
    }
    match set_aux_eqns(gal, blueprint) {
        Ok(_) => {},
        Err(e) => {
            return Err(e);
        },
    }
    set_xors(gal, blueprint);
    proof {
        let gv = spec_build_20ra10(blueprint@)->Ok_0;
        assert(final(gal)@.sig =~= gv.sig);
        assert(final(gal)@.ac1 =~= gv.ac1);
        assert(final(gal)@.xor =~= gv.xor);
        assert(final(gal)@.pt =~= gv.pt);
        assert(final(gal)@ == gv);
    }
    Ok(())
}

/// Construct the fuse state a blueprint describes.
pub fn build(blueprint: &Blueprint) -> (r: Result<GAL, Error>)
    requires
        blueprint@.valid(),
    ensures
        match spec_build(blueprint@) {
            Ok(gv) => r matches Ok(g) && g@ == gv && g.wf(),
            Err(e) => r matches Err(e2) && e2 == e,
        },
{
    let mut gal = GAL::new(blueprint.chip);
    proof {
        assert(gal@.fuses =~= spec_gal_new(blueprint.chip).fuses);
        assert(gal@.xor =~= spec_gal_new(blueprint.chip).xor);
        assert(gal@.sig =~= spec_gal_new(blueprint.chip).sig);
        assert(gal@.ac1 =~= spec_gal_new(blueprint.chip).ac1);
        assert(gal@.pt =~= spec_gal_new(blueprint.chip).pt);
        assert(gal@ == spec_gal_new(blueprint.chip));
    }
    let res = match gal.chip {
        Chip::GAL16V8 | Chip::GAL20V8 => build_galxv8(&mut gal, blueprint),
        Chip::GAL22V10 => build_gal22v10(&mut gal, blueprint),
        Chip::GAL20RA10 => build_gal20ra10(&mut gal, blueprint),
    };
    match res {
        Ok(_) => Ok(gal),
        Err(e) => Err(e),
    }
}

} // verus!
