//! The assembly-ready middle form.
//!
//! A `Blueprint` collapses the parsed equations into one record per
//! OLMC: the output term with its mode and polarity, the optional
//! control terms, and the feedback flag, plus the global AR/SP terms
//! of the GAL22V10.  `add_equation` steers one equation to its OLMC
//! and enforces the language rules (no duplicate outputs or controls,
//! no negated controls, `/VCC`/`/GND` rejected).

use vstd::prelude::*;

use crate::chips::Chip;
use crate::errors::{at_line, Error, ErrorCode, OutputSuffix, SpecialProductTerm};
use crate::gal::{false_term, true_term, Pin, Term};
use crate::parser::{Content, ContentView, Equation, EquationView, Suffix, LHS};

verus! {

/// The polarity of an output, from the negation of its base equation.
#[derive(Clone, Copy, Debug, PartialEq, Eq, Structural)]
pub enum Active {
    Low,
    High,
}

/// How an output drives its pin.
#[derive(Clone, Copy, Debug, PartialEq, Eq, Structural)]
pub enum PinMode {
    Combinatorial,
    Tristate,
    Registered,
}

/// The configuration gathered for one output logic macrocell.
#[derive(Clone, Debug)]
pub struct OLMC {
    pub active: Active,
    pub output: Option<(PinMode, Term)>,
    pub tri_con: Option<Term>,
    pub clock: Option<Term>,
    pub arst: Option<Term>,
    pub aprst: Option<Term>,
    pub feedback: bool,
}

/// The mathematical content of a `Term`.
pub struct TermView {
    pub line_num: usize,
    pub rows: Seq<Seq<Pin>>,
}

impl View for Term {
    type V = TermView;

    open spec fn view(&self) -> TermView {
        TermView { line_num: self.line_num, rows: self.spec_rows() }
    }
}

impl TermView {
    pub open spec fn valid_for(self, chip: Chip) -> bool {
        forall|k: int, j: int|
            0 <= k < self.rows.len() && 0 <= j < self.rows[k].len() ==> 1 <= (
            #[trigger] self.rows[k][j]).pin <= chip.num_pins()
    }
}

/// The mathematical content of an `OLMC`.
pub struct OlmcView {
    pub active: Active,
    pub output: Option<(PinMode, TermView)>,
    pub tri_con: Option<TermView>,
    pub clock: Option<TermView>,
    pub arst: Option<TermView>,
    pub aprst: Option<TermView>,
    pub feedback: bool,
}

impl View for OLMC {
    type V = OlmcView;

    open spec fn view(&self) -> OlmcView {
        OlmcView {
            active: self.active,
            output: match self.output {
                Some((m, t)) => Some((m, t@)),
                None => None,
            },
            tri_con: match self.tri_con {
                Some(t) => Some(t@),
                None => None,
            },
            clock: match self.clock {
                Some(t) => Some(t@),
                None => None,
            },
            arst: match self.arst {
                Some(t) => Some(t@),
                None => None,
            },
            aprst: match self.aprst {
                Some(t) => Some(t@),
                None => None,
            },
            feedback: self.feedback,
        }
    }
}

impl OlmcView {
    pub open spec fn valid_for(self, chip: Chip) -> bool {
        &&& self.output matches Some((_, t)) ==> t.valid_for(chip)
        &&& self.tri_con matches Some(t) ==> t.valid_for(chip)
        &&& self.clock matches Some(t) ==> t.valid_for(chip)
        &&& self.arst matches Some(t) ==> t.valid_for(chip)
        &&& self.aprst matches Some(t) ==> t.valid_for(chip)
    }
}

/// The macrocell before any equation has touched it.
pub open spec fn spec_initial_olmc() -> OlmcView {
    OlmcView {
        active: Active::Low,
        output: None,
        tri_con: None,
        clock: None,
        arst: None,
        aprst: None,
        feedback: false,
    }
}

/// Everything needed to construct the GAL.
pub struct Blueprint {
    pub chip: Chip,
    pub sig: Vec<u8>,
    pub pins: Vec<String>,
    pub olmcs: Vec<OLMC>,
    pub ar: Option<Term>,
    pub sp: Option<Term>,
}

/// The mathematical content of a `Blueprint`.
pub struct BlueprintView {
    pub chip: Chip,
    pub sig: Seq<u8>,
    pub pins: Seq<Seq<char>>,
    pub olmcs: Seq<OlmcView>,
    pub ar: Option<TermView>,
    pub sp: Option<TermView>,
}

impl View for Blueprint {
    type V = BlueprintView;

    open spec fn view(&self) -> BlueprintView {
        BlueprintView {
            chip: self.chip,
            sig: self.sig@,
            pins: self.pins@.map_values(|s: String| s@),
            olmcs: self.olmcs@.map_values(|o: OLMC| o@),
            ar: match self.ar {
                Some(t) => Some(t@),
                None => None,
            },
            sp: match self.sp {
                Some(t) => Some(t@),
                None => None,
            },
        }
    }
}

impl BlueprintView {
    /// OLMC count and pin numbers as the pipeline guarantees them.
    pub open spec fn valid(self) -> bool {
        &&& self.olmcs.len() == self.chip.num_olmcs()
        &&& forall|i: int|
            0 <= i < self.olmcs.len() ==> (#[trigger] self.olmcs[i]).valid_for(self.chip)
        &&& self.ar matches Some(t) ==> t.valid_for(self.chip)
        &&& self.sp matches Some(t) ==> t.valid_for(self.chip)
    }
}

/// A fresh blueprint: every OLMC in its initial state.
pub open spec fn spec_blueprint_new(chip: Chip) -> BlueprintView {
    BlueprintView {
        chip,
        sig: Seq::empty(),
        pins: Seq::empty(),
        olmcs: Seq::new(chip.num_olmcs() as nat, |i: int| spec_initial_olmc()),
        ar: None,
        sp: None,
    }
}

/// Whether some pin of `rhs` reads OLMC `i` back.
pub open spec fn rhs_feeds(chip: Chip, rhs: Seq<Pin>, i: int) -> bool {
    exists|j: int|
        0 <= j < rhs.len() && chip.spec_pin_to_olmc((#[trigger] rhs[j]).pin) == Some(i as usize)
}

/// Mark every OLMC that the right-hand side reads as feeding back.
pub open spec fn spec_mark_feedback(chip: Chip, olmcs: Seq<OlmcView>, rhs: Seq<Pin>) -> Seq<
    OlmcView,
> {
    Seq::new(
        olmcs.len(),
        |i: int|
            OlmcView {
                feedback: olmcs[i].feedback || rhs_feeds(chip, rhs, i),
                ..olmcs[i]
            },
    )
}

/// The product groups of an equation body, split at the OR marks.
pub open spec fn spec_group_step(
    rhs: Seq<Pin>,
    is_or: Seq<bool>,
    i: int,
    ors: Seq<Seq<Pin>>,
    ands: Seq<Pin>,
) -> Seq<Seq<Pin>>
    decreases rhs.len() - i,
{
    if i < 0 || i >= rhs.len() {
        ors.push(ands)
    } else if is_or[i] {
        spec_group_step(rhs, is_or, i + 1, ors.push(ands), seq![rhs[i]])
    } else {
        spec_group_step(rhs, is_or, i + 1, ors, ands.push(rhs[i]))
    }
}

pub open spec fn spec_groups(rhs: Seq<Pin>, is_or: Seq<bool>) -> Seq<Seq<Pin>> {
    spec_group_step(rhs, is_or, 0, Seq::empty(), Seq::empty())
}

/// The term of an equation body: `VCC` alone is constant true, `GND`
/// alone is constant false (negating either is `InvertedPower`), and
/// anything else is its product groups.
pub open spec fn spec_eqn_term(chip: Chip, e: EquationView) -> Result<TermView, ErrorCode> {
    if e.rhs.len() == 1 && e.rhs[0].pin == chip.num_pins() {
        if e.rhs[0].neg {
            Err(ErrorCode::InvertedPower)
        } else {
            Ok(TermView { line_num: e.line_num, rows: seq![Seq::<Pin>::empty()] })
        }
    } else if e.rhs.len() == 1 && e.rhs[0].pin == chip.num_pins() / 2 {
        if e.rhs[0].neg {
            Err(ErrorCode::InvertedPower)
        } else {
            Ok(TermView { line_num: e.line_num, rows: Seq::empty() })
        }
    } else {
        Ok(TermView { line_num: e.line_num, rows: spec_groups(e.rhs, e.is_or) })
    }
}

/// Base definition of an output: fails once the output exists.
pub open spec fn spec_set_base(o: OlmcView, pin: Pin, t: TermView, m: PinMode) -> Result<
    OlmcView,
    ErrorCode,
> {
    if o.output is Some {
        Err(ErrorCode::RepeatedOutput)
    } else {
        Ok(
            OlmcView {
                output: Some((m, t)),
                active: if pin.neg {
                    Active::Low
                } else {
                    Active::High
                },
                ..o
            },
        )
    }
}

/// A control equation: never negated, never repeated.
pub open spec fn spec_set_control(
    o: OlmcView,
    pin: Pin,
    t: TermView,
    suffix: OutputSuffix,
) -> Result<OlmcView, ErrorCode> {
    if pin.neg {
        Err(ErrorCode::InvertedControl { suffix })
    } else if (match suffix {
        OutputSuffix::E => o.tri_con,
        OutputSuffix::CLK => o.clock,
        OutputSuffix::ARST => o.arst,
        OutputSuffix::APRST => o.aprst,
    }) is Some {
        Err(ErrorCode::RepeatedControl { suffix })
    } else {
        Ok(
            match suffix {
                OutputSuffix::E => OlmcView { tri_con: Some(t), ..o },
                OutputSuffix::CLK => OlmcView { clock: Some(t), ..o },
                OutputSuffix::ARST => OlmcView { arst: Some(t), ..o },
                OutputSuffix::APRST => OlmcView { aprst: Some(t), ..o },
            },
        )
    }
}

/// One equation folded into the blueprint.  The feedback marks are
/// applied first; on error the blueprint keeps them and nothing else.
pub open spec fn spec_add_equation(chip: Chip, bv: BlueprintView, e: EquationView) -> Result<
    BlueprintView,
    ErrorCode,
> {
    let marked = BlueprintView { olmcs: spec_mark_feedback(chip, bv.olmcs, e.rhs), ..bv };
    match spec_eqn_term(chip, e) {
        Err(er) => Err(er),
        Ok(t) => match e.lhs {
            LHS::Ar => if bv.ar is Some {
                Err(ErrorCode::RepeatedSpecial { term: SpecialProductTerm::AR })
            } else {
                Ok(BlueprintView { ar: Some(t), ..marked })
            },
            LHS::Sp => if bv.sp is Some {
                Err(ErrorCode::RepeatedSpecial { term: SpecialProductTerm::SP })
            } else {
                Ok(BlueprintView { sp: Some(t), ..marked })
            },
            LHS::Pin((pin, suffix)) => match chip.spec_pin_to_olmc(pin.pin) {
                None => Err(ErrorCode::NotAnOutput),
                Some(n) => {
                    let res = match suffix {
                        Suffix::R => spec_set_base(marked.olmcs[n as int], pin, t, PinMode::Registered),
                        Suffix::Plain => spec_set_base(
                            marked.olmcs[n as int],
                            pin,
                            t,
                            PinMode::Combinatorial,
                        ),
                        Suffix::T => spec_set_base(marked.olmcs[n as int], pin, t, PinMode::Tristate),
                        Suffix::E => spec_set_control(marked.olmcs[n as int], pin, t, OutputSuffix::E),
                        Suffix::CLK => spec_set_control(
                            marked.olmcs[n as int],
                            pin,
                            t,
                            OutputSuffix::CLK,
                        ),
                        Suffix::ARST => spec_set_control(
                            marked.olmcs[n as int],
                            pin,
                            t,
                            OutputSuffix::ARST,
                        ),
                        Suffix::APRST => spec_set_control(
                            marked.olmcs[n as int],
                            pin,
                            t,
                            OutputSuffix::APRST,
                        ),
                    };
                    match res {
                        Err(er) => Err(er),
                        Ok(o2) => Ok(
                            BlueprintView { olmcs: marked.olmcs.update(n as int, o2), ..marked },
                        ),
                    }
                },
            },
        },
    }
}

/// The feedback-marked blueprint an equation leaves behind on error.
pub open spec fn spec_marked(chip: Chip, bv: BlueprintView, e: EquationView) -> BlueprintView {
    BlueprintView { olmcs: spec_mark_feedback(chip, bv.olmcs, e.rhs), ..bv }
}

/// The equations folded in order, stopping at the first error.
pub open spec fn spec_from_rec(chip: Chip, bv: BlueprintView, eqns: Seq<EquationView>) -> Result<
    BlueprintView,
    Error,
>
    decreases eqns.len(),
{
    if eqns.len() == 0 {
        Ok(bv)
    } else {
        match spec_add_equation(chip, bv, eqns[0]) {
            Err(e) => Err(Error { code: e, line: eqns[0].line_num }),
            Ok(bv2) => spec_from_rec(chip, bv2, eqns.drop_first()),
        }
    }
}

/// What `Blueprint::from` produces for a parsed file.
pub open spec fn spec_from(c: ContentView) -> Result<BlueprintView, Error> {
    match spec_from_rec(c.chip, spec_blueprint_new(c.chip), c.eqns) {
        Err(e) => Err(e),
        Ok(bv) => Ok(BlueprintView { sig: c.sig, pins: c.pins, ..bv }),
    }
}

impl Blueprint {
    /// A fresh blueprint for the chip, all OLMCs untouched.
    pub fn new(chip: Chip) -> (r: Blueprint)
        ensures
            r@ == spec_blueprint_new(chip),
            r@.valid(),
    {
        let n = chip.num_olmcs();
        let mut olmcs: Vec<OLMC> = Vec::new();
        let mut i: usize = 0;
        while i < n
            invariant
                0 <= i <= n,
                olmcs@.len() == i,
                forall|k: int| 0 <= k < i ==> (#[trigger] olmcs@[k])@ == spec_initial_olmc(),
            decreases n - i,
        {
            olmcs.push(
                OLMC {
                    active: Active::Low,
                    output: None,
                    tri_con: None,
                    clock: None,
                    arst: None,
                    aprst: None,
                    feedback: false,
                },
            );
            i = i + 1;
        }
        let r = Blueprint { chip, sig: Vec::new(), pins: Vec::new(), olmcs, ar: None, sp: None };
        proof {
            assert(r@.olmcs =~= spec_blueprint_new(chip).olmcs);
            assert(r@.pins =~= spec_blueprint_new(chip).pins);
            assert(r@ == spec_blueprint_new(chip));
        }
        r
    }

    /// Fold every equation of the parsed file into a blueprint.
    pub fn from(content: &Content) -> (r: Result<Blueprint, Error>)
        requires
            content@.valid(),
        ensures
            match spec_from(content@) {
                Ok(bv) => r matches Ok(b) && b@ == bv && b@.valid(),
                Err(e) => r matches Err(e2) && e2 == e,
            },
    {
        let mut blueprint = Blueprint::new(content.chip);
        let n = content.eqns.len();
        let ghost eqns = content@.eqns;
        let mut i: usize = 0;
        proof {
            assert(eqns.skip(0) =~= eqns);
        }
        while i < n
            invariant
                0 <= i <= n,
                n == eqns.len(),
                eqns == content@.eqns,
                content@.valid(),
                blueprint.chip == content.chip,
                blueprint@.valid(),
                spec_from_rec(content.chip, spec_blueprint_new(content.chip), eqns)
                    == spec_from_rec(content.chip, blueprint@, eqns.skip(i as int)),
            decreases n - i,
        {
            proof {
                assert(eqns.skip(i as int).len() > 0);
                assert(eqns.skip(i as int)[0] == eqns[i as int]);
                assert(eqns.skip(i as int).drop_first() =~= eqns.skip(i as int + 1));
                assert(content.eqns@[i as int]@ == eqns[i as int]);
            }
            let eqn = &content.eqns[i];
            match at_line(eqn.line_num, blueprint.add_equation(eqn)) {
                Ok(_) => {},
                Err(e) => {
                    return Err(e);
                },
            }
            i = i + 1;
        }
        proof {
            assert(eqns.skip(n as int) =~= Seq::<EquationView>::empty());
        }
        let mut sig_copy: Vec<u8> = Vec::new();
        let mut j: usize = 0;
        let sn = content.sig.len();
        while j < sn
            invariant
                0 <= j <= sn,
                sn == content.sig@.len(),
                sig_copy@ == content.sig@.take(j as int),
            decreases sn - j,
        {
            let b = content.sig[j];
            sig_copy.push(b);
            proof {
                assert(sig_copy@ =~= content.sig@.take(j + 1));
            }
            j = j + 1;
        }
        proof {
            assert(content.sig@.take(sn as int) =~= content.sig@);
        }
        let mut pins_copy: Vec<String> = Vec::new();
        let mut k: usize = 0;
        let pn = content.pins.len();
        while k < pn
            invariant
                0 <= k <= pn,
                pn == content.pins@.len(),
                pins_copy@.len() == k,
                forall|x: int| 0 <= x < k ==> (#[trigger] pins_copy@[x])@ == content.pins@[x]@,
            decreases pn - k,
        {
            let s = content.pins[k].clone();
            pins_copy.push(s);
            k = k + 1;
        }
        blueprint.sig = sig_copy;
        blueprint.pins = pins_copy;
        proof {
            let bv = spec_from(content@);
            assert(blueprint@.pins =~= content@.pins);
            assert(blueprint@ == bv->Ok_0);
        }
        Ok(blueprint)
    }

    /// Steer one equation to the blueprint, marking feedback first.
    pub fn add_equation(&mut self, eqn: &Equation) -> (r: Result<(), ErrorCode>)
        requires
            eqn@.valid_for(old(self).chip),
            old(self)@.valid(),
        ensures
            final(self).chip == old(self).chip,
            final(self)@.valid(),
            match spec_add_equation(old(self).chip, old(self)@, eqn@) {
                Ok(bv) => r == Ok::<(), ErrorCode>(()) && final(self)@ == bv,
                Err(e) => r == Err::<(), ErrorCode>(e) && final(self)@ == spec_marked(
                    old(self).chip,
                    old(self)@,
                    eqn@,
                ),
            },
    {
        let ghost bv0 = self@;
        let chip = self.chip;
        // Mark OLMCs read by this equation as feeding back, whether or
        // not they turn out to be driven.
        let n_inputs = eqn.rhs.len();
        let mut j: usize = 0;
        while j < n_inputs
            invariant
                0 <= j <= n_inputs,
                n_inputs == eqn.rhs@.len(),
                chip == bv0.chip,
                self.chip == bv0.chip,
                old(self)@ == bv0,
                eqn@.valid_for(chip),
                bv0.valid(),
                self@.valid(),
                self.sig@ == bv0.sig,
                self.pins@.map_values(|s: String| s@) == bv0.pins,
                self@.ar == bv0.ar,
                self@.sp == bv0.sp,
                self.olmcs@.len() == bv0.olmcs.len(),
                forall|i: int|
                    0 <= i < bv0.olmcs.len() ==> (#[trigger] self.olmcs@[i])@ == (OlmcView {
                        feedback: bv0.olmcs[i].feedback || rhs_feeds(
                            chip,
                            eqn.rhs@.take(j as int),
                            i,
                        ),
                        ..bv0.olmcs[i]
                    }),
            decreases n_inputs - j,
        {
            let input = eqn.rhs[j];
            match chip.pin_to_olmc(input.pin) {
                Some(i) => {
                    self.olmcs[i].feedback = true;
                },
                None => {},
            }
            proof {
                assert forall|i2: int| 0 <= i2 < bv0.olmcs.len() implies (
                #[trigger] self.olmcs@[i2])@ == (OlmcView {
                    feedback: bv0.olmcs[i2].feedback || rhs_feeds(chip, eqn.rhs@.take(j + 1), i2),
                    ..bv0.olmcs[i2]
                }) by {
                    lemma_rhs_feeds_extend(chip, eqn.rhs@, j as int, i2);
                }
            }
            j = j + 1;
        }
        proof {
            assert(eqn.rhs@.take(n_inputs as int) =~= eqn.rhs@);
            assert(self@.olmcs =~= spec_mark_feedback(chip, bv0.olmcs, eqn.rhs@));
            assert(self@ == spec_marked(chip, bv0, eqn@));
        }

        let term = match eqn_to_term(chip, eqn) {
            Ok(t) => t,
            Err(e) => {
                return Err(e);
            },
        };

        match eqn.lhs {
            LHS::Ar => {
                if self.ar.is_some() {
                    return Err(ErrorCode::RepeatedSpecial { term: SpecialProductTerm::AR });
                }
                self.ar = Some(term);
                Ok(())
            },
            LHS::Sp => {
                if self.sp.is_some() {
                    return Err(ErrorCode::RepeatedSpecial { term: SpecialProductTerm::SP });
                }
                self.sp = Some(term);
                Ok(())
            },
            LHS::Pin((pin, suffix)) => {
                let olmc_num = match chip.pin_to_olmc(pin.pin) {
                    Some(i) => i,
                    None => {
                        return Err(ErrorCode::NotAnOutput);
                    },
                };
                let ghost marked = self@;
                let olmc = &mut self.olmcs[olmc_num];
                let res = match suffix {
                    Suffix::R => olmc.set_base(&pin, term, PinMode::Registered),
                    Suffix::Plain => olmc.set_base(&pin, term, PinMode::Combinatorial),
                    Suffix::T => olmc.set_base(&pin, term, PinMode::Tristate),
                    Suffix::E => olmc.set_enable(&pin, term),
                    Suffix::CLK => olmc.set_clock(&pin, term),
                    Suffix::ARST => olmc.set_arst(&pin, term),
                    Suffix::APRST => olmc.set_aprst(&pin, term),
                };
                proof {
                    assert(self.olmcs@.map_values(|o: OLMC| o@) =~= marked.olmcs.update(
                        olmc_num as int,
                        self.olmcs@[olmc_num as int]@,
                    ));
                    if res is Ok {
                    } else {
                        assert(self@.olmcs =~= marked.olmcs);
                    }
                }
                res
            },
        }
    }
}

proof fn lemma_rhs_feeds_extend(chip: Chip, rhs: Seq<Pin>, j: int, i: int)
    requires
        0 <= j < rhs.len(),
    ensures
        rhs_feeds(chip, rhs.take(j + 1), i) == (rhs_feeds(chip, rhs.take(j), i)
            || chip.spec_pin_to_olmc(rhs[j].pin) == Some(i as usize)),
{
    let a = rhs.take(j);
    let b = rhs.take(j + 1);
    assert(forall|x: int| 0 <= x < j ==> a[x] == rhs[x]);
    assert(b[j] == rhs[j]);
    if rhs_feeds(chip, a, i) {
        let w = choose|w: int|
            0 <= w < a.len() && chip.spec_pin_to_olmc((#[trigger] a[w]).pin) == Some(i as usize);
        assert(b[w] == a[w]);
        assert(rhs_feeds(chip, b, i));
    }
    if chip.spec_pin_to_olmc(rhs[j].pin) == Some(i as usize) {
        assert(rhs_feeds(chip, b, i));
    }
    if rhs_feeds(chip, b, i) {
        let w = choose|w: int|
            0 <= w < b.len() && chip.spec_pin_to_olmc((#[trigger] b[w]).pin) == Some(i as usize);
        if w < j {
            assert(a[w] == b[w]);
            assert(rhs_feeds(chip, a, i));
        } else {
            assert(b[w] == rhs[j]);
        }
    }
}

/// Turn an equation body into a `Term`, handling the `VCC`/`GND`
/// shorthands for constant true and false.
pub fn eqn_to_term(chip: Chip, eqn: &Equation) -> (r: Result<Term, ErrorCode>)
    requires
        eqn@.valid_for(chip),
    ensures
        match spec_eqn_term(chip, eqn@) {
            Ok(tv) => r matches Ok(t) && t@ == tv && t@.valid_for(chip),
            Err(e) => r matches Err(e2) && e2 == e,
        },
{
    if eqn.rhs.len() == 1 {
        let pin = eqn.rhs[0];
        if pin.pin == chip.num_pins() {
            if pin.neg {
                return Err(ErrorCode::InvertedPower);
            }
            let t = true_term(eqn.line_num);
            proof {
                assert(t@.rows =~~= spec_eqn_term(chip, eqn@)->Ok_0.rows);
            }
            return Ok(t);
        } else if pin.pin == chip.num_pins() / 2 {
            if pin.neg {
                return Err(ErrorCode::InvertedPower);
            }
            let t = false_term(eqn.line_num);
            proof {
                assert(t@.rows =~~= spec_eqn_term(chip, eqn@)->Ok_0.rows);
            }
            return Ok(t);
        }
    }

    let n = eqn.rhs.len();
    let mut ors: Vec<Vec<Pin>> = Vec::new();
    let mut ands: Vec<Pin> = Vec::new();
    proof {
        assert(ors@.map_values(|v: Vec<Pin>| v@) =~= Seq::<Seq<Pin>>::empty());
        assert(ands@ =~= Seq::<Pin>::empty());
    }
    let mut i: usize = 0;
    while i < n
        invariant
            0 <= i <= n,
            n == eqn.rhs@.len(),
            eqn@.valid_for(chip),
            spec_groups(eqn.rhs@, eqn.is_or@) == spec_group_step(
                eqn.rhs@,
                eqn.is_or@,
                i as int,
                ors@.map_values(|v: Vec<Pin>| v@),
                ands@,
            ),
            forall|k: int, j: int|
                0 <= k < ors@.len() && 0 <= j < ors@[k]@.len() ==> 1 <= (
                #[trigger] ors@[k]@[j]).pin <= chip.num_pins(),
            forall|j: int| 0 <= j < ands@.len() ==> 1 <= (#[trigger] ands@[j]).pin
                <= chip.num_pins(),
        decreases n - i,
    {
        let ghost orsv = ors@.map_values(|v: Vec<Pin>| v@);
        let ghost andsv = ands@;
        let pin = eqn.rhs[i];
        if eqn.is_or[i] {
            ors.push(ands);
            ands = Vec::new();
            ands.push(pin);
            proof {
                assert(ors@.map_values(|v: Vec<Pin>| v@) =~= orsv.push(andsv));
                assert(ands@ =~= seq![eqn.rhs@[i as int]]);
            }
        } else {
            ands.push(pin);
            proof {
                assert(ands@ =~= andsv.push(eqn.rhs@[i as int]));
            }
        }
        i = i + 1;
    }
    let ghost orsv = ors@.map_values(|v: Vec<Pin>| v@);
    let ghost andsv = ands@;
    ors.push(ands);
    let t = Term { line_num: eqn.line_num, pins: ors };
    proof {
        assert(ors@.map_values(|v: Vec<Pin>| v@) =~= orsv.push(andsv));
        assert(t@.rows == spec_groups(eqn.rhs@, eqn.is_or@));
    }
    Ok(t)
}

impl OLMC {
    /// Define the output itself; `RepeatedOutput` once it exists.
    pub fn set_base(&mut self, pin: &Pin, term: Term, pin_mode: PinMode) -> (r: Result<
        (),
        ErrorCode,
    >)
        ensures
            match spec_set_base(old(self)@, *pin, term@, pin_mode) {
                Ok(o2) => r == Ok::<(), ErrorCode>(()) && final(self)@ == o2,
                Err(e) => r == Err::<(), ErrorCode>(e) && *final(self) == *old(self),
            },
    {
        if self.output.is_some() {
            return Err(ErrorCode::RepeatedOutput);
        }
        self.output = Some((pin_mode, term));
        self.active = if pin.neg {
            Active::Low
        } else {
            Active::High
        };
        Ok(())
    }

    /// Attach the tristate-enable term.
    pub fn set_enable(&mut self, pin: &Pin, term: Term) -> (r: Result<(), ErrorCode>)
        ensures
            match spec_set_control(old(self)@, *pin, term@, OutputSuffix::E) {
                Ok(o2) => r == Ok::<(), ErrorCode>(()) && final(self)@ == o2,
                Err(e) => r == Err::<(), ErrorCode>(e) && *final(self) == *old(self),
            },
    {
        if pin.neg {
            return Err(ErrorCode::InvertedControl { suffix: OutputSuffix::E });
        }
        if self.tri_con.is_some() {
            return Err(ErrorCode::RepeatedControl { suffix: OutputSuffix::E });
        }
        self.tri_con = Some(term);
        Ok(())
    }

    /// Attach the clock term.
    pub fn set_clock(&mut self, pin: &Pin, term: Term) -> (r: Result<(), ErrorCode>)
        ensures
            match spec_set_control(old(self)@, *pin, term@, OutputSuffix::CLK) {
                Ok(o2) => r == Ok::<(), ErrorCode>(()) && final(self)@ == o2,
                Err(e) => r == Err::<(), ErrorCode>(e) && *final(self) == *old(self),
            },
    {
        if pin.neg {
            return Err(ErrorCode::InvertedControl { suffix: OutputSuffix::CLK });
        }
        if self.clock.is_some() {
            return Err(ErrorCode::RepeatedControl { suffix: OutputSuffix::CLK });
        }
        self.clock = Some(term);
        Ok(())
    }

    /// Attach the asynchronous-reset term.
    pub fn set_arst(&mut self, pin: &Pin, term: Term) -> (r: Result<(), ErrorCode>)
        ensures
            match spec_set_control(old(self)@, *pin, term@, OutputSuffix::ARST) {
                Ok(o2) => r == Ok::<(), ErrorCode>(()) && final(self)@ == o2,
                Err(e) => r == Err::<(), ErrorCode>(e) && *final(self) == *old(self),
            },
    {
        if pin.neg {
            return Err(ErrorCode::InvertedControl { suffix: OutputSuffix::ARST });
        }
        if self.arst.is_some() {
            return Err(ErrorCode::RepeatedControl { suffix: OutputSuffix::ARST });
        }
        self.arst = Some(term);
        Ok(())
    }

    /// Attach the asynchronous-preset term.
    pub fn set_aprst(&mut self, pin: &Pin, term: Term) -> (r: Result<(), ErrorCode>)
        ensures
            match spec_set_control(old(self)@, *pin, term@, OutputSuffix::APRST) {
                Ok(o2) => r == Ok::<(), ErrorCode>(()) && final(self)@ == o2,
                Err(e) => r == Err::<(), ErrorCode>(e) && *final(self) == *old(self),
            },
    {
        if pin.neg {
            return Err(ErrorCode::InvertedControl { suffix: OutputSuffix::APRST });
        }
        if self.aprst.is_some() {
            return Err(ErrorCode::RepeatedControl { suffix: OutputSuffix::APRST });
        }
        self.aprst = Some(term);
        Ok(())
    }
}


/// An OLMC's output is set at most once: folding any further
/// equation over a blueprint either keeps a defined output word for
/// word or fails with `RepeatedOutput`.
pub proof fn lemma_output_set_once(chip: Chip, bv: BlueprintView, e: EquationView, i: int)
    requires
        bv.olmcs.len() == chip.num_olmcs(),
        0 <= i < bv.olmcs.len(),
        bv.olmcs[i].output is Some,
    ensures
        spec_add_equation(chip, bv, e) matches Ok(bv2) ==> bv2.olmcs.len() == bv.olmcs.len()
            && bv2.olmcs[i].output == bv.olmcs[i].output,
{
    let marked = spec_mark_feedback(chip, bv.olmcs, e.rhs);
    assert(marked.len() == bv.olmcs.len());
    assert(marked[i].output == bv.olmcs[i].output);
    match spec_eqn_term(chip, e) {
        Err(_) => {},
        Ok(t) => match e.lhs {
            LHS::Ar => {
                if bv.ar is None {
                    assert(spec_add_equation(chip, bv, e)->Ok_0.olmcs == marked);
                }
            },
            LHS::Sp => {
                if bv.sp is None {
                    assert(spec_add_equation(chip, bv, e)->Ok_0.olmcs == marked);
                }
            },
            LHS::Pin((pin, suffix)) => match chip.spec_pin_to_olmc(pin.pin) {
                None => {},
                Some(n) => {
                    assert(n < chip.num_olmcs());
                    if n as int == i {
                        match suffix {
                            Suffix::R | Suffix::Plain | Suffix::T => {
                                assert(marked[i].output is Some);
                                assert(spec_set_base(
                                    marked[n as int],
                                    pin,
                                    t,
                                    match suffix {
                                        Suffix::R => PinMode::Registered,
                                        Suffix::T => PinMode::Tristate,
                                        _ => PinMode::Combinatorial,
                                    },
                                ) is Err);
                                assert(spec_add_equation(chip, bv, e) is Err);
                            },
                            _ => {
                                let res = match suffix {
                                    Suffix::E => spec_set_control(
                                        marked[n as int],
                                        pin,
                                        t,
                                        OutputSuffix::E,
                                    ),
                                    Suffix::CLK => spec_set_control(
                                        marked[n as int],
                                        pin,
                                        t,
                                        OutputSuffix::CLK,
                                    ),
                                    Suffix::ARST => spec_set_control(
                                        marked[n as int],
                                        pin,
                                        t,
                                        OutputSuffix::ARST,
                                    ),
                                    _ => spec_set_control(
                                        marked[n as int],
                                        pin,
                                        t,
                                        OutputSuffix::APRST,
                                    ),
                                };
                                match res {
                                    Ok(o2) => {
                                        assert(o2.output == marked[i].output);
                                        assert(spec_add_equation(chip, bv, e)->Ok_0.olmcs
                                            == marked.update(n as int, o2));
                                    },
                                    Err(_) => {
                                        assert(spec_add_equation(chip, bv, e) is Err);
                                    },
                                }
                            },
                        }
                    } else {
                        let res = match suffix {
                            Suffix::R => spec_set_base(marked[n as int], pin, t, PinMode::Registered),
                            Suffix::Plain => spec_set_base(
                                marked[n as int],
                                pin,
                                t,
                                PinMode::Combinatorial,
                            ),
                            Suffix::T => spec_set_base(marked[n as int], pin, t, PinMode::Tristate),
                            Suffix::E => spec_set_control(marked[n as int], pin, t, OutputSuffix::E),
                            Suffix::CLK => spec_set_control(
                                marked[n as int],
                                pin,
                                t,
                                OutputSuffix::CLK,
                            ),
                            Suffix::ARST => spec_set_control(
                                marked[n as int],
                                pin,
                                t,
                                OutputSuffix::ARST,
                            ),
                            Suffix::APRST => spec_set_control(
                                marked[n as int],
                                pin,
                                t,
                                OutputSuffix::APRST,
                            ),
                        };
                        match res {
                            Ok(o2) => {
                                assert(spec_add_equation(chip, bv, e)->Ok_0.olmcs == marked.update(
                                    n as int,
                                    o2,
                                ));
                                assert(marked.update(n as int, o2)[i] == marked[i]);
                            },
                            Err(_) => {
                                assert(spec_add_equation(chip, bv, e) is Err);
                            },
                        }
                    }
                },
            },
        },
    }
}

} // verus!
