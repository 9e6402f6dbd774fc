//! The GAL fuse state and the primitive that programs terms into it.
//!
//! A `GAL` holds the whole bit state that later becomes the JEDEC
//! file: the main fuse array (a fuse is `true` while intact, `false`
//! once blown; the initial all-ones state connects nothing), the
//! per-OLMC XOR and AC1 bits, the signature bits, the PT bits and the
//! two mode bits SYN/AC0.  `add_term` writes one sum-of-products into
//! a row range, clearing whatever rows it does not use.

use vstd::prelude::*;

use crate::chips::Chip;
use crate::errors::{at_line, Error, ErrorCode};

pub use crate::chips::Bounds;

verus! {

/// One input of an equation: a pin number with its effective negation.
#[derive(Clone, Copy, Debug, PartialEq, Eq, Structural)]
pub struct Pin {
    pub pin: usize,
    pub neg: bool,
}

/// A sum of products: the outer sequence is OR'd, each inner sequence
/// is the AND of its pins.  The source line is kept for diagnostics.
#[derive(Clone, Debug, PartialEq)]
pub struct Term {
    pub line_num: usize,
    pub pins: Vec<Vec<Pin>>,
}

impl Term {
    /// The product groups as mathematical sequences.
    pub open spec fn spec_rows(self) -> Seq<Seq<Pin>> {
        self.pins@.map_values(|v: Vec<Pin>| v@)
    }

    /// Every pin reference lies on the chip's package.
    pub open spec fn valid_for(self, chip: Chip) -> bool {
        forall|k: int, j: int|
            0 <= k < self.spec_rows().len() && 0 <= j < self.spec_rows()[k].len() ==> 1 <= (
            #[trigger] self.spec_rows()[k][j]).pin <= chip.num_pins()
    }
}

/// The term that is always true: one empty product.
pub fn true_term(line_num: usize) -> (r: Term)
    ensures
        r.line_num == line_num,
        r.spec_rows() =~= seq![Seq::<Pin>::empty()],
{
    let mut pins: Vec<Vec<Pin>> = Vec::new();
    pins.push(Vec::new());
    Term { line_num, pins }
}

/// The term that is always false: no products at all.
pub fn false_term(line_num: usize) -> (r: Term)
    ensures
        r.line_num == line_num,
        r.spec_rows() =~= Seq::<Seq<Pin>>::empty(),
{
    Term { line_num, pins: Vec::new() }
}

/// The three fuse-array interpretations of the GAL16V8/20V8.
#[derive(PartialEq, Eq, Clone, Copy, Debug, Structural)]
pub enum Mode {
    /// Combinatorial outputs only.
    Simple,
    /// Tristate outputs.
    Complex,
    /// Tristate or registered outputs.
    Registered,
}

/// The fuse state of the GAL being programmed.
pub struct GAL {
    pub chip: Chip,
    pub fuses: Vec<bool>,
    pub xor: Vec<bool>,
    pub sig: Vec<bool>,
    pub ac1: Vec<bool>,
    pub pt: Vec<bool>,
    pub syn: bool,
    pub ac0: bool,
}

/// The part of the GAL state that decides where a pin's fuse lies:
/// the chip, the two mode bits, and the AC1 bits (for the GAL22V10
/// feedback flip).  The fuse-writing spec functions depend on nothing
/// else, so they take this context rather than a whole `GAL`.
pub struct FuseCtx {
    pub chip: Chip,
    pub syn: bool,
    pub ac0: bool,
    pub ac1: Seq<bool>,
}

impl FuseCtx {
    /// The mode encoded by the SYN/AC0 fuses.
    pub open spec fn get_mode(self) -> Mode {
        if self.syn && !self.ac0 {
            Mode::Simple
        } else if self.syn && self.ac0 {
            Mode::Complex
        } else {
            Mode::Registered
        }
    }

    /// A registered OLMC pin of the GAL22V10 feeds back with its
    /// polarity flipped; such pins need their negation corrected.
    pub open spec fn needs_flip(self, pin_num: usize) -> bool {
        &&& self.chip == Chip::GAL22V10
        &&& self.chip.spec_pin_to_olmc(pin_num) matches Some(i) && !self.ac1[self.chip.num_olmcs()
            - 1 - i]
    }

    /// The fuse column of an input pin, under the chip and (for the
    /// GAL16V8/20V8) the mode fuses.
    pub open spec fn pin_to_column(self, pin_num: usize) -> Result<usize, ErrorCode> {
        match self.chip {
            Chip::GAL16V8 => match self.get_mode() {
                Mode::Simple => spec_col_16_simple(pin_num),
                Mode::Complex => spec_col_16_complex(pin_num),
                Mode::Registered => spec_col_16_registered(pin_num),
            },
            Chip::GAL20V8 => match self.get_mode() {
                Mode::Simple => spec_col_20_simple(pin_num),
                Mode::Complex => spec_col_20_complex(pin_num),
                Mode::Registered => spec_col_20_registered(pin_num),
            },
            Chip::GAL22V10 => spec_col_22v10(pin_num),
            Chip::GAL20RA10 => spec_col_20ra10(pin_num),
        }
    }
}

/// The mathematical content of a `GAL`.
pub struct GalView {
    pub chip: Chip,
    pub fuses: Seq<bool>,
    pub xor: Seq<bool>,
    pub sig: Seq<bool>,
    pub ac1: Seq<bool>,
    pub pt: Seq<bool>,
    pub syn: bool,
    pub ac0: bool,
}

impl View for GAL {
    type V = GalView;

    open spec fn view(&self) -> GalView {
        GalView {
            chip: self.chip,
            fuses: self.fuses@,
            xor: self.xor@,
            sig: self.sig@,
            ac1: self.ac1@,
            pt: self.pt@,
            syn: self.syn,
            ac0: self.ac0,
        }
    }
}

impl GalView {
    pub open spec fn ctx(self) -> FuseCtx {
        FuseCtx { chip: self.chip, syn: self.syn, ac0: self.ac0, ac1: self.ac1 }
    }

    pub open spec fn wf(self) -> bool {
        &&& self.fuses.len() == self.chip.logic_size()
        &&& self.xor.len() == self.chip.num_olmcs()
        &&& self.sig.len() == 64
        &&& self.ac1.len() == self.chip.num_olmcs()
        &&& self.pt.len() == 64
    }
}

impl GAL {
    /// The bit vectors have the sizes the chip prescribes.
    pub open spec fn wf(self) -> bool {
        &&& self.fuses@.len() == self.chip.logic_size()
        &&& self.xor@.len() == self.chip.num_olmcs()
        &&& self.sig@.len() == 64
        &&& self.ac1@.len() == self.chip.num_olmcs()
        &&& self.pt@.len() == 64
    }

    /// The SYN/AC0 pair is one of the three legal combinations.
    pub open spec fn mode_set(self) -> bool {
        self.syn || self.ac0
    }

    /// The column-deciding part of this GAL's state.
    pub open spec fn ctx(self) -> FuseCtx {
        FuseCtx { chip: self.chip, syn: self.syn, ac0: self.ac0, ac1: self.ac1@ }
    }

    /// The mode encoded by the SYN/AC0 fuses.
    pub open spec fn spec_get_mode(self) -> Mode {
        if self.syn && !self.ac0 {
            Mode::Simple
        } else if self.syn && self.ac0 {
            Mode::Complex
        } else {
            Mode::Registered
        }
    }

    /// An empty fuse structure: all fuses intact, every other bit clear.
    pub fn new(chip: Chip) -> (r: GAL)
        ensures
            r.chip == chip,
            r.wf(),
            r.fuses@ =~= Seq::new(chip.logic_size() as nat, |i: int| true),
            r.xor@ =~= Seq::new(chip.num_olmcs() as nat, |i: int| false),
            r.sig@ =~= Seq::new(64, |i: int| false),
            r.ac1@ =~= Seq::new(chip.num_olmcs() as nat, |i: int| false),
            r.pt@ =~= Seq::new(64, |i: int| false),
            !r.syn,
            !r.ac0,
    {
        let fuse_size = chip.logic_size();
        let num_olmcs = chip.num_olmcs();

        GAL {
            chip,
            fuses: vec![true; fuse_size],
            xor: vec![false; num_olmcs],
            sig: vec![false; 64],
            ac1: vec![false; num_olmcs],
            pt: vec![false; 64],
            syn: false,
            ac0: false,
        }
    }

    /// Set the SYN/AC0 fuses of a GAL16V8/20V8 for the given mode.
    pub fn set_mode(&mut self, mode: Mode)
        requires
            old(self).chip == Chip::GAL16V8 || old(self).chip == Chip::GAL20V8,
        ensures
            final(self).syn == (mode != Mode::Registered),
            final(self).ac0 == (mode != Mode::Simple),
            final(self).spec_get_mode() == mode,
            final(self).mode_set(),
            final(self).chip == old(self).chip,
            final(self).fuses@ == old(self).fuses@,
            final(self).xor@ == old(self).xor@,
            final(self).sig@ == old(self).sig@,
            final(self).ac1@ == old(self).ac1@,
            final(self).pt@ == old(self).pt@,
    {
        match mode {
            Mode::Simple => {
                self.syn = true;
                self.ac0 = false;
            },
            Mode::Complex => {
                self.syn = true;
                self.ac0 = true;
            },
            Mode::Registered => {
                self.syn = false;
                self.ac0 = true;
            },
        }
    }

    /// Read the mode back from the SYN/AC0 fuses.
    pub fn get_mode(&self) -> (r: Mode)
        requires
            self.chip == Chip::GAL16V8 || self.chip == Chip::GAL20V8,
            self.mode_set(),
        ensures
            r == self.spec_get_mode(),
    {
        if self.syn && !self.ac0 {
            Mode::Simple
        } else if self.syn && self.ac0 {
            Mode::Complex
        } else {
            Mode::Registered
        }
    }

    /// A registered OLMC pin of the GAL22V10 feeds back with its
    /// polarity flipped; such pins need their negation corrected.
    pub open spec fn spec_needs_flip(self, pin_num: usize) -> bool {
        self.ctx().needs_flip(pin_num)
    }

    fn needs_flip(&self, pin_num: usize) -> (r: bool)
        requires
            self.wf(),
        ensures
            r == self.spec_needs_flip(pin_num),
    {
        if self.chip != Chip::GAL22V10 {
            return false;
        }
        match self.chip.pin_to_olmc(pin_num) {
            Some(i) => !self.ac1[self.chip.num_olmcs() - 1 - i],
            None => false,
        }
    }

    /// The fuse column of an input pin, under the chip and (for the
    /// GAL16V8/20V8) the mode fuses.
    pub open spec fn spec_pin_to_column(self, pin_num: usize) -> Result<usize, ErrorCode> {
        self.ctx().pin_to_column(pin_num)
    }

    fn pin_to_column(&self, pin_num: usize) -> (r: Result<usize, ErrorCode>)
        requires
            1 <= pin_num <= self.chip.num_pins(),
            self.chip == Chip::GAL16V8 || self.chip == Chip::GAL20V8 ==> self.mode_set(),
        ensures
            r == self.spec_pin_to_column(pin_num),
    {
        match self.chip {
            Chip::GAL16V8 => match self.get_mode() {
                Mode::Simple => col_16_simple(pin_num),
                Mode::Complex => col_16_complex(pin_num),
                Mode::Registered => col_16_registered(pin_num),
            },
            Chip::GAL20V8 => match self.get_mode() {
                Mode::Simple => col_20_simple(pin_num),
                Mode::Complex => col_20_complex(pin_num),
                Mode::Registered => col_20_registered(pin_num),
            },
            Chip::GAL22V10 => col_22v10(pin_num),
            Chip::GAL20RA10 => col_20ra10(pin_num),
        }
    }

    /// Blow one fuse for an AND input, negation already corrected.
    fn set_and(&mut self, row: usize, pin_num: usize, negation: bool) -> (r: Result<
        (),
        ErrorCode,
    >)
        requires
            old(self).wf(),
            1 <= pin_num <= old(self).chip.num_pins(),
            old(self).chip == Chip::GAL16V8 || old(self).chip == Chip::GAL20V8 ==> old(
                self,
            ).mode_set(),
            row < old(self).chip.num_rows(),
        ensures
            final(self).wf(),
            unchanged_but_fuses(*old(self), *final(self)),
            match old(self).spec_pin_to_column(pin_num) {
                Ok(col) => r == Ok::<(), ErrorCode>(()) && final(self).fuses@ == old(
                    self,
                ).fuses@.update(
                    row * old(self).chip.num_cols() + col + (if negation {
                        1int
                    } else {
                        0int
                    }),
                    false,
                ),
                Err(e) => r == Err::<(), ErrorCode>(e) && final(self).fuses@ == old(self).fuses@,
            },
    {
        let row_len = self.chip.num_cols();
        proof {
            lemma_column_in_range(self.ctx(), pin_num);
        }
        let column = match self.pin_to_column(pin_num) {
            Ok(c) => c,
            Err(e) => {
                return Err(e);
            },
        };
        let neg_off: usize = if negation {
            1
        } else {
            0
        };
        self.fuses[row * row_len + column + neg_off] = false;
        Ok(())
    }

    /// Enter a term into the given rows of the main logic array.
    ///
    /// On success exactly the fuses named by the term's pins are blown
    /// in consecutive rows from `start_row + row_offset` on, and the
    /// remaining rows up to `start_row + max_row` are zeroed so that
    /// unused products contribute nothing.  A term with more products
    /// than rows fails with `TooManyProducts`, or `MoreThanOneProduct`
    /// for a single-row slot; a pin without a column fails with that
    /// pin's code.  Either way nothing outside the given rows changes.
    #[verifier::loop_isolation(false)]
    pub fn add_term(&mut self, term: &Term, bounds: &Bounds) -> (r: Result<(), Error>)
        requires
            old(self).wf(),
            old(self).chip == Chip::GAL16V8 || old(self).chip == Chip::GAL20V8 ==> old(
                self,
            ).mode_set(),
            term.valid_for(old(self).chip),
            bounds.row_offset <= bounds.max_row,
            bounds.start_row + bounds.max_row <= old(self).chip.num_rows(),
        ensures
            final(self).wf(),
            unchanged_but_fuses(*old(self), *final(self)),
            fuses_frame(
                old(self).fuses@,
                final(self).fuses@,
                old(self).chip.num_cols() as int,
                bounds.start_row + bounds.row_offset,
                bounds.start_row + bounds.max_row,
            ),
            match spec_add_term_code(
                old(self).ctx(),
                term.spec_rows(),
                bounds.row_offset as int,
                bounds.max_row as int,
                bounds.max_row == bounds.row_offset + 1,
            ) {
                None => r == Ok::<(), Error>(()) && final(self).fuses@ == spec_clear_rows(
                    spec_apply_products(
                        old(self).ctx(),
                        old(self).fuses@,
                        bounds.start_row as int,
                        bounds.row_offset as int,
                        term.spec_rows(),
                    ),
                    old(self).chip.num_cols() as int,
                    bounds.start_row + bounds.row_offset + term.spec_rows().len(),
                    bounds.start_row + bounds.max_row,
                ),
                Some(e) => r == Err::<(), Error>(Error { code: e, line: term.line_num }),
            },
    {
        let ghost g0 = *self;
        let ghost c0 = self.ctx();
        let ghost rows = term.spec_rows();
        let single_row = bounds.max_row == bounds.row_offset + 1;
        let num_rows = term.pins.len();
        let mut row_offset = bounds.row_offset;
        let mut k: usize = 0;
        proof {
            assert(rows.skip(0) =~= rows);
        }
        while k < num_rows
            invariant
                g0.wf(),
                self.wf(),
                unchanged_but_fuses(g0, *self),
                g0.chip == Chip::GAL16V8 || g0.chip == Chip::GAL20V8 ==> g0.mode_set(),
                term.valid_for(g0.chip),
                num_rows == rows.len(),
                rows == term.spec_rows(),
                bounds.row_offset <= bounds.max_row,
                bounds.start_row + bounds.max_row <= g0.chip.num_rows(),
                single_row == (bounds.max_row == bounds.row_offset + 1),
                0 <= k <= num_rows,
                row_offset == bounds.row_offset + k,
                row_offset <= bounds.max_row,
                self.fuses@ == spec_apply_products(
                    c0,
                    g0.fuses@,
                    bounds.start_row as int,
                    bounds.row_offset as int,
                    rows.take(k as int),
                ),
                fuses_frame(
                    g0.fuses@,
                    self.fuses@,
                    g0.chip.num_cols() as int,
                    bounds.start_row + bounds.row_offset,
                    bounds.start_row + bounds.max_row,
                ),
                spec_add_term_code(
                    c0,
                    rows,
                    bounds.row_offset as int,
                    bounds.max_row as int,
                    single_row,
                ) == spec_add_term_code(
                    c0,
                    rows.skip(k as int),
                    row_offset as int,
                    bounds.max_row as int,
                    single_row,
                ),
            decreases num_rows - k,
        {
            proof {
                lemma_take_one_more(rows, k as int);
                assert(rows.skip(k as int) =~= rows.skip(k as int));
                reveal_with_fuel(spec_add_term_code, 2);
                assert(rows.skip(k as int).len() > 0);
                assert(rows.skip(k as int)[0] == rows[k as int]);
                assert(rows.skip(k as int).drop_first() =~= rows.skip(k as int + 1));
            }
            if row_offset == bounds.max_row {
                return at_line(
                    term.line_num,
                    Err(
                        if single_row {
                            ErrorCode::MoreThanOneProduct
                        } else {
                            ErrorCode::TooManyProducts
                        },
                    ),
                );
            }
            let product = &term.pins[k];
            let num_pins = product.len();
            let ghost prod = product@;
            let ghost f_row0 = self.fuses@;
            proof {
                assert(rows[k as int] == prod);
            }
            let row = bounds.start_row + row_offset;
            let mut j: usize = 0;
            while j < num_pins
                invariant
                    g0.wf(),
                    self.wf(),
                    unchanged_but_fuses(g0, *self),
                    g0.chip == Chip::GAL16V8 || g0.chip == Chip::GAL20V8 ==> g0.mode_set(),
                    num_pins == prod.len(),
                    forall|jj: int| 0 <= jj < prod.len() ==> 1 <= (#[trigger] prod[jj]).pin <= g0.chip.num_pins(),
                    0 <= j <= num_pins,
                    row < g0.chip.num_rows(),
                    bounds.start_row + bounds.row_offset <= row,
                    row < bounds.start_row + bounds.max_row,
                    self.fuses@ == spec_apply_product(c0, f_row0, row as int, prod.take(j as int)),
                    fuses_frame(
                        g0.fuses@,
                        f_row0,
                        g0.chip.num_cols() as int,
                        bounds.start_row + bounds.row_offset,
                        bounds.start_row + bounds.max_row,
                    ),
                    fuses_frame(
                        g0.fuses@,
                        self.fuses@,
                        g0.chip.num_cols() as int,
                        bounds.start_row + bounds.row_offset,
                        bounds.start_row + bounds.max_row,
                    ),
                    spec_product_err(c0, prod.take(j as int)) is None,
                decreases num_pins - j,
            {
                proof {
                    lemma_take_one_more(prod, j as int);
                    lemma_apply_product_snoc(c0, f_row0, row as int, prod.take(j as int), prod[j as int]);
                    lemma_product_err_snoc(c0, prod.take(j as int), prod[j as int]);
                }
                let input = product[j];
                proof {
                    assert(self.ctx() == c0);
                    lemma_column_in_range(c0, input.pin);
                }
                let flip = self.needs_flip(input.pin);
                match self.set_and(row, input.pin, input.neg != flip) {
                    Ok(_) => {},
                    Err(e) => {
                        proof {
                            lemma_product_err_of_take(c0, prod, j as int);
                            assert(rows[k as int] == prod);
                            assert(spec_product_err(c0, rows[k as int]) == Some(e));
                            assert(rows.skip(k as int)[0] == rows[k as int]);
                            assert(spec_add_term_code(
                                c0,
                                rows.skip(k as int),
                                row_offset as int,
                                bounds.max_row as int,
                                single_row,
                            ) == Some(e));
                        }
                        return at_line(term.line_num, Err(e));
                    },
                }
                j = j + 1;
            }
            proof {
                assert(prod.take(num_pins as int) =~= prod);
                assert(spec_apply_products(
                    c0,
                    g0.fuses@,
                    bounds.start_row as int,
                    bounds.row_offset as int,
                    rows.take(k as int + 1),
                ) == self.fuses@) by {
                    lemma_apply_products_snoc(
                        c0,
                        g0.fuses@,
                        bounds.start_row as int,
                        bounds.row_offset as int,
                        rows.take(k as int),
                        rows[k as int],
                    );
                    assert(rows.take(k as int).push(rows[k as int]) =~= rows.take(k as int + 1));
                }
            }
            row_offset = row_offset + 1;
            k = k + 1;
        }
        proof {
            assert(rows.take(num_rows as int) =~= rows);
            assert(rows.skip(num_rows as int) =~= Seq::<Seq<Pin>>::empty());
            reveal_with_fuel(spec_add_term_code, 1);
        }
        // Zero the unused rows of the slot.
        let clear_bounds = Bounds {
            start_row: bounds.start_row,
            max_row: bounds.max_row,
            row_offset,
        };
        self.clear_rows(&clear_bounds);
        Ok(())
    }

    /// Like `add_term`, writing constant false where no term was given.
    pub fn add_term_opt(&mut self, term: &Option<Term>, bounds: &Bounds) -> (r: Result<(), Error>)
        requires
            old(self).wf(),
            old(self).chip == Chip::GAL16V8 || old(self).chip == Chip::GAL20V8 ==> old(
                self,
            ).mode_set(),
            term matches Some(t) ==> t.valid_for(old(self).chip),
            bounds.row_offset <= bounds.max_row,
            bounds.start_row + bounds.max_row <= old(self).chip.num_rows(),
        ensures
            final(self).wf(),
            unchanged_but_fuses(*old(self), *final(self)),
            fuses_frame(
                old(self).fuses@,
                final(self).fuses@,
                old(self).chip.num_cols() as int,
                bounds.start_row + bounds.row_offset,
                bounds.start_row + bounds.max_row,
            ),
            match *term {
                Some(t) => match spec_add_term_code(
                    old(self).ctx(),
                    t.spec_rows(),
                    bounds.row_offset as int,
                    bounds.max_row as int,
                    bounds.max_row == bounds.row_offset + 1,
                ) {
                    None => r == Ok::<(), Error>(()) && final(self).fuses@ == spec_clear_rows(
                        spec_apply_products(
                            old(self).ctx(),
                            old(self).fuses@,
                            bounds.start_row as int,
                            bounds.row_offset as int,
                            t.spec_rows(),
                        ),
                        old(self).chip.num_cols() as int,
                        bounds.start_row + bounds.row_offset + t.spec_rows().len(),
                        bounds.start_row + bounds.max_row,
                    ),
                    Some(e) => r == Err::<(), Error>(Error { code: e, line: t.line_num }),
                },
                None => r == Ok::<(), Error>(()) && final(self).fuses@ == spec_clear_rows(
                    old(self).fuses@,
                    old(self).chip.num_cols() as int,
                    bounds.start_row + bounds.row_offset,
                    bounds.start_row + bounds.max_row,
                ),
            },
    {
        match term {
            Some(t) => self.add_term(t, bounds),
            None => {
                let ft = false_term(0);
                let r = self.add_term(&ft, bounds);
                proof {
                    reveal_with_fuel(spec_add_term_code, 1);
                    assert(spec_apply_products(
                        old(self).ctx(),
                        old(self).fuses@,
                        bounds.start_row as int,
                        bounds.row_offset as int,
                        ft.spec_rows(),
                    ) == old(self).fuses@);
                }
                r
            },
        }
    }

    /// Zero every fuse of the rows `[row_offset, max_row)` of a slot.
    fn clear_rows(&mut self, bounds: &Bounds)
        requires
            old(self).wf(),
            bounds.row_offset <= bounds.max_row,
            bounds.start_row + bounds.max_row <= old(self).chip.num_rows(),
        ensures
            final(self).wf(),
            unchanged_but_fuses(*old(self), *final(self)),
            final(self).fuses@ == spec_clear_rows(
                old(self).fuses@,
                old(self).chip.num_cols() as int,
                bounds.start_row + bounds.row_offset,
                bounds.start_row + bounds.max_row,
            ),
    {
        let num_cols = self.chip.num_cols();
        let start = (bounds.start_row + bounds.row_offset) * num_cols;
        let end = (bounds.start_row + bounds.max_row) * num_cols;
        proof {
            vstd::arithmetic::mul::lemma_mul_inequality(
                (bounds.start_row + bounds.max_row) as int,
                self.chip.num_rows() as int,
                num_cols as int,
            );
            vstd::arithmetic::mul::lemma_mul_inequality(
                (bounds.start_row + bounds.row_offset) as int,
                (bounds.start_row + bounds.max_row) as int,
                num_cols as int,
            );
        }
        let mut i: usize = start;
        while i < end
            invariant
                start <= i <= end || (end <= start && i == start),
                end <= old(self).fuses@.len(),
                self.wf(),
                unchanged_but_fuses(*old(self), *self),
                self.fuses@.len() == old(self).fuses@.len(),
                forall|x: int| 0 <= x < start ==> self.fuses@[x] == old(self).fuses@[x],
                forall|x: int| start <= x < i ==> self.fuses@[x] == false,
                forall|x: int| i <= x < self.fuses@.len() ==> self.fuses@[x] == old(self).fuses@[x],
            decreases end - i,
        {
            self.fuses[i] = false;
            i = i + 1;
        }
        proof {
            assert(final(self).fuses@ =~= spec_clear_rows(
                old(self).fuses@,
                old(self).chip.num_cols() as int,
                bounds.start_row + bounds.row_offset,
                bounds.start_row + bounds.max_row,
            ));
        }
    }
}

/// Everything of the GAL but the main fuse array is the same.
pub open spec fn unchanged_but_fuses(a: GAL, b: GAL) -> bool {
    &&& b.chip == a.chip
    &&& b.xor@ == a.xor@
    &&& b.sig@ == a.sig@
    &&& b.ac1@ == a.ac1@
    &&& b.pt@ == a.pt@
    &&& b.syn == a.syn
    &&& b.ac0 == a.ac0
}

/// `b` differs from `a` only inside the rows `[row_a, row_b)`.
pub open spec fn fuses_frame(a: Seq<bool>, b: Seq<bool>, cols: int, row_a: int, row_b: int) -> bool {
    &&& b.len() == a.len()
    &&& forall|i: int| 0 <= i < a.len() && (i < row_a * cols || i >= row_b * cols) ==> b[i] == a[i]
}

/// The fuse array with the rows `[row_a, row_b)` zeroed.
pub open spec fn spec_clear_rows(f: Seq<bool>, cols: int, row_a: int, row_b: int) -> Seq<bool> {
    Seq::new(
        f.len(),
        |i: int|
            if row_a * cols <= i < row_b * cols {
                false
            } else {
                f[i]
            },
    )
}

/// One AND input blown into a row: the fuse at the pin's column,
/// shifted by one for a negated reference (with the GAL22V10
/// registered-feedback flip folded in).
pub open spec fn spec_apply_pin(g0: FuseCtx, f: Seq<bool>, row: int, p: Pin) -> Seq<bool> {
    match g0.pin_to_column(p.pin) {
        Ok(col) => f.update(
            row * g0.chip.num_cols() + col + (if p.neg != g0.needs_flip(p.pin) {
                1int
            } else {
                0int
            }),
            false,
        ),
        Err(_) => f,
    }
}

/// A whole product group blown into one row, pin by pin.
pub open spec fn spec_apply_product(g0: FuseCtx, f: Seq<bool>, row: int, prod: Seq<Pin>) -> Seq<bool>
    decreases prod.len(),
{
    if prod.len() == 0 {
        f
    } else {
        spec_apply_product(g0, spec_apply_pin(g0, f, row, prod[0]), row, prod.drop_first())
    }
}

/// The product groups blown into consecutive rows from `start + offset`.
pub open spec fn spec_apply_products(
    g0: FuseCtx,
    f: Seq<bool>,
    start: int,
    offset: int,
    rows: Seq<Seq<Pin>>,
) -> Seq<bool>
    decreases rows.len(),
{
    if rows.len() == 0 {
        f
    } else {
        spec_apply_products(
            g0,
            spec_apply_product(g0, f, start + offset, rows[0]),
            start,
            offset + 1,
            rows.drop_first(),
        )
    }
}

/// The first pin of the product that has no fuse column, if any.
pub open spec fn spec_product_err(g0: FuseCtx, prod: Seq<Pin>) -> Option<ErrorCode>
    decreases prod.len(),
{
    if prod.len() == 0 {
        None
    } else {
        match g0.pin_to_column(prod[0].pin) {
            Err(e) => Some(e),
            Ok(_) => spec_product_err(g0, prod.drop_first()),
        }
    }
}

/// The error `add_term` reports, walking the products in order: a
/// product beyond `max` rows fails on the row count, otherwise its
/// first unusable pin decides.  `None` means the term fits.
pub open spec fn spec_add_term_code(
    g0: FuseCtx,
    rows: Seq<Seq<Pin>>,
    offset: int,
    max: int,
    single: bool,
) -> Option<ErrorCode>
    decreases rows.len(),
{
    if rows.len() == 0 {
        None
    } else if offset == max {
        Some(
            if single {
                ErrorCode::MoreThanOneProduct
            } else {
                ErrorCode::TooManyProducts
            },
        )
    } else {
        match spec_product_err(g0, rows[0]) {
            Some(e) => Some(e),
            None => spec_add_term_code(g0, rows.drop_first(), offset + 1, max, single),
        }
    }
}

proof fn lemma_take_one_more<A>(s: Seq<A>, k: int)
    requires
        0 <= k < s.len(),
    ensures
        s.take(k + 1) == s.take(k).push(s[k]),
{
    assert(s.take(k + 1) =~= s.take(k).push(s[k]));
}

proof fn lemma_apply_product_snoc(g0: FuseCtx, f: Seq<bool>, row: int, prod: Seq<Pin>, p: Pin)
    ensures
        spec_apply_product(g0, f, row, prod.push(p)) == spec_apply_pin(
            g0,
            spec_apply_product(g0, f, row, prod),
            row,
            p,
        ),
    decreases prod.len(),
{
    let s = prod.push(p);
    if prod.len() == 0 {
        assert(s[0] == p);
        assert(s.drop_first() =~= Seq::<Pin>::empty());
        assert(spec_apply_product(g0, f, row, s) == spec_apply_product(
            g0,
            spec_apply_pin(g0, f, row, p),
            row,
            s.drop_first(),
        ));
        assert(spec_apply_product(g0, spec_apply_pin(g0, f, row, p), row, Seq::<Pin>::empty())
            == spec_apply_pin(g0, f, row, p));
        assert(spec_apply_product(g0, f, row, prod) == f);
    } else {
        assert(s[0] == prod[0]);
        assert(s.drop_first() =~= prod.drop_first().push(p));
        lemma_apply_product_snoc(g0, spec_apply_pin(g0, f, row, prod[0]), row, prod.drop_first(), p);
        assert(spec_apply_product(g0, f, row, s) == spec_apply_product(
            g0,
            spec_apply_pin(g0, f, row, s[0]),
            row,
            s.drop_first(),
        ));
        assert(spec_apply_product(g0, f, row, prod) == spec_apply_product(
            g0,
            spec_apply_pin(g0, f, row, prod[0]),
            row,
            prod.drop_first(),
        ));
    }
}

proof fn lemma_product_err_snoc(g0: FuseCtx, prod: Seq<Pin>, p: Pin)
    requires
        spec_product_err(g0, prod) is None,
    ensures
        spec_product_err(g0, prod.push(p)) == (match g0.pin_to_column(p.pin) {
            Err(e) => Some(e),
            Ok(_) => None::<ErrorCode>,
        }),
    decreases prod.len(),
{
    let s = prod.push(p);
    if prod.len() == 0 {
        assert(s[0] == p);
        assert(s.drop_first() =~= Seq::<Pin>::empty());
        assert(spec_product_err(g0, Seq::<Pin>::empty()) is None);
    } else {
        assert(s[0] == prod[0]);
        assert(s.drop_first() =~= prod.drop_first().push(p));
        assert(g0.pin_to_column(prod[0].pin) is Ok);
        lemma_product_err_snoc(g0, prod.drop_first(), p);
    }
}

proof fn lemma_product_err_of_take(g0: FuseCtx, prod: Seq<Pin>, j: int)
    requires
        0 <= j < prod.len(),
        spec_product_err(g0, prod.take(j)) is None,
        g0.pin_to_column(prod[j].pin) is Err,
    ensures
        spec_product_err(g0, prod) == Some(g0.pin_to_column(prod[j].pin)->Err_0),
    decreases j,
{
    if j == 0 {
        reveal_with_fuel(spec_product_err, 1);
    } else {
        assert(prod.take(j)[0] == prod[0]);
        assert(g0.pin_to_column(prod[0].pin) is Ok) by {
            reveal_with_fuel(spec_product_err, 1);
        }
        assert(prod.take(j).drop_first() =~= prod.drop_first().take(j - 1));
        lemma_product_err_of_take(g0, prod.drop_first(), j - 1);
        assert(prod.drop_first()[j - 1] == prod[j]);
    }
}

proof fn lemma_apply_products_snoc(
    g0: FuseCtx,
    f: Seq<bool>,
    start: int,
    offset: int,
    rows: Seq<Seq<Pin>>,
    prod: Seq<Pin>,
)
    ensures
        spec_apply_products(g0, f, start, offset, rows.push(prod)) == spec_apply_product(
            g0,
            spec_apply_products(g0, f, start, offset, rows),
            start + offset + rows.len(),
            prod,
        ),
    decreases rows.len(),
{
    let s = rows.push(prod);
    if rows.len() == 0 {
        assert(s[0] == prod);
        assert(s.drop_first() =~= Seq::<Seq<Pin>>::empty());
        assert(spec_apply_products(g0, f, start, offset, s) == spec_apply_products(
            g0,
            spec_apply_product(g0, f, start + offset, prod),
            start,
            offset + 1,
            s.drop_first(),
        ));
        assert(spec_apply_products(
            g0,
            spec_apply_product(g0, f, start + offset, prod),
            start,
            offset + 1,
            Seq::<Seq<Pin>>::empty(),
        ) == spec_apply_product(g0, f, start + offset, prod));
        assert(spec_apply_products(g0, f, start, offset, rows) == f);
    } else {
        assert(s[0] == rows[0]);
        assert(s.drop_first() =~= rows.drop_first().push(prod));
        lemma_apply_products_snoc(
            g0,
            spec_apply_product(g0, f, start + offset, rows[0]),
            start,
            offset + 1,
            rows.drop_first(),
            prod,
        );
        assert(spec_apply_products(g0, f, start, offset, s) == spec_apply_products(
            g0,
            spec_apply_product(g0, f, start + offset, s[0]),
            start,
            offset + 1,
            s.drop_first(),
        ));
        assert(spec_apply_products(g0, f, start, offset, rows) == spec_apply_products(
            g0,
            spec_apply_product(g0, f, start + offset, rows[0]),
            start,
            offset + 1,
            rows.drop_first(),
        ));
    }
}

/// Any column of the tables leaves room for its negation inside the row.
proof fn lemma_column_in_range(g: FuseCtx, pin_num: usize)
    requires
        1 <= pin_num <= g.chip.num_pins(),
    ensures
        g.pin_to_column(pin_num) matches Ok(c) ==> c + 2 <= g.chip.num_cols(),
{
}

// The pin-to-column tables.  Power pins have no column; the remaining
// error entries name the pins a chip or mode keeps away from inputs.

pub open spec fn spec_col_16_simple(pin: usize) -> Result<usize, ErrorCode> {
    if pin == 1 {
        Ok(2)
    } else if pin == 2 {
        Ok(0)
    } else if pin == 3 {
        Ok(4)
    } else if pin == 4 {
        Ok(8)
    } else if pin == 5 {
        Ok(12)
    } else if pin == 6 {
        Ok(16)
    } else if pin == 7 {
        Ok(20)
    } else if pin == 8 {
        Ok(24)
    } else if pin == 9 {
        Ok(28)
    } else if pin == 10 {
        Err(ErrorCode::BadPower)
    } else if pin == 11 {
        Ok(30)
    } else if pin == 12 {
        Ok(26)
    } else if pin == 13 {
        Ok(22)
    } else if pin == 14 {
        Ok(18)
    } else if pin == 15 {
        Err(ErrorCode::BadAnalysis)
    } else if pin == 16 {
        Err(ErrorCode::BadAnalysis)
    } else if pin == 17 {
        Ok(14)
    } else if pin == 18 {
        Ok(10)
    } else if pin == 19 {
        Ok(6)
    } else {
        Err(ErrorCode::BadPower)
    }
}

fn col_16_simple(pin: usize) -> (r: Result<usize, ErrorCode>)
    ensures
        r == spec_col_16_simple(pin),
{
    match pin {
        1 => Ok(2),
        2 => Ok(0),
        3 => Ok(4),
        4 => Ok(8),
        5 => Ok(12),
        6 => Ok(16),
        7 => Ok(20),
        8 => Ok(24),
        9 => Ok(28),
        10 => Err(ErrorCode::BadPower),
        11 => Ok(30),
        12 => Ok(26),
        13 => Ok(22),
        14 => Ok(18),
        15 => Err(ErrorCode::BadAnalysis),
        16 => Err(ErrorCode::BadAnalysis),
        17 => Ok(14),
        18 => Ok(10),
        19 => Ok(6),
        _ => Err(ErrorCode::BadPower),
    }
}

pub open spec fn spec_col_16_complex(pin: usize) -> Result<usize, ErrorCode> {
    if pin == 1 {
        Ok(2)
    } else if pin == 2 {
        Ok(0)
    } else if pin == 3 {
        Ok(4)
    } else if pin == 4 {
        Ok(8)
    } else if pin == 5 {
        Ok(12)
    } else if pin == 6 {
        Ok(16)
    } else if pin == 7 {
        Ok(20)
    } else if pin == 8 {
        Ok(24)
    } else if pin == 9 {
        Ok(28)
    } else if pin == 10 {
        Err(ErrorCode::BadPower)
    } else if pin == 11 {
        Ok(30)
    } else if pin == 12 {
        Err(ErrorCode::NotAnInput1219)
    } else if pin == 13 {
        Ok(26)
    } else if pin == 14 {
        Ok(22)
    } else if pin == 15 {
        Ok(18)
    } else if pin == 16 {
        Ok(14)
    } else if pin == 17 {
        Ok(10)
    } else if pin == 18 {
        Ok(6)
    } else if pin == 19 {
        Err(ErrorCode::NotAnInput1219)
    } else {
        Err(ErrorCode::BadPower)
    }
}

fn col_16_complex(pin: usize) -> (r: Result<usize, ErrorCode>)
    ensures
        r == spec_col_16_complex(pin),
{
    match pin {
        1 => Ok(2),
        2 => Ok(0),
        3 => Ok(4),
        4 => Ok(8),
        5 => Ok(12),
        6 => Ok(16),
        7 => Ok(20),
        8 => Ok(24),
        9 => Ok(28),
        10 => Err(ErrorCode::BadPower),
        11 => Ok(30),
        12 => Err(ErrorCode::NotAnInput1219),
        13 => Ok(26),
        14 => Ok(22),
        15 => Ok(18),
        16 => Ok(14),
        17 => Ok(10),
        18 => Ok(6),
        19 => Err(ErrorCode::NotAnInput1219),
        _ => Err(ErrorCode::BadPower),
    }
}

pub open spec fn spec_col_16_registered(pin: usize) -> Result<usize, ErrorCode> {
    if pin == 1 {
        Err(ErrorCode::NotAnInput111)
    } else if pin == 2 {
        Ok(0)
    } else if pin == 3 {
        Ok(4)
    } else if pin == 4 {
        Ok(8)
    } else if pin == 5 {
        Ok(12)
    } else if pin == 6 {
        Ok(16)
    } else if pin == 7 {
        Ok(20)
    } else if pin == 8 {
        Ok(24)
    } else if pin == 9 {
        Ok(28)
    } else if pin == 10 {
        Err(ErrorCode::BadPower)
    } else if pin == 11 {
        Err(ErrorCode::NotAnInput111)
    } else if pin == 12 {
        Ok(30)
    } else if pin == 13 {
        Ok(26)
    } else if pin == 14 {
        Ok(22)
    } else if pin == 15 {
        Ok(18)
    } else if pin == 16 {
        Ok(14)
    } else if pin == 17 {
        Ok(10)
    } else if pin == 18 {
        Ok(6)
    } else if pin == 19 {
        Ok(2)
    } else {
        Err(ErrorCode::BadPower)
    }
}

fn col_16_registered(pin: usize) -> (r: Result<usize, ErrorCode>)
    ensures
        r == spec_col_16_registered(pin),
{
    match pin {
        1 => Err(ErrorCode::NotAnInput111),
        2 => Ok(0),
        3 => Ok(4),
        4 => Ok(8),
        5 => Ok(12),
        6 => Ok(16),
        7 => Ok(20),
        8 => Ok(24),
        9 => Ok(28),
        10 => Err(ErrorCode::BadPower),
        11 => Err(ErrorCode::NotAnInput111),
        12 => Ok(30),
        13 => Ok(26),
        14 => Ok(22),
        15 => Ok(18),
        16 => Ok(14),
        17 => Ok(10),
        18 => Ok(6),
        19 => Ok(2),
        _ => Err(ErrorCode::BadPower),
    }
}

pub open spec fn spec_col_20_simple(pin: usize) -> Result<usize, ErrorCode> {
    if pin == 1 {
        Ok(2)
    } else if pin == 2 {
        Ok(0)
    } else if pin == 3 {
        Ok(4)
    } else if pin == 4 {
        Ok(8)
    } else if pin == 5 {
        Ok(12)
    } else if pin == 6 {
        Ok(16)
    } else if pin == 7 {
        Ok(20)
    } else if pin == 8 {
        Ok(24)
    } else if pin == 9 {
        Ok(28)
    } else if pin == 10 {
        Ok(32)
    } else if pin == 11 {
        Ok(36)
    } else if pin == 12 {
        Err(ErrorCode::BadPower)
    } else if pin == 13 {
        Ok(38)
    } else if pin == 14 {
        Ok(34)
    } else if pin == 15 {
        Ok(30)
    } else if pin == 16 {
        Ok(26)
    } else if pin == 17 {
        Ok(22)
    } else if pin == 18 {
        Err(ErrorCode::BadAnalysis)
    } else if pin == 19 {
        Err(ErrorCode::BadAnalysis)
    } else if pin == 20 {
        Ok(18)
    } else if pin == 21 {
        Ok(14)
    } else if pin == 22 {
        Ok(10)
    } else if pin == 23 {
        Ok(6)
    } else {
        Err(ErrorCode::BadPower)
    }
}

fn col_20_simple(pin: usize) -> (r: Result<usize, ErrorCode>)
    ensures
        r == spec_col_20_simple(pin),
{
    match pin {
        1 => Ok(2),
        2 => Ok(0),
        3 => Ok(4),
        4 => Ok(8),
        5 => Ok(12),
        6 => Ok(16),
        7 => Ok(20),
        8 => Ok(24),
        9 => Ok(28),
        10 => Ok(32),
        11 => Ok(36),
        12 => Err(ErrorCode::BadPower),
        13 => Ok(38),
        14 => Ok(34),
        15 => Ok(30),
        16 => Ok(26),
        17 => Ok(22),
        18 => Err(ErrorCode::BadAnalysis),
        19 => Err(ErrorCode::BadAnalysis),
        20 => Ok(18),
        21 => Ok(14),
        22 => Ok(10),
        23 => Ok(6),
        _ => Err(ErrorCode::BadPower),
    }
}

pub open spec fn spec_col_20_complex(pin: usize) -> Result<usize, ErrorCode> {
    if pin == 1 {
        Ok(2)
    } else if pin == 2 {
        Ok(0)
    } else if pin == 3 {
        Ok(4)
    } else if pin == 4 {
        Ok(8)
    } else if pin == 5 {
        Ok(12)
    } else if pin == 6 {
        Ok(16)
    } else if pin == 7 {
        Ok(20)
    } else if pin == 8 {
        Ok(24)
    } else if pin == 9 {
        Ok(28)
    } else if pin == 10 {
        Ok(32)
    } else if pin == 11 {
        Ok(36)
    } else if pin == 12 {
        Err(ErrorCode::BadPower)
    } else if pin == 13 {
        Ok(38)
    } else if pin == 14 {
        Ok(34)
    } else if pin == 15 {
        Err(ErrorCode::NotAnInput1522)
    } else if pin == 16 {
        Ok(30)
    } else if pin == 17 {
        Ok(26)
    } else if pin == 18 {
        Ok(22)
    } else if pin == 19 {
        Ok(18)
    } else if pin == 20 {
        Ok(14)
    } else if pin == 21 {
        Ok(10)
    } else if pin == 22 {
        Err(ErrorCode::NotAnInput1522)
    } else if pin == 23 {
        Ok(6)
    } else {
        Err(ErrorCode::BadPower)
    }
}

fn col_20_complex(pin: usize) -> (r: Result<usize, ErrorCode>)
    ensures
        r == spec_col_20_complex(pin),
{
    match pin {
        1 => Ok(2),
        2 => Ok(0),
        3 => Ok(4),
        4 => Ok(8),
        5 => Ok(12),
        6 => Ok(16),
        7 => Ok(20),
        8 => Ok(24),
        9 => Ok(28),
        10 => Ok(32),
        11 => Ok(36),
        12 => Err(ErrorCode::BadPower),
        13 => Ok(38),
        14 => Ok(34),
        15 => Err(ErrorCode::NotAnInput1522),
        16 => Ok(30),
        17 => Ok(26),
        18 => Ok(22),
        19 => Ok(18),
        20 => Ok(14),
        21 => Ok(10),
        22 => Err(ErrorCode::NotAnInput1522),
        23 => Ok(6),
        _ => Err(ErrorCode::BadPower),
    }
}

pub open spec fn spec_col_20_registered(pin: usize) -> Result<usize, ErrorCode> {
    if pin == 1 {
        Err(ErrorCode::NotAnInput113)
    } else if pin == 2 {
        Ok(0)
    } else if pin == 3 {
        Ok(4)
    } else if pin == 4 {
        Ok(8)
    } else if pin == 5 {
        Ok(12)
    } else if pin == 6 {
        Ok(16)
    } else if pin == 7 {
        Ok(20)
    } else if pin == 8 {
        Ok(24)
    } else if pin == 9 {
        Ok(28)
    } else if pin == 10 {
        Ok(32)
    } else if pin == 11 {
        Ok(36)
    } else if pin == 12 {
        Err(ErrorCode::BadPower)
    } else if pin == 13 {
        Err(ErrorCode::NotAnInput113)
    } else if pin == 14 {
        Ok(38)
    } else if pin == 15 {
        Ok(34)
    } else if pin == 16 {
        Ok(30)
    } else if pin == 17 {
        Ok(26)
    } else if pin == 18 {
        Ok(22)
    } else if pin == 19 {
        Ok(18)
    } else if pin == 20 {
        Ok(14)
    } else if pin == 21 {
        Ok(10)
    } else if pin == 22 {
        Ok(6)
    } else if pin == 23 {
        Ok(2)
    } else {
        Err(ErrorCode::BadPower)
    }
}

fn col_20_registered(pin: usize) -> (r: Result<usize, ErrorCode>)
    ensures
        r == spec_col_20_registered(pin),
{
    match pin {
        1 => Err(ErrorCode::NotAnInput113),
        2 => Ok(0),
        3 => Ok(4),
        4 => Ok(8),
        5 => Ok(12),
        6 => Ok(16),
        7 => Ok(20),
        8 => Ok(24),
        9 => Ok(28),
        10 => Ok(32),
        11 => Ok(36),
        12 => Err(ErrorCode::BadPower),
        13 => Err(ErrorCode::NotAnInput113),
        14 => Ok(38),
        15 => Ok(34),
        16 => Ok(30),
        17 => Ok(26),
        18 => Ok(22),
        19 => Ok(18),
        20 => Ok(14),
        21 => Ok(10),
        22 => Ok(6),
        23 => Ok(2),
        _ => Err(ErrorCode::BadPower),
    }
}

pub open spec fn spec_col_22v10(pin: usize) -> Result<usize, ErrorCode> {
    if pin == 1 {
        Ok(0)
    } else if pin == 2 {
        Ok(4)
    } else if pin == 3 {
        Ok(8)
    } else if pin == 4 {
        Ok(12)
    } else if pin == 5 {
        Ok(16)
    } else if pin == 6 {
        Ok(20)
    } else if pin == 7 {
        Ok(24)
    } else if pin == 8 {
        Ok(28)
    } else if pin == 9 {
        Ok(32)
    } else if pin == 10 {
        Ok(36)
    } else if pin == 11 {
        Ok(40)
    } else if pin == 12 {
        Err(ErrorCode::BadPower)
    } else if pin == 13 {
        Ok(42)
    } else if pin == 14 {
        Ok(38)
    } else if pin == 15 {
        Ok(34)
    } else if pin == 16 {
        Ok(30)
    } else if pin == 17 {
        Ok(26)
    } else if pin == 18 {
        Ok(22)
    } else if pin == 19 {
        Ok(18)
    } else if pin == 20 {
        Ok(14)
    } else if pin == 21 {
        Ok(10)
    } else if pin == 22 {
        Ok(6)
    } else if pin == 23 {
        Ok(2)
    } else {
        Err(ErrorCode::BadPower)
    }
}

fn col_22v10(pin: usize) -> (r: Result<usize, ErrorCode>)
    ensures
        r == spec_col_22v10(pin),
{
    match pin {
        1 => Ok(0),
        2 => Ok(4),
        3 => Ok(8),
        4 => Ok(12),
        5 => Ok(16),
        6 => Ok(20),
        7 => Ok(24),
        8 => Ok(28),
        9 => Ok(32),
        10 => Ok(36),
        11 => Ok(40),
        12 => Err(ErrorCode::BadPower),
        13 => Ok(42),
        14 => Ok(38),
        15 => Ok(34),
        16 => Ok(30),
        17 => Ok(26),
        18 => Ok(22),
        19 => Ok(18),
        20 => Ok(14),
        21 => Ok(10),
        22 => Ok(6),
        23 => Ok(2),
        _ => Err(ErrorCode::BadPower),
    }
}

pub open spec fn spec_col_20ra10(pin: usize) -> Result<usize, ErrorCode> {
    if pin == 1 {
        Err(ErrorCode::NotAnInput1)
    } else if pin == 2 {
        Ok(0)
    } else if pin == 3 {
        Ok(4)
    } else if pin == 4 {
        Ok(8)
    } else if pin == 5 {
        Ok(12)
    } else if pin == 6 {
        Ok(16)
    } else if pin == 7 {
        Ok(20)
    } else if pin == 8 {
        Ok(24)
    } else if pin == 9 {
        Ok(28)
    } else if pin == 10 {
        Ok(32)
    } else if pin == 11 {
        Ok(36)
    } else if pin == 12 {
        Err(ErrorCode::BadPower)
    } else if pin == 13 {
        Err(ErrorCode::NotAnInput13)
    } else if pin == 14 {
        Ok(38)
    } else if pin == 15 {
        Ok(34)
    } else if pin == 16 {
        Ok(30)
    } else if pin == 17 {
        Ok(26)
    } else if pin == 18 {
        Ok(22)
    } else if pin == 19 {
        Ok(18)
    } else if pin == 20 {
        Ok(14)
    } else if pin == 21 {
        Ok(10)
    } else if pin == 22 {
        Ok(6)
    } else if pin == 23 {
        Ok(2)
    } else {
        Err(ErrorCode::BadPower)
    }
}

fn col_20ra10(pin: usize) -> (r: Result<usize, ErrorCode>)
    ensures
        r == spec_col_20ra10(pin),
{
    match pin {
        1 => Err(ErrorCode::NotAnInput1),
        2 => Ok(0),
        3 => Ok(4),
        4 => Ok(8),
        5 => Ok(12),
        6 => Ok(16),
        7 => Ok(20),
        8 => Ok(24),
        9 => Ok(28),
        10 => Ok(32),
        11 => Ok(36),
        12 => Err(ErrorCode::BadPower),
        13 => Err(ErrorCode::NotAnInput13),
        14 => Ok(38),
        15 => Ok(34),
        16 => Ok(30),
        17 => Ok(26),
        18 => Ok(22),
        19 => Ok(18),
        20 => Ok(14),
        21 => Ok(10),
        22 => Ok(6),
        23 => Ok(2),
        _ => Err(ErrorCode::BadPower),
    }
}


/// A term that a slot accepts never has more product groups than the
/// slot has rows left.
pub proof fn lemma_term_fits(ctx: FuseCtx, rows: Seq<Seq<Pin>>, offset: int, max: int, single: bool)
    requires
        offset <= max,
        spec_add_term_code(ctx, rows, offset, max, single) is None,
    ensures
        rows.len() <= max - offset,
    decreases rows.len(),
{
    if rows.len() > 0 {
        assert(offset != max);
        lemma_term_fits(ctx, rows.drop_first(), offset + 1, max, single);
    }
}

/// A term is accepted exactly when its product groups fit the rows
/// left and every pin of every group has a fuse column.
pub proof fn lemma_add_term_code_none(
    ctx: FuseCtx,
    rows: Seq<Seq<Pin>>,
    offset: int,
    max: int,
    single: bool,
)
    requires
        offset <= max,
    ensures
        (spec_add_term_code(ctx, rows, offset, max, single) is None) <==> (rows.len() <= max
            - offset && forall|k: int|
            0 <= k < rows.len() ==> spec_product_err(ctx, #[trigger] rows[k]) is None),
    decreases rows.len(),
{
    if rows.len() == 0 {
    } else if offset == max {
        assert(!(rows.len() <= max - offset));
    } else if spec_product_err(ctx, rows[0]) is Some {
        assert(spec_add_term_code(ctx, rows, offset, max, single) is Some);
    } else {
        lemma_add_term_code_none(ctx, rows.drop_first(), offset + 1, max, single);
        assert(forall|k: int|
            0 <= k < rows.drop_first().len() ==> rows.drop_first()[k] == rows[k + 1]);
        if spec_add_term_code(ctx, rows, offset, max, single) is None {
            assert(spec_add_term_code(ctx, rows.drop_first(), offset + 1, max, single) is None);
            assert forall|k: int|
                0 <= k < rows.len() implies spec_product_err(ctx, #[trigger] rows[k]) is None by {
                if k > 0 {
                    assert(spec_product_err(ctx, rows.drop_first()[k - 1]) is None);
                }
            }
        }
        if rows.len() <= max - offset && (forall|k: int|
            0 <= k < rows.len() ==> spec_product_err(ctx, #[trigger] rows[k]) is None) {
            assert forall|k: int|
                0 <= k < rows.drop_first().len() implies spec_product_err(
                    ctx,
                    #[trigger] rows.drop_first()[k],
                ) is None by {
                assert(rows.drop_first()[k] == rows[k + 1]);
            }
            assert(spec_add_term_code(ctx, rows.drop_first(), offset + 1, max, single) is None);
        }
    }
}

/// The constant-true term placed in any bounds: the slot's first row
/// keeps its fuses, the remaining rows are zeroed, and nothing
/// outside the slot changes.
pub proof fn lemma_true_term_placement(ctx: FuseCtx, f: Seq<bool>, start: int, offset: int, max: int)
    requires
        offset < max,
    ensures
        spec_add_term_code(ctx, seq![Seq::<Pin>::empty()], offset, max, max == offset + 1)
            is None,
        ({
            let cols = ctx.chip.num_cols() as int;
            let out = spec_clear_rows(
                spec_apply_products(ctx, f, start, offset, seq![Seq::<Pin>::empty()]),
                cols,
                start + offset + 1,
                start + max,
            );
            &&& out.len() == f.len()
            &&& forall|i: int|
                0 <= i < f.len() && i < (start + offset + 1) * cols ==> out[i] == f[i]
            &&& forall|i: int|
                0 <= i < f.len() && (start + offset + 1) * cols <= i < (start + max) * cols
                    ==> out[i] == false
            &&& forall|i: int| 0 <= i < f.len() && i >= (start + max) * cols ==> out[i] == f[i]
        }),
{
    let one = seq![Seq::<Pin>::empty()];
    assert(one[0].len() == 0);
    assert(spec_product_err(ctx, one[0]) is None);
    assert(one.drop_first() =~= Seq::<Seq<Pin>>::empty());
    assert(spec_add_term_code(ctx, one.drop_first(), offset + 1, max, max == offset + 1)
        is None);
    assert(spec_add_term_code(ctx, one, offset, max, max == offset + 1) is None);
    assert(spec_apply_product(ctx, f, start + offset, one[0]) == f);
    assert(spec_apply_products(ctx, f, start, offset + 1, one.drop_first()) == f);
    assert(spec_apply_products(ctx, f, start, offset, one) == f);
}

/// The constant-false term placed in any bounds zeroes every row of
/// the slot and touches nothing else.
pub proof fn lemma_false_term_placement(
    ctx: FuseCtx,
    f: Seq<bool>,
    start: int,
    offset: int,
    max: int,
)
    requires
        offset <= max,
    ensures
        spec_add_term_code(ctx, Seq::<Seq<Pin>>::empty(), offset, max, max == offset + 1)
            is None,
        ({
            let cols = ctx.chip.num_cols() as int;
            let out = spec_clear_rows(
                spec_apply_products(ctx, f, start, offset, Seq::<Seq<Pin>>::empty()),
                cols,
                start + offset,
                start + max,
            );
            &&& out.len() == f.len()
            &&& forall|i: int|
                0 <= i < f.len() && (start + offset) * cols <= i < (start + max) * cols ==> out[i]
                    == false
            &&& forall|i: int|
                0 <= i < f.len() && (i < (start + offset) * cols || i >= (start + max) * cols)
                    ==> out[i] == f[i]
        }),
{
}

/// On the GAL22V10 a registered OLMC pin feeds back inverted: the
/// fuse blown for such a pin sits at the column its negation would
/// use on any other pin.
pub proof fn lemma_registered_feedback_flip(ctx: FuseCtx, f: Seq<bool>, row: int, p: Pin)
    requires
        ctx.needs_flip(p.pin),
        ctx.pin_to_column(p.pin) is Ok,
    ensures
        spec_apply_pin(ctx, f, row, p) == f.update(
            row * ctx.chip.num_cols() + ctx.pin_to_column(p.pin)->Ok_0 + (if p.neg {
                0int
            } else {
                1int
            }),
            false,
        ),
{
}

} // verus!
