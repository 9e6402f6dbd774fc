//! Per-chip parameters of the supported GAL devices.
//!
//! `Chip` is the tag matched on for chip-specific behaviour; the
//! methods expose the fixed geometry of each device: pin count, fuse
//! array size, and the mapping from OLMC number to fuse rows.  What
//! varies with the GAL16V8/20V8 mode lives on `GAL` instead.

use vstd::prelude::*;

use crate::errors::ErrorCode;
use crate::text::str_eq;

verus! {

/// The range of fuse rows available to one term: rows
/// `start_row + row_offset` up to (excluding) `start_row + max_row`.
#[derive(Clone, Copy, Debug, PartialEq, Eq, Structural)]
pub struct Bounds {
    pub start_row: usize,
    pub max_row: usize,
    pub row_offset: usize,
}

/// The four supported devices.
#[derive(Clone, Copy, Debug, PartialEq, Eq, Structural)]
pub enum Chip {
    GAL16V8,
    GAL20V8,
    GAL22V10,
    GAL20RA10,
}

impl Chip {
    /// The chip a source file names on its first line.
    pub open spec fn spec_from_name(s: Seq<char>) -> Result<Chip, ErrorCode> {
        if s == "GAL16V8"@ {
            Ok(Chip::GAL16V8)
        } else if s == "GAL20V8"@ {
            Ok(Chip::GAL20V8)
        } else if s == "GAL22V10"@ {
            Ok(Chip::GAL22V10)
        } else if s == "GAL20RA10"@ {
            Ok(Chip::GAL20RA10)
        } else {
            Err(ErrorCode::BadGALType)
        }
    }

    pub fn from_name(name: &str) -> (r: Result<Chip, ErrorCode>)
        ensures
            r == Self::spec_from_name(name@),
    {
        if str_eq(name, "GAL16V8") {
            Ok(Chip::GAL16V8)
        } else if str_eq(name, "GAL20V8") {
            Ok(Chip::GAL20V8)
        } else if str_eq(name, "GAL22V10") {
            Ok(Chip::GAL22V10)
        } else if str_eq(name, "GAL20RA10") {
            Ok(Chip::GAL20RA10)
        } else {
            Err(ErrorCode::BadGALType)
        }
    }

    /// Human-readable device name.
    pub open spec fn spec_name(&self) -> Seq<char> {
        match self {
            Chip::GAL16V8 => "GAL16V8"@,
            Chip::GAL20V8 => "GAL20V8"@,
            Chip::GAL22V10 => "GAL22V10"@,
            Chip::GAL20RA10 => "GAL20RA10"@,
        }
    }

    pub fn name(&self) -> (r: &str)
        ensures
            r@ == self.spec_name(),
    {
        match self {
            Chip::GAL16V8 => "GAL16V8",
            Chip::GAL20V8 => "GAL20V8",
            Chip::GAL22V10 => "GAL22V10",
            Chip::GAL20RA10 => "GAL20RA10",
        }
    }

    /// Number of pins on the package.
    pub open spec fn spec_num_pins(&self) -> usize {
        match self {
            Chip::GAL16V8 => 20,
            Chip::GAL20V8 => 24,
            Chip::GAL22V10 => 24,
            Chip::GAL20RA10 => 24,
        }
    }

    #[verifier::when_used_as_spec(spec_num_pins)]
    pub fn num_pins(&self) -> (r: usize)
        ensures
            r == self.spec_num_pins(),
    {
        match self {
            Chip::GAL16V8 => 20,
            Chip::GAL20V8 => 24,
            Chip::GAL22V10 => 24,
            Chip::GAL20RA10 => 24,
        }
    }

    /// Number of rows of the main fuse array; each row is one AND term.
    pub open spec fn spec_num_rows(&self) -> usize {
        match self {
            Chip::GAL16V8 => 64,
            Chip::GAL20V8 => 64,
            Chip::GAL22V10 => 132,
            Chip::GAL20RA10 => 80,
        }
    }

    #[verifier::when_used_as_spec(spec_num_rows)]
    pub fn num_rows(&self) -> (r: usize)
        ensures
            r == self.spec_num_rows(),
    {
        match self {
            Chip::GAL16V8 => 64,
            Chip::GAL20V8 => 64,
            Chip::GAL22V10 => 132,
            Chip::GAL20RA10 => 80,
        }
    }

    /// Number of columns per row: one per input and one per negation.
    pub open spec fn spec_num_cols(&self) -> usize {
        match self {
            Chip::GAL16V8 => 32,
            Chip::GAL20V8 => 40,
            Chip::GAL22V10 => 44,
            Chip::GAL20RA10 => 40,
        }
    }

    #[verifier::when_used_as_spec(spec_num_cols)]
    pub fn num_cols(&self) -> (r: usize)
        ensures
            r == self.spec_num_cols(),
    {
        match self {
            Chip::GAL16V8 => 32,
            Chip::GAL20V8 => 40,
            Chip::GAL22V10 => 44,
            Chip::GAL20RA10 => 40,
        }
    }

    /// Size of the main fuse array: rows times columns.
    pub open spec fn spec_logic_size(&self) -> usize {
        match self {
            Chip::GAL16V8 => 2048,
            Chip::GAL20V8 => 2560,
            Chip::GAL22V10 => 5808,
            Chip::GAL20RA10 => 3200,
        }
    }

    #[verifier::when_used_as_spec(spec_logic_size)]
    pub fn logic_size(&self) -> (r: usize)
        ensures
            r == self.spec_logic_size(),
            r == self.spec_num_rows() * self.spec_num_cols(),
    {
        self.num_rows() * self.num_cols()
    }

    /// Total size of the bitstream, as written after `*QF`.
    pub open spec fn spec_total_size(&self) -> usize {
        match self {
            Chip::GAL16V8 => 2194,
            Chip::GAL20V8 => 2706,
            Chip::GAL22V10 => 5892,
            Chip::GAL20RA10 => 3274,
        }
    }

    #[verifier::when_used_as_spec(spec_total_size)]
    pub fn total_size(&self) -> (r: usize)
        ensures
            r == self.spec_total_size(),
    {
        match self {
            Chip::GAL16V8 => 2194,
            Chip::GAL20V8 => 2706,
            Chip::GAL22V10 => 5892,
            Chip::GAL20RA10 => 3274,
        }
    }

    /// Lowest pin number backed by an OLMC.
    pub open spec fn spec_min_olmc_pin(&self) -> usize {
        match self {
            Chip::GAL16V8 => 12,
            Chip::GAL20V8 => 15,
            Chip::GAL22V10 => 14,
            Chip::GAL20RA10 => 14,
        }
    }

    /// Pin number of the last OLMC-backed output.
    pub open spec fn spec_last_olmc(&self) -> usize {
        match self {
            Chip::GAL16V8 => 19,
            Chip::GAL20V8 => 22,
            Chip::GAL22V10 => 23,
            Chip::GAL20RA10 => 23,
        }
    }

    #[verifier::when_used_as_spec(spec_last_olmc)]
    pub fn last_olmc(&self) -> (r: usize)
        ensures
            r == self.spec_last_olmc(),
    {
        match self {
            Chip::GAL16V8 => 19,
            Chip::GAL20V8 => 22,
            Chip::GAL22V10 => 23,
            Chip::GAL20RA10 => 23,
        }
    }

    /// The OLMC index behind a pin, for pins that have one.
    pub open spec fn spec_pin_to_olmc(&self, pin: usize) -> Option<usize> {
        if self.spec_min_olmc_pin() <= pin && pin <= self.spec_last_olmc() {
            Some((pin - self.spec_min_olmc_pin()) as usize)
        } else {
            None
        }
    }

    #[verifier::when_used_as_spec(spec_pin_to_olmc)]
    pub fn pin_to_olmc(&self, pin: usize) -> (r: Option<usize>)
        ensures
            r == self.spec_pin_to_olmc(pin),
    {
        let min = match self {
            Chip::GAL16V8 => 12,
            Chip::GAL20V8 => 15,
            Chip::GAL22V10 => 14,
            Chip::GAL20RA10 => 14,
        };
        let max = self.last_olmc();
        if min <= pin && pin <= max {
            Some(pin - min)
        } else {
            None
        }
    }

    /// Count of OLMCs.
    pub open spec fn spec_num_olmcs(&self) -> usize {
        match self {
            Chip::GAL16V8 => 8,
            Chip::GAL20V8 => 8,
            Chip::GAL22V10 => 10,
            Chip::GAL20RA10 => 10,
        }
    }

    #[verifier::when_used_as_spec(spec_num_olmcs)]
    pub fn num_olmcs(&self) -> (r: usize)
        ensures
            r == self.spec_num_olmcs(),
            r == self.spec_last_olmc() - self.spec_min_olmc_pin() + 1,
    {
        match self {
            Chip::GAL16V8 => 8,
            Chip::GAL20V8 => 8,
            Chip::GAL22V10 => 10,
            Chip::GAL20RA10 => 10,
        }
    }

    /// First fuse row of the rows associated with an OLMC.
    pub open spec fn spec_start_row_for_olmc(&self, olmc_num: usize) -> usize {
        match self {
            Chip::GAL22V10 => {
                if olmc_num == 0 {
                    122
                } else if olmc_num == 1 {
                    111
                } else if olmc_num == 2 {
                    98
                } else if olmc_num == 3 {
                    83
                } else if olmc_num == 4 {
                    66
                } else if olmc_num == 5 {
                    49
                } else if olmc_num == 6 {
                    34
                } else if olmc_num == 7 {
                    21
                } else if olmc_num == 8 {
                    10
                } else {
                    1
                }
            },
            Chip::GAL20RA10 => (8 * (9 - olmc_num)) as usize,
            _ => (8 * (7 - olmc_num)) as usize,
        }
    }

    #[verifier::when_used_as_spec(spec_start_row_for_olmc)]
    pub fn start_row_for_olmc(&self, olmc_num: usize) -> (r: usize)
        requires
            olmc_num < self.spec_num_olmcs(),
        ensures
            r == self.spec_start_row_for_olmc(olmc_num),
    {
        match self {
            Chip::GAL22V10 => {
                match olmc_num {
                    0 => 122,
                    1 => 111,
                    2 => 98,
                    3 => 83,
                    4 => 66,
                    5 => 49,
                    6 => 34,
                    7 => 21,
                    8 => 10,
                    _ => 1,
                }
            },
            Chip::GAL20RA10 => 8 * (9 - olmc_num),
            _ => 8 * (7 - olmc_num),
        }
    }

    /// Number of fuse rows belonging to an OLMC; only the GAL22V10 is
    /// non-uniform.
    pub open spec fn spec_num_rows_for_olmc(&self, olmc_num: usize) -> usize {
        match self {
            Chip::GAL22V10 => {
                if olmc_num == 0 || olmc_num == 9 {
                    9
                } else if olmc_num == 1 || olmc_num == 8 {
                    11
                } else if olmc_num == 2 || olmc_num == 7 {
                    13
                } else if olmc_num == 3 || olmc_num == 6 {
                    15
                } else {
                    17
                }
            },
            _ => 8,
        }
    }

    #[verifier::when_used_as_spec(spec_num_rows_for_olmc)]
    pub fn num_rows_for_olmc(&self, olmc_num: usize) -> (r: usize)
        requires
            olmc_num < self.spec_num_olmcs(),
        ensures
            r == self.spec_num_rows_for_olmc(olmc_num),
    {
        match self {
            Chip::GAL22V10 => {
                match olmc_num {
                    0 | 9 => 9,
                    1 | 8 => 11,
                    2 | 7 => 13,
                    3 | 6 => 15,
                    _ => 17,
                }
            },
            _ => 8,
        }
    }

    /// The fuse-row range of an OLMC, with no rows used yet.
    pub fn get_bounds(&self, olmc_num: usize) -> (r: Bounds)
        requires
            olmc_num < self.spec_num_olmcs(),
        ensures
            r == (Bounds {
                start_row: self.spec_start_row_for_olmc(olmc_num),
                max_row: self.spec_num_rows_for_olmc(olmc_num),
                row_offset: 0,
            }),
    {
        Bounds {
            start_row: self.start_row_for_olmc(olmc_num),
            max_row: self.num_rows_for_olmc(olmc_num),
            row_offset: 0,
        }
    }
}

/// The chip behind the numeric tags used at foreign interfaces.
pub fn i32_to_chip(gal_type: i32) -> (r: Chip)
    requires
        1 <= gal_type <= 4,
    ensures
        gal_type == 1 ==> r == Chip::GAL16V8,
        gal_type == 2 ==> r == Chip::GAL20V8,
        gal_type == 3 ==> r == Chip::GAL22V10,
        gal_type == 4 ==> r == Chip::GAL20RA10,
{
    match gal_type {
        1 => Chip::GAL16V8,
        2 => Chip::GAL20V8,
        3 => Chip::GAL22V10,
        _ => Chip::GAL20RA10,
    }
}

} // verus!
