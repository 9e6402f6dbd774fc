//! Error codes for the whole pipeline.
//!
//! Every stage reports its first failure as an `ErrorCode` together
//! with the source line that produced it; `at_line` pairs the two up.

use vstd::prelude::*;

verus! {

/// Line numbers as they appear in diagnostics; the first line of a file is 1.
pub type LineNum = usize;

/// The suffix of a control equation (`.E`, `.CLK`, `.ARST`, `.APRST`),
/// recorded inside errors that concern such an equation.
#[derive(Clone, Copy, Debug, PartialEq, Eq, Structural)]
pub enum OutputSuffix {
    APRST,
    ARST,
    CLK,
    E,
}

/// The two global product terms of the GAL22V10.
#[derive(Clone, Copy, Debug, PartialEq, Eq, Structural)]
pub enum SpecialProductTerm {
    AR,
    SP,
}

/// The two power pins, for the errors that concern them.
#[derive(Clone, Copy, Debug, PartialEq, Eq, Structural)]
pub enum PowerName {
    VCC,
    GND,
}

/// Everything that can go wrong between reading the source text and
/// emitting the fuse map.  A code never carries the line number; the
/// surrounding `Error` does.
#[derive(Clone, Debug, PartialEq, Eq)]
pub enum ErrorCode {
    /// `AR`/`SP` used as a pin name on a GAL22V10.
    ReservedPinName { term: SpecialProductTerm },
    /// A suffix attached to `AR`/`SP` on the left-hand side.
    SpecialSuffix { term: SpecialProductTerm },
    /// Mode analysis admitted a pin that the fuse tables reject.
    BadAnalysis,
    /// `AR`/`SP` referenced inside an equation body.
    BadSpecial { term: SpecialProductTerm },
    /// A character the tokeniser does not know.
    BadChar { c: char },
    /// End of file where the right-hand side of an equation was expected.
    BadEquationEOF,
    /// End of line where a pin name was expected.
    BadEOL,
    /// The first line does not name a supported GAL.
    BadGALType,
    /// `NC` referenced inside an equation.
    BadNC,
    /// Wrong number of names on a pin-definition line.
    BadPinCount { found: usize, expected: usize },
    /// End of file where a pin-definition line was expected.
    BadPinEOF,
    /// A token that cannot stand in a pin-definition position.
    BadPin,
    /// `VCC`/`GND` at a place where the fuse tables have no column.
    BadPower,
    /// End of file where the signature line was expected.
    BadSigEOF,
    /// A dotted suffix other than `T`, `R`, `E`, `CLK`, `ARST`, `APRST`.
    BadSuffix,
    /// A token out of place in an equation.
    BadToken,
    /// The pin that must be `VCC`/`GND` is named otherwise.
    InvalidPowerPinName { pin: usize, name: PowerName },
    /// `VCC`/`GND` used away from its fixed position.
    InvalidPowerPinLocation { pin: usize, name: PowerName, expected_pin: usize },
    /// `.CLK`/`.ARST`/`.APRST` on a chip that has no such terms.
    DisallowedControl { suffix: OutputSuffix },
    /// `.ARST`/`.APRST` on an output that is not registered.
    InvalidControl { suffix: OutputSuffix },
    /// Negated `AR`/`SP` on the left-hand side.
    InvertedSpecial { term: SpecialProductTerm },
    /// Negated control equation (`/X.E = ...`).
    InvertedControl { suffix: OutputSuffix },
    /// `/VCC` or `/GND` in an equation body.
    InvertedPower,
    /// More than one product group where the slot has a single row.
    MoreThanOneProduct,
    /// A registered GAL20RA10 output without a `.CLK` equation.
    NoCLK,
    /// `=` missing after the left-hand side.
    NoEquals,
    /// `/` not followed by a pin name.
    NoPinName,
    /// Pin 1 of the GAL20RA10 (`/PL`) referenced as an input.
    NotAnInput1,
    /// Pin 13 of the GAL20RA10 (`/OE`) referenced as an input.
    NotAnInput13,
    /// Pin 1 or 11 of a registered-mode GAL16V8 referenced as an input.
    NotAnInput111,
    /// Pin 1 or 13 of a registered-mode GAL20V8 referenced as an input.
    NotAnInput113,
    /// Pin 12 or 19 of a complex-mode GAL16V8 referenced as an input.
    NotAnInput1219,
    /// Pin 15 or 22 of a complex-mode GAL20V8 referenced as an input.
    NotAnInput1522,
    /// The left-hand pin has no OLMC behind it.
    NotAnOutput,
    /// `AR`/`SP` defined twice.
    RepeatedSpecial { term: SpecialProductTerm },
    /// The same control suffix defined twice for one output.
    RepeatedControl { suffix: OutputSuffix },
    /// An output defined by more than one base equation.
    RepeatedOutput,
    /// The same name on two pins of the definition lines.
    RepeatedPinName,
    /// A control equation whose output was never defined.
    UndefinedOutput { suffix: OutputSuffix },
    /// More product groups than the slot has rows.
    TooManyProducts,
    /// Tristate control for a registered GAL16V8/20V8 output.
    TristateReg,
    /// A name that no pin-definition line introduced.
    UnknownPin,
    /// Tristate control for an output without `.T`.
    UnmatchedTristate,
}

/// An error code tied to the source line that produced it.
#[derive(Clone, Debug, PartialEq, Eq)]
pub struct Error {
    pub code: ErrorCode,
    pub line: LineNum,
}

/// An `Error` tied to the file it came from, for the outermost caller.
#[derive(Clone, Debug, PartialEq, Eq)]
pub struct FileError {
    pub file: String,
    pub err: Error,
}

/// Attach a line number to the error of a stage that reports bare codes.
pub fn at_line<Val>(line: LineNum, res: Result<Val, ErrorCode>) -> (r: Result<Val, Error>)
    ensures
        match res {
            Ok(v) => r == Ok::<Val, Error>(v),
            Err(e) => r == Err::<Val, Error>(Error { code: e, line }),
        },
{
    match res {
        Ok(v) => Ok(v),
        Err(e) => Err(Error { code: e, line }),
    }
}

} // verus!
