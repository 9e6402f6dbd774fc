//! The error conditions of the language and the fuse builder.

use galette::chips::Chip;
use galette::errors::{Error, ErrorCode, OutputSuffix, PowerName, SpecialProductTerm};
use galette::gal::{false_term, true_term, Bounds, Mode, Term, GAL};
use galette::writer::Config;

fn to_lines(src: &str) -> Vec<String> {
    src.lines().map(|s| s.to_string()).collect()
}

fn assemble(src: &str) -> Result<String, Error> {
    let cfg = Config { gen_fuse: true, gen_chip: true, gen_pin: true, jedec_sec_bit: false };
    galette::assemble(&to_lines(src), &cfg)
}

#[test]
fn too_many_products_at_the_boundary() {
    // A GAL16V8 slot in Simple mode has eight rows: eight product
    // groups succeed, nine fail.
    let eight = "GAL16V8\n\
sig\n\
A B C D E F G H I GND\n\
NC NC NC NC NC NC NC NC O VCC\n\
O = A + B + C + D + E + F + G + H\n";
    assert!(assemble(eight).is_ok());

    let nine = "GAL16V8\n\
sig\n\
A B C D E F G H I GND\n\
NC NC NC NC NC NC NC NC O VCC\n\
O = A + B + C + D + E + F + G + H + I\n";
    let e = assemble(nine).unwrap_err();
    assert_eq!(e.code, ErrorCode::TooManyProducts);
    assert_eq!(e.line, 5);
}

#[test]
fn single_row_slot_rejects_two_products() {
    // AR is a single fuse row: two OR'd groups cannot fit.
    let src = "GAL22V10\n\
sig\n\
Clk RESET HALT A NC NC NC NC NC NC NC GND\n\
NC O NC NC NC NC NC NC NC NC NC VCC\n\
O.R = A\n\
AR = RESET + HALT\n";
    let e = assemble(src).unwrap_err();
    assert_eq!(e.code, ErrorCode::MoreThanOneProduct);
    assert_eq!(e.line, 6);
}

#[test]
fn inverted_power_is_rejected() {
    let src = "GAL16V8\n\
sig\n\
A B NC NC NC NC NC NC NC GND\n\
NC NC NC NC NC NC NC NC O VCC\n\
O = /VCC\n";
    let e = assemble(src).unwrap_err();
    assert_eq!(e.code, ErrorCode::InvertedPower);
    assert_eq!(e.line, 5);

    let src_gnd = "GAL16V8\n\
sig\n\
A B NC NC NC NC NC NC NC GND\n\
NC NC NC NC NC NC NC NC O VCC\n\
O = /GND\n";
    let e = assemble(src_gnd).unwrap_err();
    assert_eq!(e.code, ErrorCode::InvertedPower);
}

#[test]
fn complex_mode_reserves_pins_12_and_19() {
    // F2 sits on pin 12.  With a tristate output the chip runs in
    // Complex mode, where pin 12 cannot feed the array.
    let complex = "GAL16V8\n\
sig\n\
A B C D E F G H I GND\n\
NC F2 NC NC NC NC NC NC O VCC\n\
O.T = A * F2\n";
    let e = assemble(complex).unwrap_err();
    assert_eq!(e.code, ErrorCode::NotAnInput1219);
    assert_eq!(e.line, 5);

    // The same reference is fine in Simple mode.
    let simple = "GAL16V8\n\
sig\n\
A B C D E F G H I GND\n\
NC F2 NC NC NC NC NC NC O VCC\n\
O = A * F2\n";
    assert!(assemble(simple).is_ok());
}

#[test]
fn ra10_registered_output_needs_clk() {
    let src = "GAL20RA10\n\
sig\n\
PL A B NC NC NC NC NC NC NC NC GND\n\
NC O NC NC NC NC NC NC NC NC NC VCC\n\
O.R = A\n";
    let e = assemble(src).unwrap_err();
    assert_eq!(e.code, ErrorCode::NoCLK);
    assert_eq!(e.line, 5);

    let with_clk = "GAL20RA10\n\
sig\n\
PL A B C NC NC NC NC NC NC NC GND\n\
NC O NC NC NC NC NC NC NC NC NC VCC\n\
O.R = A\n\
O.CLK = C\n";
    assert!(assemble(with_clk).is_ok());
}

#[test]
fn reserved_pin_name_ar_on_v10() {
    let src = "GAL22V10\n\
sig\n\
Clk AR NC NC NC NC NC NC NC NC NC GND\n\
NC O NC NC NC NC NC NC NC NC NC VCC\n\
O = Clk\n";
    let e = assemble(src).unwrap_err();
    assert_eq!(e.code, ErrorCode::ReservedPinName { term: SpecialProductTerm::AR });
    assert_eq!(e.line, 3);
}

#[test]
fn power_pins_have_fixed_positions() {
    // VCC anywhere but pin 24 of a GAL20V8 is rejected on that line.
    let vcc_wrong = "GAL20V8\n\
sig\n\
A VCC C D E F G H I J K GND\n\
NC NC NC NC NC NC NC NC NC NC O VCC\n\
O = A\n";
    let e = assemble(vcc_wrong).unwrap_err();
    assert_eq!(
        e.code,
        ErrorCode::InvalidPowerPinLocation { pin: 2, name: PowerName::VCC, expected_pin: 24 },
    );
    assert_eq!(e.line, 3);

    // GND must sit on pin 12.
    let gnd_wrong = "GAL20V8\n\
sig\n\
A GND C D E F G H I J K L\n\
NC NC NC NC NC NC NC NC NC NC O VCC\n\
O = A\n";
    let e = assemble(gnd_wrong).unwrap_err();
    assert_eq!(
        e.code,
        ErrorCode::InvalidPowerPinLocation { pin: 2, name: PowerName::GND, expected_pin: 12 },
    );
    assert_eq!(e.line, 3);
}

#[test]
fn repeated_output_is_rejected() {
    let src = "GAL16V8\n\
sig\n\
A B NC NC NC NC NC NC NC GND\n\
NC NC NC NC NC NC NC NC O VCC\n\
O = A\n\
O = B\n";
    let e = assemble(src).unwrap_err();
    assert_eq!(e.code, ErrorCode::RepeatedOutput);
    assert_eq!(e.line, 6);
}

#[test]
fn tristate_enable_needs_tristate_output() {
    // An explicit enable on a plain combinatorial output is rejected.
    let src = "GAL16V8\n\
sig\n\
A B NC NC NC NC NC NC NC GND\n\
NC NC NC NC NC NC NC NC O VCC\n\
O = A\n\
O.E = B\n";
    let e = assemble(src).unwrap_err();
    assert_eq!(e.code, ErrorCode::UnmatchedTristate);

    // And on a registered V8 output as well.
    let reg = "GAL16V8\n\
sig\n\
Clk A B NC NC NC NC NC NC GND\n\
NC NC NC NC NC NC NC NC Q VCC\n\
Q.R = A\n\
Q.E = B\n";
    let e = assemble(reg).unwrap_err();
    assert_eq!(e.code, ErrorCode::TristateReg);
}

#[test]
fn clk_suffix_is_ra10_only() {
    let src = "GAL16V8\n\
sig\n\
Clk A B NC NC NC NC NC NC GND\n\
NC NC NC NC NC NC NC NC Q VCC\n\
Q.R = A\n\
Q.CLK = Clk\n";
    let e = assemble(src).unwrap_err();
    assert_eq!(e.code, ErrorCode::DisallowedControl { suffix: OutputSuffix::CLK });
}

#[test]
fn unknown_and_bad_names() {
    let unknown = "GAL16V8\n\
sig\n\
A B NC NC NC NC NC NC NC GND\n\
NC NC NC NC NC NC NC NC O VCC\n\
O = Nowhere\n";
    let e = assemble(unknown).unwrap_err();
    assert_eq!(e.code, ErrorCode::UnknownPin);

    let nc = "GAL16V8\n\
sig\n\
A B NC NC NC NC NC NC NC GND\n\
NC NC NC NC NC NC NC NC O VCC\n\
O = NC\n";
    let e = assemble(nc).unwrap_err();
    assert_eq!(e.code, ErrorCode::BadNC);

    let bad_char = "GAL16V8\n\
sig\n\
A B NC NC NC NC NC NC NC GND\n\
NC NC NC NC NC NC NC NC O VCC\n\
O = A ? B\n";
    let e = assemble(bad_char).unwrap_err();
    assert_eq!(e.code, ErrorCode::BadChar { c: '?' });

    let bad_suffix = "GAL16V8\n\
sig\n\
A B NC NC NC NC NC NC NC GND\n\
NC NC NC NC NC NC NC NC O VCC\n\
O.X = A\n";
    let e = assemble(bad_suffix).unwrap_err();
    assert_eq!(e.code, ErrorCode::BadSuffix);
}

#[test]
fn bad_gal_type_and_eof() {
    let e = assemble("GAL9000\n").unwrap_err();
    assert_eq!(e.code, ErrorCode::BadGALType);
    assert_eq!(e.line, 1);

    let e = assemble("GAL16V8\n").unwrap_err();
    assert_eq!(e.code, ErrorCode::BadSigEOF);
    assert_eq!(e.line, 1);

    let e = assemble("GAL16V8\nsig\n").unwrap_err();
    assert_eq!(e.code, ErrorCode::BadPinEOF);
    assert_eq!(e.line, 2);

    let e = assemble("GAL16V8\nsig\nA B NC NC NC NC NC NC NC GND\n").unwrap_err();
    assert_eq!(e.code, ErrorCode::BadPinEOF);
    assert_eq!(e.line, 3);

    let e = assemble("GAL16V8\nsig\nA B GND\nNC NC NC NC NC NC NC NC O VCC\nO = A\n")
        .unwrap_err();
    assert_eq!(e.code, ErrorCode::BadPinCount { found: 3, expected: 10 });
    assert_eq!(e.line, 3);
}

#[test]
fn continuation_lines_join() {
    let src = "GAL16V8\n\
sig\n\
A B C NC NC NC NC NC NC GND\n\
NC NC NC NC NC NC NC NC O VCC\n\
O = A +\n\
    B + C\n";
    assert!(assemble(src).is_ok());

    let lead = "GAL16V8\n\
sig\n\
A B C NC NC NC NC NC NC GND\n\
NC NC NC NC NC NC NC NC O VCC\n\
O = A\n\
+ B\n";
    assert!(assemble(lead).is_ok());
}

#[test]
fn comments_and_description_stop() {
    let src = "GAL16V8\n\
sig\n\
A B NC NC NC NC NC NC NC GND ; the input row\n\
NC NC NC NC NC NC NC NC O VCC\n\
O = A * B ; a comment\n\
DESCRIPTION\n\
this text is ignored, even = invalid ? tokens\n";
    assert!(assemble(src).is_ok());
}

#[test]
fn add_term_bounds_errors_directly() {
    // The fuse-programming primitive itself.
    let mut gal = GAL::new(Chip::GAL16V8);
    gal.set_mode(Mode::Simple);
    let t = true_term(7);
    let bounds = Bounds { start_row: 0, max_row: 8, row_offset: 0 };
    assert!(gal.add_term(&t, &bounds).is_ok());

    let f = false_term(9);
    let bounds = Bounds { start_row: 8, max_row: 8, row_offset: 0 };
    assert!(gal.add_term(&f, &bounds).is_ok());

    // Two empty products into a single-row window: the friendlier code.
    let two = Term { line_num: 11, pins: vec![Vec::new(), Vec::new()] };
    let bounds = Bounds { start_row: 16, max_row: 1, row_offset: 0 };
    let e = gal.add_term(&two, &bounds).unwrap_err();
    assert_eq!(e, Error { code: ErrorCode::MoreThanOneProduct, line: 11 });

    // Nine into an eight-row window: the general code.
    let nine = Term { line_num: 13, pins: vec![Vec::new(); 9] };
    let bounds = Bounds { start_row: 24, max_row: 8, row_offset: 0 };
    let e = gal.add_term(&nine, &bounds).unwrap_err();
    assert_eq!(e, Error { code: ErrorCode::TooManyProducts, line: 13 });
}
