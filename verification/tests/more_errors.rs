//! The remaining error variants, each from an input that provokes it.

use galette::chips::{i32_to_chip, Chip};
use galette::errors::{Error, ErrorCode, OutputSuffix, SpecialProductTerm};
use galette::writer::Config;

fn to_lines(src: &str) -> Vec<String> {
    src.lines().map(|s| s.to_string()).collect()
}

fn assemble(src: &str) -> Result<String, Error> {
    let cfg = Config { gen_fuse: true, gen_chip: true, gen_pin: true, jedec_sec_bit: false };
    galette::assemble(&to_lines(src), &cfg)
}

const V8_HEAD: &str = "GAL16V8\n\
sig\n\
Clk A B NC NC NC NC NC NC GND\n\
NC NC NC NC NC NC NC NC Q VCC\n";

const RA10_HEAD: &str = "GAL20RA10\n\
sig\n\
NC A B C NC NC NC NC NC NC NC GND\n\
NC O NC NC NC NC NC NC NC NC NC VCC\n";

const V10_HEAD: &str = "GAL22V10\n\
sig\n\
Clk A B NC NC NC NC NC NC NC NC GND\n\
NC O NC NC NC NC NC NC NC NC NC VCC\n";

#[test]
fn not_an_output() {
    let src = format!("{}A = B\n", V8_HEAD);
    let e = assemble(&src).unwrap_err();
    assert_eq!(e.code, ErrorCode::NotAnOutput);
    assert_eq!(e.line, 5);
}

#[test]
fn no_equals_and_lexical_errors() {
    let e = assemble(&format!("{}Q A\n", V8_HEAD)).unwrap_err();
    assert_eq!(e.code, ErrorCode::NoEquals);

    let e = assemble(&format!("{}Q =\n", V8_HEAD)).unwrap_err();
    assert_eq!(e.code, ErrorCode::BadEOL);
    assert_eq!(e.line, 5);

    let e = assemble(&format!("{}Q = = A\n", V8_HEAD)).unwrap_err();
    assert_eq!(e.code, ErrorCode::BadToken);

    let e = assemble(&format!("{}Q = /1\n", V8_HEAD)).unwrap_err();
    assert_eq!(e.code, ErrorCode::NoPinName);

    let e = assemble(&format!("{}Q = A.T\n", V8_HEAD)).unwrap_err();
    assert_eq!(e.code, ErrorCode::BadPin);
}

#[test]
fn repeated_and_inverted_controls() {
    let e = assemble(&format!("{}O.R = A\nO.CLK = B\nO.CLK = C\n", RA10_HEAD)).unwrap_err();
    assert_eq!(e.code, ErrorCode::RepeatedControl { suffix: OutputSuffix::CLK });

    let e = assemble(&format!("{}O.R = A\n/O.CLK = B\n", RA10_HEAD)).unwrap_err();
    assert_eq!(e.code, ErrorCode::InvertedControl { suffix: OutputSuffix::CLK });
}

#[test]
fn ra10_control_needs_registered_output() {
    // .ARST on a combinatorial output.
    let e = assemble(&format!("{}O = A\nO.ARST = B\n", RA10_HEAD)).unwrap_err();
    assert_eq!(e.code, ErrorCode::InvalidControl { suffix: OutputSuffix::ARST });

    // .APRST with no output at all.
    let e = assemble(&format!("{}O.APRST = B\n", RA10_HEAD)).unwrap_err();
    assert_eq!(e.code, ErrorCode::UndefinedOutput { suffix: OutputSuffix::APRST });

    // .E with no output at all.
    let e = assemble(&format!("{}O.E = B\n", V10_HEAD)).unwrap_err();
    assert_eq!(e.code, ErrorCode::UndefinedOutput { suffix: OutputSuffix::E });
}

#[test]
fn ra10_reserved_input_pins() {
    let with_pin1 = "GAL20RA10\n\
sig\n\
PL A B C NC NC NC NC NC NC NC GND\n\
NC O NC NC NC NC NC NC NC NC NC VCC\n\
O.R = PL\n\
O.CLK = C\n";
    let e = assemble(with_pin1).unwrap_err();
    assert_eq!(e.code, ErrorCode::NotAnInput1);

    let with_pin13 = "GAL20RA10\n\
sig\n\
NC A B C NC NC NC NC NC NC NC GND\n\
OE O NC NC NC NC NC NC NC NC NC VCC\n\
O.R = OE\n\
O.CLK = C\n";
    let e = assemble(with_pin13).unwrap_err();
    assert_eq!(e.code, ErrorCode::NotAnInput13);
}

#[test]
fn registered_mode_reserves_clock_and_oe_pins() {
    // In Registered mode pin 1 clocks the registers and pin 11 is /OE;
    // neither can feed the array.
    let e = assemble(&format!("{}Q.R = Clk\n", V8_HEAD)).unwrap_err();
    assert_eq!(e.code, ErrorCode::NotAnInput111);

    let v20 = "GAL20V8\n\
sig\n\
Clk A B C D E F G H I J GND\n\
NC NC NC NC NC NC NC NC NC Q NC VCC\n\
Q.R = Clk\n";
    let e = assemble(v20).unwrap_err();
    assert_eq!(e.code, ErrorCode::NotAnInput113);
}

#[test]
fn complex_mode_reserves_pins_15_and_22_on_20v8() {
    let v20 = "GAL20V8\n\
sig\n\
A B C D E F G H I J K GND\n\
NC NC F2 NC NC NC NC NC NC Q NC VCC\n\
Q.T = A * F2\n";
    let e = assemble(v20).unwrap_err();
    assert_eq!(e.code, ErrorCode::NotAnInput1522);
}

#[test]
fn power_in_longer_equation_is_bad_power() {
    let e = assemble(&format!("{}Q = A * VCC\n", V8_HEAD)).unwrap_err();
    assert_eq!(e.code, ErrorCode::BadPower);
}

#[test]
fn special_terms_only_on_the_left() {
    let e = assemble(&format!("{}O = A\nAR = AR\n", V10_HEAD)).unwrap_err();
    assert_eq!(e.code, ErrorCode::BadSpecial { term: SpecialProductTerm::AR });

    let e = assemble(&format!("{}O = A\nAR.T = B\n", V10_HEAD)).unwrap_err();
    assert_eq!(e.code, ErrorCode::SpecialSuffix { term: SpecialProductTerm::AR });

    let e = assemble(&format!("{}O = A\n/SP = B\n", V10_HEAD)).unwrap_err();
    assert_eq!(e.code, ErrorCode::InvertedSpecial { term: SpecialProductTerm::SP });

    let e = assemble(&format!("{}O = A\nAR = B\nAR = B\n", V10_HEAD)).unwrap_err();
    assert_eq!(e.code, ErrorCode::RepeatedSpecial { term: SpecialProductTerm::AR });
}

#[test]
fn repeated_pin_name_and_wrong_power_name() {
    let dup = "GAL16V8\n\
sig\n\
A A NC NC NC NC NC NC NC GND\n\
NC NC NC NC NC NC NC NC O VCC\n\
O = A\n";
    let e = assemble(dup).unwrap_err();
    assert_eq!(e.code, ErrorCode::RepeatedPinName);
    assert_eq!(e.line, 3);

    let wrong_gnd = "GAL16V8\n\
sig\n\
A B NC NC NC NC NC NC NC Ground\n\
NC NC NC NC NC NC NC NC O VCC\n\
O = A\n";
    let e = assemble(wrong_gnd).unwrap_err();
    assert!(matches!(e.code, ErrorCode::InvalidPowerPinName { pin: 10, .. }));
}

#[test]
fn equation_eof_mid_equation() {
    // A trailing operator pulls in the next line; at end of file the
    // incomplete right-hand side is reported.
    let e = assemble(&format!("{}Q = A +\n", V8_HEAD)).unwrap_err();
    assert_eq!(e.code, ErrorCode::BadEOL);
    assert_eq!(e.line, 5);
}

#[test]
fn i32_to_chip_maps_tags() {
    assert_eq!(i32_to_chip(1), Chip::GAL16V8);
    assert_eq!(i32_to_chip(2), Chip::GAL20V8);
    assert_eq!(i32_to_chip(3), Chip::GAL22V10);
    assert_eq!(i32_to_chip(4), Chip::GAL20RA10);
}

#[test]
fn chip_catalog_values() {
    let c = Chip::GAL16V8;
    assert_eq!(c.name(), "GAL16V8");
    assert_eq!(c.num_pins(), 20);
    assert_eq!(c.num_rows(), 64);
    assert_eq!(c.num_cols(), 32);
    assert_eq!(c.logic_size(), 2048);
    assert_eq!(c.total_size(), 2194);
    assert_eq!(c.num_olmcs(), 8);
    assert_eq!(c.last_olmc(), 19);
    assert_eq!(c.pin_to_olmc(12), Some(0));
    assert_eq!(c.pin_to_olmc(19), Some(7));
    assert_eq!(c.pin_to_olmc(11), None);
    assert_eq!(c.start_row_for_olmc(0), 56);
    assert_eq!(c.num_rows_for_olmc(0), 8);

    let v10 = Chip::GAL22V10;
    assert_eq!(v10.total_size(), 5892);
    assert_eq!(v10.start_row_for_olmc(0), 122);
    assert_eq!(v10.num_rows_for_olmc(0), 9);
    assert_eq!(v10.num_rows_for_olmc(4), 17);
    assert_eq!(Chip::from_name("GAL20RA10"), Ok(Chip::GAL20RA10));
    assert_eq!(Chip::from_name("GAL10"), Err(galette::errors::ErrorCode::BadGALType));
}
