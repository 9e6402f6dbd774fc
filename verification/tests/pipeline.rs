//! End-to-end runs of the pipeline over small source files.

use galette::blueprint::Blueprint;
use galette::gal_builder::build;
use galette::parser::parse;
use galette::writer::{pin_type, Config};

fn to_lines(src: &str) -> Vec<String> {
    src.lines().map(|s| s.to_string()).collect()
}

fn config() -> Config {
    Config { gen_fuse: true, gen_chip: true, gen_pin: true, jedec_sec_bit: false }
}

fn assemble(src: &str) -> Result<String, galette::errors::Error> {
    galette::assemble(&to_lines(src), &config())
}

const SIMPLE_16V8: &str = "GAL16V8\n\
sig\n\
A B NC NC NC NC NC NC NC GND\n\
NC O2 NC NC NC NC NC NC O VCC\n\
O = A * B\n\
/O2 = A + /B\n";

#[test]
fn minimal_16v8_jedec_shape() {
    let jed = assemble(SIMPLE_16V8).unwrap();
    // STX first, ETX before the trailing checksum.
    assert!(jed.starts_with("\u{2}\n"));
    assert!(jed.contains("*QF2194\n"));
    assert!(jed.contains("*G0\n"));
    assert!(jed.contains("*F0\n"));
    // Simple mode: SYN set, AC0 clear.
    assert!(jed.contains("*L2192 1\n"));
    assert!(jed.contains("*L2193 0\n"));
    let bytes = jed.as_bytes();
    let n = bytes.len();
    assert_eq!(bytes[n - 1], b'\n');
    assert_eq!(bytes[n - 6], 3);
}

#[test]
fn minimal_16v8_fuse_rows() {
    let jed = assemble(SIMPLE_16V8).unwrap();
    // O = A * B on pin 19 (OLMC 7, rows from 0): A is column 2, B column 0.
    let mut row = vec!['1'; 32];
    row[0] = '0';
    row[2] = '0';
    let row0: String = row.into_iter().collect();
    assert!(jed.contains(&format!("*L0000 {}\n", row0)));
    // /O2 = A + /B on pin 12 (OLMC 0, rows from 56).
    let mut row = vec!['1'; 32];
    row[2] = '0';
    let row56: String = row.into_iter().collect();
    assert!(jed.contains(&format!("*L1792 {}\n", row56)));
    let mut row = vec!['1'; 32];
    row[1] = '0';
    let row57: String = row.into_iter().collect();
    assert!(jed.contains(&format!("*L1824 {}\n", row57)));
    // XOR bits: O is active-high (OLMC 7 -> bit 0), O2 active-low.
    assert!(jed.contains("*L2048 10000000\n"));
}

#[test]
fn minimal_16v8_file_checksum_matches() {
    let jed = assemble(SIMPLE_16V8).unwrap();
    let bytes = jed.as_bytes();
    let n = bytes.len();
    let mut sum: u16 = 0;
    for b in &bytes[..n - 5] {
        sum = sum.wrapping_add(*b as u16);
    }
    let expect = format!("{:04x}\n", sum);
    assert_eq!(&jed[n - 5..], expect.as_str());
}

#[test]
fn pipeline_is_deterministic() {
    let a = assemble(SIMPLE_16V8).unwrap();
    let b = assemble(SIMPLE_16V8).unwrap();
    assert_eq!(a, b);
    let lines = to_lines(SIMPLE_16V8);
    let c1 = parse(&lines).unwrap();
    let c2 = parse(&lines).unwrap();
    assert_eq!(c1.pins, c2.pins);
    assert_eq!(c1.eqns, c2.eqns);
    assert_eq!(c1.sig, c2.sig);
}

#[test]
fn security_bit_sets_g1() {
    let lines = to_lines(SIMPLE_16V8);
    let cfg = Config { gen_fuse: true, gen_chip: true, gen_pin: true, jedec_sec_bit: true };
    let jed = galette::assemble(&lines, &cfg).unwrap();
    assert!(jed.contains("*G1\n"));
    assert!(!jed.contains("*G0\n"));
}

const REG_16V8: &str = "GAL16V8\n\
sig\n\
Clk A B NC NC NC NC NC NC GND\n\
NC NC NC NC NC NC NC NC Q VCC\n\
Q.R = A * B\n";

#[test]
fn registered_suffix_forces_registered_mode() {
    let jed = assemble(REG_16V8).unwrap();
    // Registered mode: SYN clear, AC0 set.
    assert!(jed.contains("*L2192 0\n"));
    assert!(jed.contains("*L2193 1\n"));

    let lines = to_lines(REG_16V8);
    let content = parse(&lines).unwrap();
    let bp = Blueprint::from(&content).unwrap();
    let gal = build(&bp).unwrap();
    assert!(!gal.syn);
    assert!(gal.ac0);
    assert_eq!(pin_type(&gal, bp.olmcs.as_slice(), 1), "Clock");
    assert_eq!(pin_type(&gal, bp.olmcs.as_slice(), 11), "/OE");
    assert_eq!(pin_type(&gal, bp.olmcs.as_slice(), 19), "Output");
    assert_eq!(pin_type(&gal, bp.olmcs.as_slice(), 10), "GND");
    assert_eq!(pin_type(&gal, bp.olmcs.as_slice(), 20), "VCC");
}

const V10_ARSP: &str = "GAL22V10\n\
sig\n\
Clk RESET HALT A B NC NC NC NC NC NC GND\n\
NC O NC NC NC NC NC NC NC NC NC VCC\n\
O.R = A\n\
O.E = B\n\
AR = RESET\n\
SP = HALT\n";

#[test]
fn v10_global_ar_sp_rows() {
    let jed = assemble(V10_ARSP).unwrap();
    // AR = RESET: fuse row 0; RESET is pin 2, column 4, positive.
    let mut row = vec!['1'; 44];
    row[4] = '0';
    let ar_row: String = row.into_iter().collect();
    assert!(jed.contains(&format!("*L0000 {}\n", ar_row)));
    // SP = HALT: fuse row 131 (offset 5764); HALT is pin 3, column 8.
    let mut row = vec!['1'; 44];
    row[8] = '0';
    let sp_row: String = row.into_iter().collect();
    assert!(jed.contains(&format!("*L5764 {}\n", sp_row)));
    // O's enable row (OLMC 0 starts at row 122, offset 5368): B is pin 5,
    // column 16.
    let mut row = vec!['1'; 44];
    row[16] = '0';
    let en_row: String = row.into_iter().collect();
    assert!(jed.contains(&format!("*L5368 {}\n", en_row)));
    // The trailer interleaves the XOR (S0) and S1 bits: O is the only
    // driven OLMC (index 0, so bit pair 9), active high and registered.
    let mut bits = vec!['0'; 20];
    bits[18] = '1';
    let xor_s1: String = bits.into_iter().collect();
    assert!(jed.contains(&format!("*L5808 {}\n", xor_s1)));
}

#[test]
fn v10_registered_feedback_flips_polarity() {
    // O is registered on pin 14 (column 38); a positive reference to it
    // lands on the negated column, an explicit negation on the plain one.
    let direct = "GAL22V10\n\
sig\n\
Clk A NC NC NC NC NC NC NC NC NC GND\n\
NC O Q NC NC NC NC NC NC NC NC VCC\n\
O.R = A\n\
Q = O\n";
    let negated = "GAL22V10\n\
sig\n\
Clk A NC NC NC NC NC NC NC NC NC GND\n\
NC O Q NC NC NC NC NC NC NC NC VCC\n\
O.R = A\n\
Q = /O\n";
    let jd = assemble(direct).unwrap();
    let jn = assemble(negated).unwrap();
    // Q is pin 15, OLMC 1, rows from 111, main term offset 1 -> row 112
    // (fuse offset 112 * 44 = 4928).
    let mut row = vec!['1'; 44];
    row[39] = '0';
    let flipped: String = row.into_iter().collect();
    assert!(jd.contains(&format!("*L4928 {}\n", flipped)));
    let mut row = vec!['1'; 44];
    row[38] = '0';
    let plain: String = row.into_iter().collect();
    assert!(jn.contains(&format!("*L4928 {}\n", plain)));
}

#[test]
fn vcc_shorthand_keeps_first_row() {
    // O = VCC: constant true, first row untouched (all ones), the other
    // rows of the slot zeroed and therefore not emitted.
    let src = "GAL16V8\n\
sig\n\
A B NC NC NC NC NC NC NC GND\n\
NC NC NC NC NC NC NC NC O VCC\n\
O = VCC\n";
    let jed = assemble(src).unwrap();
    let ones: String = vec!['1'; 32].into_iter().collect();
    assert!(jed.contains(&format!("*L0000 {}\n", ones)));
    assert!(!jed.contains("*L0032 "));
}

#[test]
fn gnd_shorthand_zeroes_slot() {
    let src = "GAL16V8\n\
sig\n\
A B NC NC NC NC NC NC NC GND\n\
NC NC NC NC NC NC NC NC O VCC\n\
O = GND\n";
    let jed = assemble(src).unwrap();
    // Every row of OLMC 7 is zero, so no *L line below offset 2048 for it.
    assert!(!jed.contains("*L0000 "));
}

#[test]
fn signature_bytes_land_in_sig_block() {
    let src = "GAL16V8\n\
ABCDEFGHIJ\n\
A B NC NC NC NC NC NC NC GND\n\
NC NC NC NC NC NC NC NC O VCC\n\
O = A\n";
    let jed = assemble(src).unwrap();
    // The signature block starts at offset 2056; 'A' is 0x41.
    let expected: String = "ABCDEFGH"
        .bytes()
        .map(|b| format!("{:08b}", b))
        .collect::<Vec<_>>()
        .join("");
    assert!(jed.contains(&format!("*L2056 {}\n", expected)));
}
