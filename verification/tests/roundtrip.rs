//! Re-serialising a parsed file in canonical form and parsing it
//! again reproduces the same pin table and equations.

use galette::parser::{Content, Suffix, LHS};

fn to_lines(src: &str) -> Vec<String> {
    src.lines().map(|s| s.to_string()).collect()
}

fn bare_name(pins: &[String], pin: usize) -> (String, bool) {
    let name = &pins[pin - 1];
    match name.strip_prefix('/') {
        Some(b) => (b.to_string(), true),
        None => (name.clone(), false),
    }
}

fn pin_ref(pins: &[String], pin: usize, neg: bool) -> String {
    let (name, def_neg) = bare_name(pins, pin);
    if neg != def_neg {
        format!("/{}", name)
    } else {
        name
    }
}

fn suffix_str(s: &Suffix) -> &'static str {
    match s {
        Suffix::Plain => "",
        Suffix::T => ".T",
        Suffix::R => ".R",
        Suffix::E => ".E",
        Suffix::CLK => ".CLK",
        Suffix::APRST => ".APRST",
        Suffix::ARST => ".ARST",
    }
}

/// The canonical text of a parsed file: chip, signature, the pin
/// table in two rows, and one line per equation.
fn serialise(content: &Content) -> String {
    let mut out = String::new();
    out.push_str(content.chip.name());
    out.push('\n');
    out.push_str(&String::from_utf8(content.sig.clone()).unwrap());
    out.push('\n');
    let half = content.pins.len() / 2;
    out.push_str(&content.pins[..half].join(" "));
    out.push('\n');
    out.push_str(&content.pins[half..].join(" "));
    out.push('\n');
    for eqn in &content.eqns {
        let lhs = match &eqn.lhs {
            LHS::Pin((pin, suffix)) => {
                format!("{}{}", pin_ref(&content.pins, pin.pin, pin.neg), suffix_str(suffix))
            }
            LHS::Ar => "AR".to_string(),
            LHS::Sp => "SP".to_string(),
        };
        out.push_str(&lhs);
        out.push_str(" = ");
        for (j, pin) in eqn.rhs.iter().enumerate() {
            if j > 0 {
                out.push_str(if eqn.is_or[j] { " + " } else { " * " });
            }
            out.push_str(&pin_ref(&content.pins, pin.pin, pin.neg));
        }
        out.push('\n');
    }
    out
}

fn roundtrips(src: &str) {
    let c1 = galette::parser::parse(&to_lines(src)).unwrap();
    let canon = serialise(&c1);
    let c2 = galette::parser::parse(&to_lines(&canon)).unwrap();
    assert_eq!(c1.chip, c2.chip);
    assert_eq!(c1.sig, c2.sig);
    assert_eq!(c1.pins, c2.pins);
    assert_eq!(c1.eqns, c2.eqns);
    // And the canonical form is a fixed point.
    let canon2 = serialise(&c2);
    assert_eq!(canon, canon2);
}

#[test]
fn roundtrip_simple_16v8() {
    roundtrips(
        "GAL16V8\n\
sig\n\
A B /Neg NC NC NC NC NC NC GND\n\
NC O2 NC NC NC NC NC NC O VCC\n\
O = A * B + /Neg\n\
/O2 = A + /B\n",
    );
}

#[test]
fn roundtrip_v10_with_specials() {
    roundtrips(
        "GAL22V10\n\
siggy
Clk RESET HALT A B NC NC NC NC NC NC GND\n\
NC O Q NC NC NC NC NC NC NC NC VCC\n\
O.R = A\n\
O.E = B\n\
Q = O * /A\n\
AR = RESET\n\
SP = HALT\n",
    );
}

#[test]
fn roundtrip_ra10_controls() {
    roundtrips(
        "GAL20RA10\n\
12345678\n\
NC A B C D NC NC NC NC NC NC GND\n\
NC O NC NC NC NC NC NC NC NC NC VCC\n\
O.R = A * B ; with a comment\n\
O.CLK = C\n\
O.ARST = D\n",
    );
}
