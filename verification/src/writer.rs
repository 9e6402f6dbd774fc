//! The JEDEC writer.
//!
//! `make_jedec` renders a programmed `GAL` as the textual JEDEC
//! payload: STX, two comment lines, the `*F0`/`*G` preamble, the
//! `*QF` fuse count, one `*L` line per non-zero fuse row, the
//! chip-specific trailer bits, the `*C` fuse checksum, and the final
//! ETX plus file checksum.  `spec_jedec_bytes` states the whole byte
//! sequence; the two checksums are the 16-bit wrapping sums the JEDEC
//! format asks for.

use vstd::prelude::*;

use crate::blueprint::{OlmcView, OLMC};
use crate::chips::Chip;
use crate::gal::{GalView, Mode, GAL};

verus! {

/// Which outputs to produce, and whether to set the security bit.
#[derive(Clone, Copy, Debug)]
pub struct Config {
    pub gen_fuse: bool,
    pub gen_chip: bool,
    pub gen_pin: bool,
    pub jedec_sec_bit: bool,
}

/// A power of two below 256.
pub open spec fn spec_pow2(k: int) -> int {
    if k <= 0 {
        1
    } else if k == 1 {
        2
    } else if k == 2 {
        4
    } else if k == 3 {
        8
    } else if k == 4 {
        16
    } else if k == 5 {
        32
    } else if k == 6 {
        64
    } else {
        128
    }
}

fn pow2_u8(k: u8) -> (r: u8)
    requires
        k < 8,
    ensures
        r == spec_pow2(k as int),
{
    match k {
        0 => 1,
        1 => 2,
        2 => 4,
        3 => 8,
        4 => 16,
        5 => 32,
        6 => 64,
        _ => 128,
    }
}

/// The checksum state after a sequence of bits: the 16-bit wrapping
/// sum of the complete bytes, the partial byte, and how many bits of
/// it are filled.  Bits fill each byte from its least significant end.
pub open spec fn spec_cs(bits: Seq<bool>) -> (int, int, int)
    decreases bits.len(),
{
    if bits.len() == 0 {
        (0, 0, 0)
    } else {
        let p = spec_cs(bits.drop_last());
        let byte2 = if bits.last() {
            p.1 + spec_pow2(p.2)
        } else {
            p.1
        };
        if p.2 == 7 {
            ((p.0 + byte2) % 0x10000, 0, 0)
        } else {
            (p.0, byte2, p.2 + 1)
        }
    }
}

/// The fuse checksum of a bit sequence: the 16-bit wrapping sum of
/// its little-endian-packed bytes, the last byte padded with zeros.
pub open spec fn spec_fuse_checksum(bits: Seq<bool>) -> int {
    (spec_cs(bits).0 + spec_cs(bits).1) % 0x10000
}

proof fn lemma_cs_bounds(bits: Seq<bool>)
    ensures
        0 <= spec_cs(bits).2 < 8,
        0 <= spec_cs(bits).1 < spec_pow2(spec_cs(bits).2),
        0 <= spec_cs(bits).0 < 0x10000,
    decreases bits.len(),
{
    if bits.len() > 0 {
        lemma_cs_bounds(bits.drop_last());
    }
}

/// Tracks the JEDEC fuse checksum as bits are emitted.
pub struct CheckSummer {
    pub bit_num: u8,
    pub byte: u8,
    pub sum: u16,
    pub bits: Ghost<Seq<bool>>,
}

impl CheckSummer {
    /// The bits summed so far.
    pub open spec fn bits(self) -> Seq<bool> {
        self.bits@
    }

    pub open spec fn wf(self) -> bool {
        &&& self.sum as int == spec_cs(self.bits@).0
        &&& self.byte as int == spec_cs(self.bits@).1
        &&& self.bit_num as int == spec_cs(self.bits@).2
    }

    pub fn new() -> (r: CheckSummer)
        ensures
            r.wf(),
            r.bits() == Seq::<bool>::empty(),
    {
        CheckSummer { bit_num: 0, byte: 0, sum: 0, bits: Ghost(Seq::empty()) }
    }

    pub fn add(&mut self, bit: bool)
        requires
            old(self).wf(),
        ensures
            final(self).wf(),
            final(self).bits() == old(self).bits().push(bit),
    {
        proof {
            lemma_cs_bounds(self.bits@);
        }
        if bit {
            let p = pow2_u8(self.bit_num);
            self.byte = self.byte + p;
        }
        self.bit_num = self.bit_num + 1;
        if self.bit_num == 8 {
            self.sum = ((self.sum as u32 + self.byte as u32) % 0x10000) as u16;
            self.byte = 0;
            self.bit_num = 0;
        }
        proof {
            self.bits@ = old(self).bits@.push(bit);
            assert(self.bits@.drop_last() =~= old(self).bits@);
            assert(self.bits@.last() == bit);
        }
    }

    /// The checksum of everything added, the partial byte included.
    pub fn get(&self) -> (r: u16)
        requires
            self.wf(),
        ensures
            r as int == spec_fuse_checksum(self.bits()),
    {
        proof {
            lemma_cs_bounds(self.bits@);
        }
        ((self.sum as u32 + self.byte as u32) % 0x10000) as u16
    }
}

/// The 16-bit wrapping sum of a byte sequence.
pub open spec fn spec_sum16(s: Seq<u8>) -> int
    decreases s.len(),
{
    if s.len() == 0 {
        0
    } else {
        (spec_sum16(s.drop_last()) + s.last()) % 0x10000
    }
}

proof fn lemma_sum16_bounds(s: Seq<u8>)
    ensures
        0 <= spec_sum16(s) < 0x10000,
    decreases s.len(),
{
    if s.len() > 0 {
        lemma_sum16_bounds(s.drop_last());
    }
}

/// The 16-bit wrapping sum of every byte of the data.
pub fn file_checksum(data: &[u8]) -> (r: u16)
    ensures
        r as int == spec_sum16(data@),
{
    let n = data.len();
    let mut sum: u16 = 0;
    let mut i: usize = 0;
    proof {
        assert(data@.take(0) =~= Seq::<u8>::empty());
    }
    while i < n
        invariant
            0 <= i <= n,
            n == data@.len(),
            sum as int == spec_sum16(data@.take(i as int)),
        decreases n - i,
    {
        proof {
            lemma_sum16_bounds(data@.take(i as int));
            assert(data@.take(i + 1).drop_last() =~= data@.take(i as int));
            assert(data@.take(i + 1).last() == data@[i as int]);
        }
        sum = ((sum as u32 + data[i] as u32) % 0x10000) as u16;
        i = i + 1;
    }
    proof {
        assert(data@.take(n as int) =~= data@);
    }
    sum
}

/// An ASCII decimal digit.
pub open spec fn spec_dec_digit(d: int) -> u8 {
    (48 + d % 10) as u8
}

/// Four zero-padded ASCII decimal digits.
pub open spec fn spec_dec4(n: int) -> Seq<u8> {
    seq![
        spec_dec_digit(n / 1000),
        spec_dec_digit(n / 100),
        spec_dec_digit(n / 10),
        spec_dec_digit(n),
    ]
}

fn dec4(n: usize) -> (r: Vec<u8>)
    requires
        n < 10000,
    ensures
        r@ == spec_dec4(n as int),
{
    let mut r: Vec<u8> = Vec::new();
    r.push((48 + (n / 1000) % 10) as u8);
    r.push((48 + (n / 100) % 10) as u8);
    r.push((48 + (n / 10) % 10) as u8);
    r.push((48 + n % 10) as u8);
    proof {
        assert(r@ =~= spec_dec4(n as int));
    }
    r
}

/// An ASCII lowercase hexadecimal digit.
pub open spec fn spec_hex_digit(d: int) -> u8 {
    if d % 16 < 10 {
        (48 + d % 16) as u8
    } else {
        (87 + d % 16) as u8
    }
}

/// Four ASCII lowercase hexadecimal digits.
pub open spec fn spec_hex4(n: int) -> Seq<u8> {
    seq![
        spec_hex_digit(n / 4096),
        spec_hex_digit(n / 256),
        spec_hex_digit(n / 16),
        spec_hex_digit(n),
    ]
}

fn hex_digit(d: usize) -> (r: u8)
    ensures
        r == spec_hex_digit(d as int),
{
    let m = d % 16;
    if m < 10 {
        (48 + m) as u8
    } else {
        (87 + m) as u8
    }
}

fn hex4(n: u16) -> (r: Vec<u8>)
    ensures
        r@ == spec_hex4(n as int),
{
    let mut r: Vec<u8> = Vec::new();
    r.push(hex_digit((n as usize) / 4096));
    r.push(hex_digit((n as usize) / 256));
    r.push(hex_digit((n as usize) / 16));
    r.push(hex_digit(n as usize));
    proof {
        assert(r@ =~= spec_hex4(n as int));
    }
    r
}

/// The bits of a fuse line as ASCII `0`/`1`.
pub open spec fn spec_bits_ascii(bits: Seq<bool>) -> Seq<u8> {
    Seq::new(
        bits.len(),
        |i: int|
            if bits[i] {
                49u8
            } else {
                48u8
            },
    )
}

/// One `*L` fuse line: the offset as four decimal digits, a space,
/// the bits, a newline.
pub open spec fn spec_fuse_line(idx: int, bits: Seq<bool>) -> Seq<u8> {
    seq![42u8, 76u8] + spec_dec4(idx) + seq![32u8] + spec_bits_ascii(bits) + seq![10u8]
}

/// Every byte of the sequence is ASCII.
pub open spec fn all_ascii(s: Seq<u8>) -> bool {
    forall|i: int| 0 <= i < s.len() ==> (#[trigger] s[i]) < 128
}

/// Writes `*L` fuse lines into a byte buffer, tracking the offset and
/// the fuse checksum as bits pass through.
pub struct FuseBuilder {
    pub buf: Vec<u8>,
    pub checksum: CheckSummer,
    pub idx: usize,
}

impl FuseBuilder {
    /// The bits that have passed through, emitted or skipped.
    pub open spec fn bits(self) -> Seq<bool> {
        self.checksum.bits()
    }

    pub open spec fn wf(self) -> bool {
        &&& self.checksum.wf()
        &&& self.idx == self.checksum.bits().len()
        &&& all_ascii(self.buf@)
    }

    pub open spec fn idx(self) -> int {
        self.idx as int
    }

    /// Take over a buffer holding the header written so far.
    pub fn new(buf: Vec<u8>) -> (r: FuseBuilder)
        requires
            all_ascii(buf@),
        ensures
            r.wf(),
            r.buf@ == buf@,
            r.bits() == Seq::<bool>::empty(),
            r.idx() == 0,
    {
        FuseBuilder { buf, checksum: CheckSummer::new(), idx: 0 }
    }

    /// Emit the bits `data[from..to]` as one fuse line.
    pub fn add_iter(&mut self, data: &[bool], from: usize, to: usize)
        requires
            old(self).wf(),
            from <= to <= data@.len(),
            old(self).idx() < 10000,
            old(self).idx() + (to - from) < usize::MAX,
        ensures
            final(self).wf(),
            final(self).bits() == old(self).bits() + data@.subrange(from as int, to as int),
            final(self).idx() == old(self).idx() + (to - from),
            final(self).buf@ == old(self).buf@ + spec_fuse_line(
                old(self).idx(),
                data@.subrange(from as int, to as int),
            ),
    {
        self.buf.push(42);
        self.buf.push(76);
        let mut d = dec4(self.idx);
        self.buf.append(&mut d);
        self.buf.push(32);
        let ghost bits0 = self.checksum.bits();
        let ghost buf1 = self.buf@;
        let mut i = from;
        while i < to
            invariant
                from <= i <= to <= data@.len(),
                self.idx == old(self).idx + (i - from),
                self.checksum.wf(),
                self.checksum.bits() == bits0 + data@.subrange(from as int, i as int),
                self.buf@ == buf1 + spec_bits_ascii(data@.subrange(from as int, i as int)),
                all_ascii(self.buf@),
            decreases to - i,
        {
            let bit = data[i];
            self.buf.push(
                if bit {
                    49
                } else {
                    48
                },
            );
            self.checksum.add(bit);
            self.idx = self.idx + 1;
            proof {
                assert(data@.subrange(from as int, i + 1) =~= data@.subrange(from as int, i as int).push(
                    data@[i as int],
                ));
                assert(self.checksum.bits() =~= bits0 + data@.subrange(from as int, i + 1));
                assert(self.buf@ =~= buf1 + spec_bits_ascii(data@.subrange(from as int, i + 1)));
            }
            i = i + 1;
        }
        self.buf.push(10);
        proof {
            assert(final(self).buf@ =~= old(self).buf@ + spec_fuse_line(
                old(self).idx(),
                data@.subrange(from as int, to as int),
            ));
        }
    }

    /// Emit a whole slice as one fuse line.
    pub fn add(&mut self, data: &[bool])
        requires
            old(self).wf(),
            old(self).idx() < 10000,
            old(self).idx() + data@.len() < usize::MAX,
        ensures
            final(self).wf(),
            final(self).bits() == old(self).bits() + data@,
            final(self).idx() == old(self).idx() + data@.len(),
            final(self).buf@ == old(self).buf@ + spec_fuse_line(old(self).idx(), data@),
    {
        let n = data.len();
        self.add_iter(data, 0, n);
        proof {
            assert(data@.subrange(0, n as int) =~= data@);
        }
    }

    /// Pass the bits `data[from..to]` through the checksum without
    /// writing a line (an all-zero row is left implicit).
    pub fn skip_iter(&mut self, data: &[bool], from: usize, to: usize)
        requires
            old(self).wf(),
            from <= to <= data@.len(),
            old(self).idx() + (to - from) < usize::MAX,
        ensures
            final(self).wf(),
            final(self).bits() == old(self).bits() + data@.subrange(from as int, to as int),
            final(self).idx() == old(self).idx() + (to - from),
            final(self).buf@ == old(self).buf@,
    {
        let ghost bits0 = self.checksum.bits();
        let mut i = from;
        while i < to
            invariant
                from <= i <= to <= data@.len(),
                self.idx == old(self).idx + (i - from),
                self.buf@ == old(self).buf@,
                self.checksum.wf(),
                self.checksum.bits() == bits0 + data@.subrange(from as int, i as int),
            decreases to - i,
        {
            let bit = data[i];
            self.checksum.add(bit);
            self.idx = self.idx + 1;
            proof {
                assert(data@.subrange(from as int, i + 1) =~= data@.subrange(from as int, i as int).push(
                    data@[i as int],
                ));
                assert(self.checksum.bits() =~= bits0 + data@.subrange(from as int, i + 1));
            }
            i = i + 1;
        }
    }

    /// Emit the `*C` line carrying the fuse checksum of every bit
    /// that has passed through.
    pub fn checksum(&mut self)
        requires
            old(self).wf(),
        ensures
            final(self).wf(),
            final(self).bits() == old(self).bits(),
            final(self).idx() == old(self).idx(),
            final(self).buf@ == old(self).buf@ + seq![42u8, 67u8] + spec_hex4(
                spec_fuse_checksum(old(self).bits()),
            ) + seq![10u8],
    {
        self.buf.push(42);
        self.buf.push(67);
        let c = self.checksum.get();
        let mut h = hex4(c);
        proof {
            lemma_cs_bounds(self.checksum.bits@);
            assert(spec_hex4(c as int) == spec_hex4(spec_fuse_checksum(self.checksum.bits())));
        }
        self.buf.append(&mut h);
        self.buf.push(10);
        proof {
            assert(final(self).buf@ =~= old(self).buf@ + seq![42u8, 67u8] + spec_hex4(
                spec_fuse_checksum(old(self).bits()),
            ) + seq![10u8]);
        }
    }

    /// Hand the buffer back.
    pub fn into_buf(self) -> (r: Vec<u8>)
        ensures
            r@ == self.buf@,
    {
        self.buf
    }
}

/// The code points of an ASCII character sequence.
pub open spec fn ascii(s: Seq<char>) -> Seq<u8> {
    Seq::new(s.len(), |i: int| ((s[i] as u32) % 256) as u8)
}

/// Relies on itertools::interleave: alternate elements of the two
/// iterators, starting with the first, until both are exhausted.
#[verifier::external_body]
fn interleave_bits(a: &Vec<bool>, b: &Vec<bool>) -> (r: Vec<bool>)
    requires
        a@.len() == b@.len(),
    ensures
        r@ == spec_interleave(a@, b@),
{
    itertools::interleave(a.iter().cloned(), b.iter().cloned()).collect()
}

/// Two equally long bit rows, alternating, first row first.
pub open spec fn spec_interleave(a: Seq<bool>, b: Seq<bool>) -> Seq<bool> {
    Seq::new(
        a.len() + b.len(),
        |i: int|
            if i % 2 == 0 {
                a[i / 2]
            } else {
                b[i / 2]
            },
    )
}

/// Relies on str::as_bytes: the UTF-8 bytes of an ASCII string are
/// exactly its characters' code points.
#[verifier::external_body]
fn append_ascii_str(buf: &mut Vec<u8>, s: &str)
    requires
        forall|i: int| 0 <= i < s@.len() ==> (s@[i] as u32) < 128,
    ensures
        final(buf)@ == old(buf)@ + ascii(s@),
{
    buf.extend_from_slice(s.as_bytes());
}

/// Relies on String::from_utf8_lossy: ASCII bytes decode to the
/// string of their code points, one character per byte.
#[verifier::external_body]
fn ascii_to_string(v: &Vec<u8>) -> (r: String)
    requires
        forall|i: int| 0 <= i < v@.len() ==> v@[i] < 128,
    ensures
        r@.len() == v@.len(),
        forall|i: int| 0 <= i < v@.len() ==> (r@[i] as u32) == v@[i] as u32,
{
    String::from_utf8_lossy(v.as_slice()).into_owned()
}

/// Everything before the first fuse line: STX, the two comment
/// lines, the fuse default, the security bit, the fuse count.
pub open spec fn spec_header(sec: bool, chip: Chip) -> Seq<u8> {
    seq![2u8, 10u8] + ascii("GAL-Assembler:  Galette\n"@) + ascii("Device:         "@) + ascii(
        chip.spec_name(),
    ) + seq![10u8, 10u8] + ascii("*F0\n"@) + (if sec {
        ascii("*G1\n"@)
    } else {
        ascii("*G0\n"@)
    }) + seq![42u8, 81u8, 70u8] + spec_dec4(chip.spec_total_size() as int) + seq![10u8]
}

/// Whether a fuse row holds any intact fuse.
pub open spec fn spec_row_any(f: Seq<bool>, cols: int, r: int) -> bool {
    exists|i: int| r * cols <= i < (r + 1) * cols && f[i]
}

/// The `*L` lines of the fuse rows from `r` on; an all-zero row
/// contributes no line.
pub open spec fn spec_row_lines(f: Seq<bool>, cols: int, nrows: int, r: int) -> Seq<u8>
    decreases nrows - r,
{
    if r < 0 || r >= nrows {
        Seq::empty()
    } else {
        (if spec_row_any(f, cols, r) {
            spec_fuse_line(r * cols, f.subrange(r * cols, (r + 1) * cols))
        } else {
            Seq::empty()
        }) + spec_row_lines(f, cols, nrows, r + 1)
    }
}

/// The bits that follow the fuse array in the bitstream: XOR bits
/// (interleaved with the S1 bits on the GAL22V10), the signature,
/// and the AC1/PT/SYN/AC0 block of the GAL16V8/20V8.
pub open spec fn spec_trailer_bits(g: GalView) -> Seq<bool> {
    (if g.chip == Chip::GAL22V10 {
        spec_interleave(g.xor, g.ac1)
    } else {
        g.xor
    }) + g.sig + (if g.chip == Chip::GAL16V8 || g.chip == Chip::GAL20V8 {
        g.ac1 + g.pt + seq![g.syn] + seq![g.ac0]
    } else {
        Seq::empty()
    })
}

/// Every bit the fuse checksum runs over, in emission order.
pub open spec fn spec_emitted_bits(g: GalView) -> Seq<bool> {
    g.fuses + spec_trailer_bits(g)
}

/// The `*L` lines that follow the fuse rows.
pub open spec fn spec_trailer_lines(g: GalView) -> Seq<u8> {
    let logic = g.fuses.len() as int;
    if g.chip == Chip::GAL22V10 {
        spec_fuse_line(logic, spec_interleave(g.xor, g.ac1)) + spec_fuse_line(logic + 20, g.sig)
    } else if g.chip == Chip::GAL16V8 || g.chip == Chip::GAL20V8 {
        spec_fuse_line(logic, g.xor) + spec_fuse_line(logic + 8, g.sig) + spec_fuse_line(
            logic + 72,
            g.ac1,
        ) + spec_fuse_line(logic + 80, g.pt) + spec_fuse_line(logic + 144, seq![g.syn])
            + spec_fuse_line(logic + 145, seq![g.ac0])
    } else {
        spec_fuse_line(logic, g.xor) + spec_fuse_line(logic + 10, g.sig)
    }
}

/// The whole JEDEC payload of a programmed GAL: header, fuse lines,
/// trailer lines, the `*C` fuse checksum, `*`, ETX, and the file
/// checksum of everything before it.
pub open spec fn spec_jedec_bytes(sec: bool, g: GalView) -> Seq<u8> {
    let body = spec_header(sec, g.chip) + spec_row_lines(
        g.fuses,
        g.chip.spec_num_cols() as int,
        g.chip.spec_num_rows() as int,
        0,
    ) + spec_trailer_lines(g) + seq![42u8, 67u8] + spec_hex4(
        spec_fuse_checksum(spec_emitted_bits(g)),
    ) + seq![10u8] + seq![42u8, 10u8, 3u8];
    body + spec_hex4(spec_sum16(body)) + seq![10u8]
}

fn jedec_header(sec: bool, chip: Chip) -> (r: Vec<u8>)
    ensures
        r@ == spec_header(sec, chip),
        all_ascii(r@),
{
    let mut buf: Vec<u8> = Vec::new();
    buf.push(2);
    buf.push(10);
    proof {
        reveal_strlit("GAL-Assembler:  Galette\n");
        reveal_strlit("Device:         ");
        reveal_strlit("GAL16V8");
        reveal_strlit("GAL20V8");
        reveal_strlit("GAL22V10");
        reveal_strlit("GAL20RA10");
        reveal_strlit("*F0\n");
        reveal_strlit("*G1\n");
        reveal_strlit("*G0\n");
    }
    append_ascii_str(&mut buf, "GAL-Assembler:  Galette\n");
    append_ascii_str(&mut buf, "Device:         ");
    append_ascii_str(&mut buf, chip.name());
    buf.push(10);
    buf.push(10);
    append_ascii_str(&mut buf, "*F0\n");
    if sec {
        append_ascii_str(&mut buf, "*G1\n");
    } else {
        append_ascii_str(&mut buf, "*G0\n");
    }
    buf.push(42);
    buf.push(81);
    buf.push(70);
    let mut qf = dec4(chip.total_size());
    buf.append(&mut qf);
    buf.push(10);
    proof {
        assert(buf@ =~= spec_header(sec, chip));
        assert forall|i: int| 0 <= i < buf@.len() implies buf@[i] < 128 by {
        }
    }
    buf
}

/// Emit one `*L` line per fuse row that holds an intact fuse,
/// passing every row through the checksum.
fn emit_fuse_rows(fb: &mut FuseBuilder, gal: &GAL)
    requires
        gal.wf(),
        old(fb).wf(),
        old(fb).idx() == 0,
        old(fb).bits() == Seq::<bool>::empty(),
    ensures
        final(fb).wf(),
        final(fb).idx() == gal.chip.spec_logic_size(),
        final(fb).bits() == gal.fuses@,
        final(fb).buf@ == old(fb).buf@ + spec_row_lines(
            gal.fuses@,
            gal.chip.spec_num_cols() as int,
            gal.chip.spec_num_rows() as int,
            0,
        ),
{
    let row_len = gal.chip.num_cols();
    let nrows = gal.chip.num_rows();
    let ghost f = gal.fuses@;
    let ghost hdr = fb.buf@;
    let ghost mut emitted: Seq<u8> = Seq::empty();
    let mut row: usize = 0;
    proof {
        assert(f.take(0) =~= Seq::<bool>::empty());
        assert(hdr + emitted =~= hdr);
        vstd::arithmetic::mul::lemma_mul_inequality(nrows as int, nrows as int, row_len as int);
        assert(gal.chip.spec_logic_size() == nrows * row_len);
    }
    while row < nrows
        invariant
            0 <= row <= nrows,
            row_len == gal.chip.spec_num_cols(),
            nrows == gal.chip.spec_num_rows(),
            f.len() == nrows * row_len,
            f == gal.fuses@,
            fb.wf(),
            fb.idx() == row * row_len,
            fb.bits() == f.take((row * row_len) as int),
            fb.buf@ == hdr + emitted,
            spec_row_lines(f, row_len as int, nrows as int, 0) == emitted + spec_row_lines(
                f,
                row_len as int,
                nrows as int,
                row as int,
            ),
        decreases nrows - row,
    {
        proof {
            vstd::arithmetic::mul::lemma_mul_inequality(
                (row + 1) as int,
                nrows as int,
                row_len as int,
            );
            assert(row * row_len + row_len == (row + 1) * row_len) by (nonlinear_arith);
            vstd::arithmetic::mul::lemma_mul_inequality(row as int, 9999int, row_len as int);
        }
        let start = row * row_len;
        let end = start + row_len;
        let mut any = false;
        let mut j = start;
        while j < end
            invariant
                start <= j <= end,
                end <= f.len(),
                f == gal.fuses@,
                any == exists|x: int| start <= x < j && f[x],
            decreases end - j,
        {
            if gal.fuses[j] {
                any = true;
            }
            j = j + 1;
        }
        proof {
            assert(any == spec_row_any(f, row_len as int, row as int));
        }
        if any {
            fb.add_iter(gal.fuses.as_slice(), start, end);
        } else {
            fb.skip_iter(gal.fuses.as_slice(), start, end);
        }
        proof {
            let line = if spec_row_any(f, row_len as int, row as int) {
                spec_fuse_line(row as int * row_len as int, f.subrange(start as int, end as int))
            } else {
                Seq::<u8>::empty()
            };
            emitted = emitted + line;
            assert(fb.buf@ =~= hdr + emitted);
            assert(fb.bits() =~= f.take(((row + 1) * row_len) as int)) by {
                assert(f.take((row * row_len) as int) + f.subrange(start as int, end as int)
                    =~= f.take(((row + 1) * row_len) as int));
            }
            assert(spec_row_lines(f, row_len as int, nrows as int, row as int) == line
                + spec_row_lines(f, row_len as int, nrows as int, row as int + 1));
            assert(spec_row_lines(f, row_len as int, nrows as int, 0) =~= emitted + spec_row_lines(
                f,
                row_len as int,
                nrows as int,
                row as int + 1,
            ));
        }
        row = row + 1;
    }
    proof {
        assert(spec_row_lines(f, row_len as int, nrows as int, nrows as int) =~= Seq::<u8>::empty());
        assert(fb.buf@ =~= hdr + spec_row_lines(f, row_len as int, nrows as int, 0));
        assert(f.take((nrows * row_len) as int) =~= f);
    }
}

/// Emit the trailer bits: XOR (with S1 on the GAL22V10), signature,
/// and the V8 mode block, one `*L` line each.
#[verifier::spinoff_prover]
#[verifier::rlimit(100)]
fn emit_trailer(fb: &mut FuseBuilder, gal: &GAL)
    requires
        gal.wf(),
        old(fb).wf(),
        old(fb).idx() == gal.chip.spec_logic_size(),
        old(fb).bits() == gal.fuses@,
    ensures
        final(fb).wf(),
        final(fb).bits() == spec_emitted_bits(gal@),
        final(fb).buf@ == old(fb).buf@ + spec_trailer_lines(gal@),
{
    let ghost g = gal@;
    match gal.chip {
        Chip::GAL22V10 => {
            let inter = interleave_bits(&gal.xor, &gal.ac1);
            fb.add(inter.as_slice());
            fb.add(gal.sig.as_slice());
        },
        Chip::GAL16V8 | Chip::GAL20V8 => {
            fb.add(gal.xor.as_slice());
            fb.add(gal.sig.as_slice());
            fb.add(gal.ac1.as_slice());
            fb.add(gal.pt.as_slice());
            let mut one: Vec<bool> = Vec::new();
            one.push(gal.syn);
            fb.add(one.as_slice());
            let mut two: Vec<bool> = Vec::new();
            two.push(gal.ac0);
            fb.add(two.as_slice());
            proof {
                assert(one@ =~= seq![gal.syn]);
                assert(two@ =~= seq![gal.ac0]);
            }
        },
        Chip::GAL20RA10 => {
            fb.add(gal.xor.as_slice());
            fb.add(gal.sig.as_slice());
        },
    }
    proof {
        assert(fb.bits() =~= spec_emitted_bits(g));
        assert(fb.buf@ =~= old(fb).buf@ + spec_trailer_lines(g));
    }
}

/// Render the assembled GAL as its JEDEC file text.
pub fn make_jedec(config: &Config, gal: &GAL) -> (r: String)
    requires
        gal.wf(),
    ensures
        ({
            let b = spec_jedec_bytes(config.jedec_sec_bit, gal@);
            &&& r@.len() == b.len()
            &&& forall|i: int| 0 <= i < b.len() ==> (r@[i] as u32) == b[i] as u32
            &&& forall|i: int| 0 <= i < r@.len() ==> (r@[i] as u32) < 128
        }),
{
    let buf = jedec_header(config.jedec_sec_bit, gal.chip);
    let mut fb = FuseBuilder::new(buf);
    emit_fuse_rows(&mut fb, gal);
    emit_trailer(&mut fb, gal);
    fb.checksum();
    let mut out = fb.into_buf();
    out.push(42);
    out.push(10);
    out.push(3);
    let ghost body = out@;
    proof {
        assert(body =~= spec_header(config.jedec_sec_bit, gal.chip) + spec_row_lines(
            gal.fuses@,
            gal.chip.spec_num_cols() as int,
            gal.chip.spec_num_rows() as int,
            0,
        ) + spec_trailer_lines(gal@) + seq![42u8, 67u8] + spec_hex4(
            spec_fuse_checksum(spec_emitted_bits(gal@)),
        ) + seq![10u8] + seq![42u8, 10u8, 3u8]);
    }
    let cs = file_checksum(out.as_slice());
    let mut h = hex4(cs);
    out.append(&mut h);
    out.push(10);
    proof {
        assert(out@ =~= spec_jedec_bytes(config.jedec_sec_bit, gal@));
        assert forall|i: int| 0 <= i < out@.len() implies out@[i] < 128 by {
            lemma_sum16_bounds(body);
        }
    }
    let s = ascii_to_string(&out);
    s
}

/// The JEDEC payload is delimited as the format requires: it opens
/// with STX, and it closes with ETX followed by the file checksum --
/// four hexadecimal digits over every preceding byte -- and a final
/// newline.
pub proof fn lemma_jedec_delimiters(sec: bool, g: GalView)
    ensures
        ({
            let b = spec_jedec_bytes(sec, g);
            &&& b.len() >= 8
            &&& b[0] == 2
            &&& b[b.len() - 6] == 3
            &&& b[b.len() - 1] == 10
            &&& b.subrange(b.len() - 5, b.len() - 1) == spec_hex4(spec_sum16(b.take(b.len() - 5)))
        }),
{
    let body = spec_header(sec, g.chip) + spec_row_lines(
        g.fuses,
        g.chip.spec_num_cols() as int,
        g.chip.spec_num_rows() as int,
        0,
    ) + spec_trailer_lines(g) + seq![42u8, 67u8] + spec_hex4(
        spec_fuse_checksum(spec_emitted_bits(g)),
    ) + seq![10u8] + seq![42u8, 10u8, 3u8];
    let b = spec_jedec_bytes(sec, g);
    assert(b == body + spec_hex4(spec_sum16(body)) + seq![10u8]);
    assert(body.len() >= 3);
    assert(b.len() == body.len() + 5);
    assert(b[0] == 2) by {
        assert(spec_header(sec, g.chip)[0] == 2);
        assert(body[0] == 2);
    }
    assert(b[b.len() - 6] == 3) by {
        assert(body[body.len() - 1] == 3);
    }
    assert(b[b.len() - 1] == 10);
    assert(b.take(b.len() - 5) =~= body);
    assert(b.subrange(b.len() - 5, b.len() - 1) =~= spec_hex4(spec_sum16(body)));
}


/// How a pin serves the design, as the pin report names it.
pub open spec fn spec_pin_type(g: GalView, olmcs: Seq<OlmcView>, i: usize) -> Seq<char> {
    match g.chip.spec_pin_to_olmc(i) {
        Some(n) => {
            let o = olmcs[n as int];
            if o.output is Some {
                "Output"@
            } else if !o.feedback {
                "NC"@
            } else {
                "Input"@
            }
        },
        None => {
            if i == g.chip.spec_num_pins() / 2 {
                "GND"@
            } else if i == g.chip.spec_num_pins() {
                "VCC"@
            } else if (g.chip == Chip::GAL16V8 || g.chip == Chip::GAL20V8) && g.ctx().get_mode()
                == Mode::Registered && i == 1 {
                "Clock"@
            } else if g.chip == Chip::GAL16V8 && g.ctx().get_mode() == Mode::Registered && i
                == 11 {
                "/OE"@
            } else if g.chip == Chip::GAL20V8 && g.ctx().get_mode() == Mode::Registered && i
                == 13 {
                "/OE"@
            } else if g.chip == Chip::GAL22V10 && i == 1 {
                "Clock/Input"@
            } else {
                "Input"@
            }
        },
    }
}

/// Name a pin's role for the pin report.
pub fn pin_type(gal: &GAL, olmcs: &[OLMC], i: usize) -> (r: &'static str)
    requires
        olmcs@.len() == gal.chip.spec_num_olmcs(),
        gal.chip == Chip::GAL16V8 || gal.chip == Chip::GAL20V8 ==> gal.mode_set(),
    ensures
        r@ == spec_pin_type(gal@, olmcs@.map_values(|o: OLMC| o@), i),
{
    proof {
        match gal.chip.spec_pin_to_olmc(i) {
            Some(n) => {
                assert(olmcs@.map_values(|o: OLMC| o@)[n as int] == olmcs@[n as int]@);
            },
            None => {},
        }
    }
    match gal.chip.pin_to_olmc(i) {
        Some(olmc) => {
            let o = &olmcs[olmc];
            if o.output.is_some() {
                "Output"
            } else if !o.feedback {
                "NC"
            } else {
                "Input"
            }
        },
        None => {
            if i == gal.chip.num_pins() / 2 {
                "GND"
            } else if i == gal.chip.num_pins() {
                "VCC"
            } else {
                let is_v8 = matches!(gal.chip, Chip::GAL16V8 | Chip::GAL20V8);
                if is_v8 && matches!(gal.get_mode(), Mode::Registered) && i == 1 {
                    "Clock"
                } else if matches!(gal.chip, Chip::GAL16V8) && matches!(
                    gal.get_mode(),
                    Mode::Registered,
                ) && i == 11 {
                    "/OE"
                } else if matches!(gal.chip, Chip::GAL20V8) && matches!(
                    gal.get_mode(),
                    Mode::Registered,
                ) && i == 13 {
                    "/OE"
                } else if matches!(gal.chip, Chip::GAL22V10) && i == 1 {
                    "Clock/Input"
                } else {
                    "Input"
                }
            }
        },
    }
}

/// In Registered mode the GAL16V8's pin 1 is the clock and pin 11
/// the output enable, and the pin report names them so.
pub proof fn lemma_registered_pin_report(g: GalView, olmcs: Seq<OlmcView>)
    requires
        g.chip == Chip::GAL16V8,
        g.ctx().get_mode() == Mode::Registered,
    ensures
        spec_pin_type(g, olmcs, 1) == "Clock"@,
        spec_pin_type(g, olmcs, 11) == "/OE"@,
{
}

} // verus!
