use vstd::prelude::*;
use vstd::utf8::{decode_utf8, valid_utf8};

use crate::parse_error::{Decoded, ParseError, ParseErrorKind};

verus! {

broadcast use vstd::std_specs::vec::group_vec_axioms;

// ---------------------------------------------------------------------------
// The primitive encodings, as decoders over a byte sequence and a position.
// ---------------------------------------------------------------------------

/// `n` raw bytes at `p`.
pub open spec fn spec_bytes(d: Seq<u8>, p: int, n: int) -> Decoded<Seq<u8>> {
    if 0 <= p && 0 <= n && p + n <= d.len() {
        Decoded::Done(d.subrange(p, p + n), p + n)
    } else {
        Decoded::Fail(ParseErrorKind::Io)
    }
}

pub open spec fn spec_u8(d: Seq<u8>, p: int) -> Decoded<u8> {
    if 0 <= p && p + 1 <= d.len() {
        Decoded::Done(d[p], p + 1)
    } else {
        Decoded::Fail(ParseErrorKind::Io)
    }
}

pub open spec fn spec_bool(d: Seq<u8>, p: int) -> Decoded<bool> {
    match spec_u8(d, p) {
        Decoded::Done(b, e) => Decoded::Done(b > 0, e),
        Decoded::Fail(k) => Decoded::Fail(k),
    }
}

/// Little-endian value of two bytes.
pub open spec fn le16(d: Seq<u8>, p: int) -> int {
    d[p] + 0x100 * d[p + 1]
}

/// Little-endian value of four bytes.
pub open spec fn le32(d: Seq<u8>, p: int) -> int {
    le16(d, p) + 0x10000 * le16(d, p + 2)
}

/// Little-endian value of eight bytes.
pub open spec fn le64(d: Seq<u8>, p: int) -> int {
    le32(d, p) + 0x1_0000_0000 * le32(d, p + 4)
}

pub open spec fn spec_u16(d: Seq<u8>, p: int) -> Decoded<u16> {
    if 0 <= p && p + 2 <= d.len() {
        Decoded::Done(le16(d, p) as u16, p + 2)
    } else {
        Decoded::Fail(ParseErrorKind::Io)
    }
}

pub open spec fn spec_u32(d: Seq<u8>, p: int) -> Decoded<u32> {
    if 0 <= p && p + 4 <= d.len() {
        Decoded::Done(le32(d, p) as u32, p + 4)
    } else {
        Decoded::Fail(ParseErrorKind::Io)
    }
}

pub open spec fn spec_u64(d: Seq<u8>, p: int) -> Decoded<u64> {
    if 0 <= p && p + 8 <= d.len() {
        Decoded::Done(le64(d, p) as u64, p + 8)
    } else {
        Decoded::Fail(ParseErrorKind::Io)
    }
}

/// `n` bytes at `p` holding UTF-8 text.
pub open spec fn spec_string(d: Seq<u8>, p: int, n: int) -> Decoded<Seq<char>> {
    match spec_bytes(d, p, n) {
        Decoded::Done(b, e) => if valid_utf8(b) {
            Decoded::Done(decode_utf8(b), e)
        } else {
            Decoded::Fail(ParseErrorKind::InvalidInput)
        },
        Decoded::Fail(k) => Decoded::Fail(k),
    }
}

pub open spec fn pow128(k: nat) -> nat
    decreases k,
{
    if k == 0 {
        1
    } else {
        128 * pow128((k - 1) as nat)
    }
}

/// The most groups of seven bits a varuint may have.
pub const VARUINT_MAX_BYTES: u64 = 5;

/// A varuint from its `k`-th group on, where the groups before it summed to `acc`:
/// seven bits a byte, least significant group first, high bit set on every
/// byte but the last.
pub open spec fn varuint_from(d: Seq<u8>, p: int, k: nat, acc: nat) -> Decoded<nat>
    decreases 5 - k,
{
    if k >= 5 {
        Decoded::Fail(ParseErrorKind::InvalidInput)
    } else if !(0 <= p + k && p + k < d.len()) {
        Decoded::Fail(ParseErrorKind::Io)
    } else {
        let b = d[p + k];
        let acc2 = acc + (b & 0x7f) as nat * pow128(k);
        if b & 0x80 == 0 {
            Decoded::Done(acc2, p + k + 1)
        } else {
            varuint_from(d, p, k + 1, acc2)
        }
    }
}

/// A varuint at `p`; a value that does not fit 32 bits is invalid.
pub open spec fn spec_varuint(d: Seq<u8>, p: int) -> Decoded<u32> {
    match varuint_from(d, p, 0, 0) {
        Decoded::Done(v, e) => if v <= u32::MAX {
            Decoded::Done(v as u32, e)
        } else {
            Decoded::Fail(ParseErrorKind::InvalidInput)
        },
        Decoded::Fail(k) => Decoded::Fail(k),
    }
}

/// Lower-case hexadecimal digit of a value below 16.
pub open spec fn hex_digit(n: int) -> char {
    if n == 0 { '0' } else if n == 1 { '1' } else if n == 2 { '2' } else if n == 3 { '3' }
    else if n == 4 { '4' } else if n == 5 { '5' } else if n == 6 { '6' } else if n == 7 { '7' }
    else if n == 8 { '8' } else if n == 9 { '9' } else if n == 10 { 'a' } else if n == 11 { 'b' }
    else if n == 12 { 'c' } else if n == 13 { 'd' } else if n == 14 { 'e' } else { 'f' }
}

/// Two hexadecimal digits of a byte, high one first.
pub open spec fn hex_byte(b: u8) -> Seq<char> {
    seq![hex_digit(b as int / 16), hex_digit(b as int % 16)]
}

/// Which stored byte stands at place `i` of a UUID's text: the first three
/// groups (4, 2 and 2 bytes) are stored least significant byte first.
pub open spec fn uuid_source(i: int) -> int {
    if i < 4 {
        3 - i
    } else if i < 6 {
        9 - i
    } else if i < 8 {
        13 - i
    } else {
        i
    }
}

pub open spec fn uuid_dash_before(i: int) -> bool {
    i == 4 || i == 6 || i == 8 || i == 10
}

/// The text of the first `i` bytes of a stored UUID.
pub open spec fn uuid_prefix(b: Seq<u8>, i: nat) -> Seq<char>
    decreases i,
{
    if i == 0 {
        Seq::empty()
    } else {
        let j = i - 1;
        uuid_prefix(b, j as nat) + (if uuid_dash_before(j) {
            seq!['-']
        } else {
            Seq::empty()
        }) + hex_byte(b[uuid_source(j)])
    }
}

/// The canonical 8-4-4-4-12 text of a UUID stored in mixed-endian form.
pub open spec fn uuid_text(b: Seq<u8>) -> Seq<char> {
    uuid_prefix(b, 16)
}

/// A UUID: a varuint length that must be 16, then the 16 bytes.
pub open spec fn spec_uuid(d: Seq<u8>, p: int) -> Decoded<Seq<char>> {
    match spec_varuint(d, p) {
        Decoded::Done(n, p1) => if n != 16 {
            Decoded::Fail(ParseErrorKind::InvalidInput)
        } else {
            match spec_bytes(d, p1, 16) {
                Decoded::Done(b, e) => Decoded::Done(uuid_text(b), e),
                Decoded::Fail(k) => Decoded::Fail(k),
            }
        },
        Decoded::Fail(k) => Decoded::Fail(k),
    }
}

/// The canonical varuint encoding of `v`: seven bits a byte, least
/// significant first, high bit set on every byte but the last.
pub open spec fn varuint_encoding(v: nat) -> Seq<u8>
    decreases v,
{
    if v < 128 {
        seq![v as u8]
    } else {
        seq![(v % 128 + 128) as u8] + varuint_encoding(v / 128)
    }
}

/// How many bytes the canonical encoding of `v` takes: one for every
/// started group of seven significant bits, and at least one.
pub open spec fn varuint_size(v: nat) -> nat {
    if v < 0x80 {
        1
    } else if v < 0x4000 {
        2
    } else if v < 0x20_0000 {
        3
    } else if v < 0x1000_0000 {
        4
    } else {
        5
    }
}

proof fn lemma_encoding_len(v: nat)
    requires
        v < 0x8_0000_0000,
    ensures
        varuint_encoding(v).len() == varuint_size(v),
    decreases v,
{
    if v >= 128 {
        lemma_encoding_len(v / 128);
    }
}

proof fn lemma_low_byte(b: u8)
    ensures
        b < 128 ==> (b & 0x7f == b && b & 0x80 == 0),
        b >= 128 ==> (b & 0x7f == b - 128 && b & 0x80 != 0),
{
    assert(b < 128 ==> (b & 0x7f == b && b & 0x80 == 0)) by (bit_vector);
    assert(b >= 128 ==> (b & 0x7f == b - 128 && b & 0x80 != 0)) by (bit_vector);
}

proof fn lemma_decode_from(d: Seq<u8>, p: int, k: nat, acc: nat, w: nat)
    requires
        0 <= p,
        w < 0x8_0000_0000,
        k + varuint_size(w) <= 5,
        p + k + varuint_size(w) <= d.len(),
        d.subrange(p + k, p + k + varuint_size(w)) == varuint_encoding(w),
    ensures
        varuint_from(d, p, k, acc) == Decoded::Done(acc + w * pow128(k), p + k + varuint_size(w)),
    decreases w,
{
    lemma_encoding_len(w);
    let b = d[p + k];
    assert(b == varuint_encoding(w)[0]);
    lemma_low_byte(b);
    if w < 128 {
        assert(b as nat == w);
    } else {
        assert(b as nat == w % 128 + 128);
        lemma_encoding_len(w / 128);
        let rest = varuint_encoding(w / 128);
        assert(varuint_size(w) == 1 + varuint_size(w / 128));
        assert(d.subrange(p + k + 1, p + k + 1 + varuint_size(w / 128)) =~= rest) by {
            assert(varuint_encoding(w) == seq![b] + rest);
            assert forall|i: int| 0 <= i < rest.len() implies
                d.subrange(p + k + 1, p + k + 1 + varuint_size(w / 128))[i] == rest[i] by {
                assert(d.subrange(p + k, p + k + varuint_size(w))[i + 1] == varuint_encoding(w)[i + 1]);
            }
        }
        let acc2 = acc + (w % 128) * pow128(k);
        lemma_decode_from(d, p, k + 1, acc2, w / 128);
        assert(pow128(k + 1) == 128 * pow128(k));
        assert(acc2 + (w / 128) * pow128(k + 1) == acc + w * pow128(k)) by (nonlinear_arith)
            requires
                acc2 == acc + (w % 128) * pow128(k),
                pow128(k + 1) == 128 * pow128(k),
                w == 128 * (w / 128) + w % 128,
        ;
    }
}

/// Decoding the canonical encoding of any `u32` gives it back and takes
/// exactly `varuint_size(v)` bytes.
pub proof fn lemma_varuint_round_trip(d: Seq<u8>, p: int, v: u32)
    requires
        0 <= p,
        p + varuint_size(v as nat) <= d.len(),
        d.subrange(p, p + varuint_size(v as nat)) == varuint_encoding(v as nat),
    ensures
        spec_varuint(d, p) == Decoded::Done(v, p + varuint_size(v as nat)),
{
    lemma_decode_from(d, p, 0, 0, v as nat);
    assert(pow128(0) == 1);
}

// ---------------------------------------------------------------------------
// Calls into std that vstd does not specify.
// ---------------------------------------------------------------------------

/// Relies on `String::from_utf8`: it accepts exactly the valid UTF-8 byte
/// sequences, and the string holds the characters they encode.
#[verifier::external_body]
fn string_from_utf8(b: Vec<u8>) -> (r: Option<String>)
    ensures
        r is Some <==> valid_utf8(b@),
        r is Some ==> r->0@ == decode_utf8(b@),
{
    String::from_utf8(b).ok()
}

/// Relies on `String::push`: it appends one character.
#[verifier::external_body]
pub(crate) fn push_char(s: &mut String, c: char)
    ensures
        final(s)@ == old(s)@.push(c),
{
    s.push(c)
}

pub(crate) fn hex_digit_char(n: u8) -> (c: char)
    requires
        n < 16,
    ensures
        c == hex_digit(n as int),
{
    match n {
        0 => '0', 1 => '1', 2 => '2', 3 => '3', 4 => '4', 5 => '5', 6 => '6', 7 => '7',
        8 => '8', 9 => '9', 10 => 'a', 11 => 'b', 12 => 'c', 13 => 'd', 14 => 'e', _ => 'f',
    }
}

fn io_error() -> (r: ParseError)
    ensures
        r.kind == ParseErrorKind::Io,
{
    ParseError::new("Failed to read input: unexpected end of data", ParseErrorKind::Io)
}

// ---------------------------------------------------------------------------
// The reader.
// ---------------------------------------------------------------------------

/// A little-endian reader over bytes held in memory, with a cursor that may be
/// moved anywhere; reads past the end fail.
pub struct Bitreader {
    pub data: Vec<u8>,
    pub pos: u64,
}

impl Bitreader {
    pub open spec fn bytes(&self) -> Seq<u8> {
        self.data@
    }

    pub open spec fn at(&self) -> int {
        self.pos as int
    }

    pub fn new(bits: Vec<u8>) -> (r: Bitreader)
        ensures
            r.bytes() == bits@,
            r.at() == 0,
    {
        Bitreader { data: bits, pos: 0 }
    }

    /// Whether no byte is left to read. The cursor does not move.
    pub fn eof(&self) -> (r: Result<bool, ParseError>)
        ensures
            r matches Ok(b) && b == (self.at() >= self.bytes().len()),
    {
        Ok(self.pos >= self.data.len() as u64)
    }

    pub fn position(&self) -> (r: u64)
        ensures
            r == self.pos,
    {
        self.pos
    }

    pub fn set_position(&mut self, position: u64)
        ensures
            final(self).bytes() == old(self).bytes(),
            final(self).pos == position,
    {
        self.pos = position;
    }

    /// Whether `n` bytes are left from the cursor on.
    fn has(&self, n: usize) -> (r: bool)
        ensures
            r == (self.at() + n <= self.bytes().len()),
            self.bytes().len() <= usize::MAX,
    {
        let len = self.data.len() as u64;
        self.pos <= len && n as u64 <= len - self.pos
    }

    pub fn read_bytes(&mut self, amount: usize) -> (r: Result<Vec<u8>, ParseError>)
        ensures
            final(self).bytes() == old(self).bytes(),
            crate::parse_error::agrees(r, spec_bytes(old(self).bytes(), old(self).at(), amount as int), final(self).at()),
    {
        if !self.has(amount) {
            return Err(io_error());
        }
        let start = self.pos as usize;
        let mut out: Vec<u8> = Vec::new();
        let mut i: usize = 0;
        while i < amount
            invariant
                start + amount <= self.data@.len(),
                self.data@.len() <= usize::MAX,
                i <= amount,
                out@ == self.data@.subrange(start as int, start + i),
            decreases amount - i,
        {
            out.push(self.data[start + i]);
            i = i + 1;
            assert(out@ =~= self.data@.subrange(start as int, start + i));
        }
        self.pos = (start + amount) as u64;
        Ok(out)
    }

    pub fn read_string(&mut self, length: usize) -> (r: Result<String, ParseError>)
        ensures
            final(self).bytes() == old(self).bytes(),
            crate::parse_error::agrees(r, spec_string(old(self).bytes(), old(self).at(), length as int), final(self).at()),
    {
        let bytes = match self.read_bytes(length) {
            Ok(b) => b,
            Err(e) => return Err(e),
        };
        match string_from_utf8(bytes) {
            Some(s) => Ok(s),
            None => Err(ParseError::invalid("String contains invalid utf-8")),
        }
    }

    pub fn read_u8(&mut self) -> (r: Result<u8, ParseError>)
        ensures
            final(self).bytes() == old(self).bytes(),
            crate::parse_error::agrees(r, spec_u8(old(self).bytes(), old(self).at()), final(self).at()),
    {
        if !self.has(1) {
            return Err(io_error());
        }
        let b = self.data[self.pos as usize];
        self.pos = self.pos + 1;
        Ok(b)
    }

    pub fn read_bool(&mut self) -> (r: Result<bool, ParseError>)
        ensures
            final(self).bytes() == old(self).bytes(),
            crate::parse_error::agrees(r, spec_bool(old(self).bytes(), old(self).at()), final(self).at()),
    {
        match self.read_u8() {
            Ok(b) => Ok(b > 0),
            Err(e) => Err(e),
        }
    }

    pub fn read_u16(&mut self) -> (r: Result<u16, ParseError>)
        ensures
            final(self).bytes() == old(self).bytes(),
            crate::parse_error::agrees(r, spec_u16(old(self).bytes(), old(self).at()), final(self).at()),
    {
        if !self.has(2) {
            return Err(io_error());
        }
        let p = self.pos as usize;
        let v = self.data[p] as u16 + self.data[p + 1] as u16 * 0x100;
        self.pos = self.pos + 2;
        Ok(v)
    }

    pub fn read_u32(&mut self) -> (r: Result<u32, ParseError>)
        ensures
            final(self).bytes() == old(self).bytes(),
            crate::parse_error::agrees(r, spec_u32(old(self).bytes(), old(self).at()), final(self).at()),
    {
        if !self.has(4) {
            return Err(io_error());
        }
        let p = self.pos as usize;
        let lo = self.data[p] as u32 + self.data[p + 1] as u32 * 0x100;
        let hi = self.data[p + 2] as u32 + self.data[p + 3] as u32 * 0x100;
        let v = lo + hi * 0x10000;
        self.pos = self.pos + 4;
        Ok(v)
    }

    /// Reads four bytes: the IEEE-754 bit pattern of an `f32`.
    pub fn read_f32_bits(&mut self) -> (r: Result<u32, ParseError>)
        ensures
            final(self).bytes() == old(self).bytes(),
            crate::parse_error::agrees(r, spec_u32(old(self).bytes(), old(self).at()), final(self).at()),
    {
        self.read_u32()
    }

    /// Reads eight bytes: the IEEE-754 bit pattern of an `f64`.
    pub fn read_f64_bits(&mut self) -> (r: Result<u64, ParseError>)
        ensures
            final(self).bytes() == old(self).bytes(),
            crate::parse_error::agrees(r, spec_u64(old(self).bytes(), old(self).at()), final(self).at()),
    {
        if !self.has(8) {
            return Err(io_error());
        }
        let p = self.pos as usize;
        let a = self.data[p] as u64 + self.data[p + 1] as u64 * 0x100;
        let b = self.data[p + 2] as u64 + self.data[p + 3] as u64 * 0x100;
        let c = self.data[p + 4] as u64 + self.data[p + 5] as u64 * 0x100;
        let d = self.data[p + 6] as u64 + self.data[p + 7] as u64 * 0x100;
        let lo = a + b * 0x10000;
        let hi = c + d * 0x10000;
        let v = lo + hi * 0x1_0000_0000;
        self.pos = self.pos + 8;
        Ok(v)
    }

    pub fn read_varuint(&mut self) -> (r: Result<u32, ParseError>)
        ensures
            final(self).bytes() == old(self).bytes(),
            crate::parse_error::agrees(r, spec_varuint(old(self).bytes(), old(self).at()), final(self).at()),
    {
        let ghost d = self.bytes();
        let ghost p = self.at();
        let mut acc: u64 = 0;
        let mut mult: u64 = 1;
        let mut k: u64 = 0;
        loop
            invariant
                self.bytes() == d,
                d == old(self).bytes(),
                p == old(self).at(),
                0 <= p,
                k < VARUINT_MAX_BYTES,
                self.at() == p + k,
                mult == pow128(k as nat),
                acc < mult,
                varuint_from(d, p, 0, 0) == varuint_from(d, p, k as nat, acc as nat),
            decreases VARUINT_MAX_BYTES - k,
        {
            let b = match self.read_u8() {
                Ok(b) => b,
                Err(e) => return Err(e),
            };
            assert(pow128(k as nat + 1) == 128 * pow128(k as nat));
            assert(mult <= 0x1000_0000) by {
                reveal_with_fuel(pow128, 5);
            }
            let group = (b & 0x7f) as u64;
            assert(group < 128) by (bit_vector)
                requires group == (b & 0x7f) as u64;
            assert(group * mult <= 127 * mult) by (nonlinear_arith)
                requires group < 128;
            let ghost acc0 = acc;
            acc = acc + group * mult;
            assert(varuint_from(d, p, k as nat, acc0 as nat) == if b & 0x80 == 0 {
                Decoded::Done(acc as nat, p + k + 1)
            } else {
                varuint_from(d, p, k as nat + 1, acc as nat)
            });
            if b & 0x80 == 0 {
                if acc > 0xFFFF_FFFF {
                    return Err(ParseError::invalid("Varuint does not fit 32 bits"));
                }
                return Ok(acc as u32);
            }
            if k + 1 >= VARUINT_MAX_BYTES {
                return Err(ParseError::invalid("Varuint is longer than five bytes"));
            }
            mult = mult * 128;
            k = k + 1;
        }
    }

    /// Reads a UUID stored in mixed-endian form and gives its canonical text.
    pub fn read_uuid(&mut self) -> (r: Result<String, ParseError>)
        ensures
            final(self).bytes() == old(self).bytes(),
            crate::parse_error::agrees(r, spec_uuid(old(self).bytes(), old(self).at()), final(self).at()),
    {
        let uuid_length = match self.read_varuint() {
            Ok(n) => n,
            Err(e) => return Err(e),
        };
        if uuid_length != 16 {
            return Err(ParseError::invalid("Expected UUID length to be 16 bytes"));
        }
        let b = match self.read_bytes(16) {
            Ok(b) => b,
            Err(e) => return Err(e),
        };
        let mut s = String::new();
        let mut i: usize = 0;
        while i < 16
            invariant
                b@.len() == 16,
                i <= 16,
                s@ == uuid_prefix(b@, i as nat),
            decreases 16 - i,
        {
            if i == 4 || i == 6 || i == 8 || i == 10 {
                push_char(&mut s, '-');
            }
            let src: usize = if i < 4 {
                3 - i
            } else if i < 6 {
                9 - i
            } else if i < 8 {
                13 - i
            } else {
                i
            };
            let byte = b[src];
            push_char(&mut s, hex_digit_char(byte / 16));
            push_char(&mut s, hex_digit_char(byte % 16));
            proof {
                let ghost j = i as int;
                assert(uuid_prefix(b@, (j + 1) as nat) == uuid_prefix(b@, j as nat) + (if uuid_dash_before(j) {
                    seq!['-']
                } else {
                    Seq::<char>::empty()
                }) + hex_byte(b@[uuid_source(j)]));
            }
            assert(s@ =~= uuid_prefix(b@, (i + 1) as nat));
            i = i + 1;
        }
        Ok(s)
    }
}

} // verus!
