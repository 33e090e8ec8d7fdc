//! Hamming 8/4 protected bit fields of a teletext packet.

use vstd::prelude::*;

verus! {

/// The four message bits of a Hamming 8/4 byte, taken as they stand
/// (bits 1, 3, 5 and 7 of the byte, lowest first).
pub open spec fn data_bits(b: u8) -> u8 {
    ((b >> 1) & 1) | ((b >> 2) & 2) | ((b >> 3) & 4) | ((b >> 4) & 8)
}

/// The Hamming 8/4 codeword of a nibble: message bits at the odd positions,
/// three odd-parity protection bits and an overall odd-parity bit at the even ones.
pub open spec fn hamming8_encode(n: u8) -> u8 {
    let d1 = n & 1;
    let d2 = (n >> 1) & 1;
    let d3 = (n >> 2) & 1;
    let d4 = (n >> 3) & 1;
    let k1 = 1 ^ d1 ^ d3 ^ d4;
    let k2 = 1 ^ d1 ^ d2 ^ d4;
    let k3 = 1 ^ d1 ^ d2 ^ d3;
    let k4 = 1 ^ k1 ^ d1 ^ k2 ^ d2 ^ k3 ^ d3 ^ d4;
    k1 | (d1 << 1) | (k2 << 2) | (d2 << 3) | (k3 << 4) | (d3 << 5) | (k4 << 6) | (d4 << 7)
}

/// Two bytes are equal or differ in exactly one bit.
pub open spec fn within_one_bit(x: u8, y: u8) -> bool {
    let d = x ^ y;
    d == 0 || d == 1 || d == 2 || d == 4 || d == 8 || d == 16 || d == 32 || d == 64 || d == 128
}

/// `n` is a nibble whose codeword is at most one bit away from `b`.
pub open spec fn corrects_to(b: u8, n: u8) -> bool {
    n < 16 && within_one_bit(hamming8_encode(n), b)
}

/// The nibble a received byte stands for: the nibble whose codeword is within one
/// bit of the byte where there is one, and the message bits as received otherwise.
pub open spec fn hamming8(b: u8) -> u8 {
    if exists|n: u8| corrects_to(b, n) {
        choose|n: u8| corrects_to(b, n)
    } else {
        data_bits(b)
    }
}

spec fn syndrome_decode(b: u8) -> u8 {
    let a = (b ^ (b >> 1) ^ (b >> 5) ^ (b >> 7)) & 1;
    let bb = ((b >> 1) ^ (b >> 2) ^ (b >> 3) ^ (b >> 7)) & 1;
    let c = ((b >> 1) ^ (b >> 3) ^ (b >> 4) ^ (b >> 5)) & 1;
    let d = (b ^ (b >> 1) ^ (b >> 2) ^ (b >> 3) ^ (b >> 4) ^ (b >> 5) ^ (b >> 6) ^ (b >> 7)) & 1;
    let n = data_bits(b);
    if d == 1 {
        n
    } else if a == 0 && bb == 0 && c == 0 {
        n ^ 1
    } else if a == 1 && bb == 0 && c == 0 {
        n ^ 2
    } else if a == 0 && bb == 1 && c == 0 {
        n ^ 4
    } else if a == 0 && bb == 0 && c == 1 {
        n ^ 8
    } else {
        n
    }
}

proof fn lemma_syndrome_corrects(b: u8, n: u8)
    by (bit_vector)
    requires
        corrects_to(b, n),
    ensures
        syndrome_decode(b) == n,
{
}

proof fn lemma_syndrome_fallback(b: u8)
    by (bit_vector)
    ensures
        syndrome_decode(b) < 16,
        syndrome_decode(b) == data_bits(b) || corrects_to(b, syndrome_decode(b)),
{
}

/// Decodes one Hamming 8/4 byte to its nibble.
pub fn hamming8_decode(b: u8) -> (n: u8)
    ensures
        n == hamming8(b),
        n < 16,
{
    let a: u8 = (b ^ (b >> 1) ^ (b >> 5) ^ (b >> 7)) & 1;
    let bb: u8 = ((b >> 1) ^ (b >> 2) ^ (b >> 3) ^ (b >> 7)) & 1;
    let c: u8 = ((b >> 1) ^ (b >> 3) ^ (b >> 4) ^ (b >> 5)) & 1;
    let d: u8 = (b ^ (b >> 1) ^ (b >> 2) ^ (b >> 3) ^ (b >> 4) ^ (b >> 5) ^ (b >> 6) ^ (b >> 7)) & 1;
    let n: u8 = ((b >> 1) & 1) | ((b >> 2) & 2) | ((b >> 3) & 4) | ((b >> 4) & 8);
    let r: u8 = if d == 1 {
        n
    } else if a == 0 && bb == 0 && c == 0 {
        n ^ 1
    } else if a == 1 && bb == 0 && c == 0 {
        n ^ 2
    } else if a == 0 && bb == 1 && c == 0 {
        n ^ 4
    } else if a == 0 && bb == 0 && c == 1 {
        n ^ 8
    } else {
        n
    };
    proof {
        assert(r == syndrome_decode(b));
        lemma_syndrome_fallback(b);
        if exists|m: u8| corrects_to(b, m) {
            let m = choose|m: u8| corrects_to(b, m);
            lemma_syndrome_corrects(b, m);
        }
    }
    r
}

/// The byte made of two Hamming 8/4 bytes: the first carries the low nibble, the
/// second the high nibble.
pub open spec fn hamming16(d: Seq<u8>) -> u8 {
    hamming8(d[0]) | (hamming8(d[1]) << 4)
}

/// Decodes two Hamming 8/4 bytes to one byte, low nibble first. On a header this
/// gives the page number from its units and tens.
pub fn hamming16_decode(d: &[u8; 2]) -> (value: u8)
    ensures
        value == hamming16(d@),
{
    hamming8_decode(d[0]) | (hamming8_decode(d[1]) << 4)
}

/// Where a packet belongs: its magazine and its row.
#[derive(Clone, Copy, Debug, PartialEq, Eq, Structural)]
pub struct Address {
    /// Magazine, 0 to 7. Magazine 8 is sent as 0.
    pub magazine: u8,
    /// Row, 0 to 31.
    pub row: u8,
}

/// The address in the first two bytes of a packet: the low three bits of their
/// decoded byte are the magazine, the upper five the row.
pub open spec fn mrag_spec(d: Seq<u8>) -> Address {
    Address { magazine: hamming16(d) & 0x7, row: hamming16(d) >> 3 }
}

/// Decodes the magazine and row address of a packet from its first two bytes.
pub fn mrag(d: &[u8; 2]) -> (address: Address)
    ensures
        address == mrag_spec(d@),
        address.magazine < 8,
        address.row < 32,
{
    let a = hamming16_decode(d);
    assert(a & 0x7 < 8 && a >> 3 < 32) by (bit_vector);
    Address { magazine: a & 0x7, row: a >> 3 }
}

/// Bit of the control flags that asks for the page to be erased.
pub const ERASE_PAGE: u16 = 0x0001;

/// The control flags of a header, from the eight bytes that follow its page number.
/// Bit 0 is the top bit of the second nibble (erase page), bits 1 and 2 the top two
/// bits of the fourth (newsflash, subtitle), bits 3 to 6 the fifth nibble and bits 7
/// to 10 the sixth. The last two bytes carry no flag.
pub open spec fn control_bits_spec(d: Seq<u8>) -> u16 {
    ((hamming8(d[1]) >> 3) as u16) | (((hamming8(d[3]) >> 2) as u16) << 1) | ((hamming8(d[4]) as u16)
        << 3) | ((hamming8(d[5]) as u16) << 7)
}

/// Decodes the control flags of a header.
pub fn control_bits(d: &[u8; 8]) -> (flags: u16)
    ensures
        flags == control_bits_spec(d@),
        flags < 0x800,
{
    let n1 = hamming8_decode(d[1]);
    let n3 = hamming8_decode(d[3]);
    assert(n1 >> 3 < 2 && n3 >> 2 < 4) by (bit_vector)
        requires
            n1 < 16,
            n3 < 16,
    ;
    let c4 = (n1 >> 3) as u16;
    let c56 = (n3 >> 2) as u16;
    let c7 = hamming8_decode(d[4]) as u16;
    let c11 = hamming8_decode(d[5]) as u16;
    assert(c4 | (c56 << 1) | (c7 << 3) | (c11 << 7) < 0x800) by (bit_vector)
        requires
            c4 < 2,
            c56 < 4,
            c7 < 16,
            c11 < 16,
    ;
    c4 | (c56 << 1) | (c7 << 3) | (c11 << 7)
}

/// The character that shows a value from 0 to 15 as a hexadecimal digit, in upper
/// case. A larger value shows as a question mark.
pub open spec fn hex_char(n: u8) -> u8 {
    if n < 10 {
        (0x30 + n) as u8
    } else if n < 16 {
        (0x41 + (n - 10)) as u8
    } else {
        0x3f
    }
}

/// The value of a hexadecimal digit character, in either case, and 0 for any
/// other byte.
pub open spec fn hex_value(c: u8) -> u8 {
    if 0x30 <= c <= 0x39 {
        (c - 0x30) as u8
    } else if 0x41 <= c <= 0x46 {
        (c - 0x41 + 10) as u8
    } else if 0x61 <= c <= 0x66 {
        (c - 0x61 + 10) as u8
    } else {
        0
    }
}

/// Gives the character that shows `n` as a hexadecimal digit.
pub fn u8_to_ascii(n: u8) -> (c: u8)
    ensures
        c == hex_char(n),
{
    if n < 10 {
        0x30 + n
    } else if n < 16 {
        0x41 + (n - 10)
    } else {
        0x3f
    }
}

/// Gives the value of the hexadecimal digit character `c`.
pub fn ascii_to_u8(c: u8) -> (n: u8)
    ensures
        n == hex_value(c),
        n < 16,
{
    if 0x30 <= c && c <= 0x39 {
        c - 0x30
    } else if 0x41 <= c && c <= 0x46 {
        c - 0x41 + 10
    } else if 0x61 <= c && c <= 0x66 {
        c - 0x61 + 10
    } else {
        0
    }
}

/// Showing a value as a digit and reading the digit back gives the value, and
/// reading an upper-case digit and showing it gives the digit.
pub proof fn lemma_hex_round_trip(n: u8, c: u8)
    ensures
        n < 16 ==> hex_value(hex_char(n)) == n,
        (0x30 <= c <= 0x39 || 0x41 <= c <= 0x46) ==> hex_char(hex_value(c)) == c,
{
}

/// A codeword decodes to its nibble, and so does a codeword with any one bit
/// inverted.
pub proof fn lemma_hamming8_corrects(n: u8, b: u8)
    requires
        corrects_to(b, n),
    ensures
        hamming8(b) == n,
{
    let m = choose|m: u8| corrects_to(b, m);
    lemma_syndrome_corrects(b, n);
    lemma_syndrome_corrects(b, m);
}

/// Every codeword is within one bit of itself and of each of its eight one-bit
/// corruptions.
pub proof fn lemma_one_bit_errors(n: u8, bit: u8)
    by (bit_vector)
    requires
        n < 16,
        bit < 8,
    ensures
        corrects_to(hamming8_encode(n), n),
        corrects_to(hamming8_encode(n) ^ (1u8 << bit), n),
{
}

/// The decoded nibble is below 16 whatever the byte.
pub proof fn lemma_hamming8_total(b: u8)
    ensures
        hamming8(b) < 16,
{
    lemma_syndrome_fallback(b);
    if exists|m: u8| corrects_to(b, m) {
    } else {
        assert(data_bits(b) < 16) by (bit_vector);
    }
}

} // verus!
