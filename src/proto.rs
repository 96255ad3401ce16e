//! The VIMG wire format: a fixed 36-byte little-endian header followed by
//! `data_len` payload bytes.

use vstd::prelude::*;
use vstd::arithmetic::div_mod::{lemma_div_denominator, lemma_fundamental_div_mod};

verus! {

/// Size in bytes of an encoded header.
pub const HEADER_SIZE: usize = 36;

/// The four bytes that open every packet: ASCII "VIMG".
pub const MAGIC: [u8; 4] = [0x56, 0x49, 0x4D, 0x47];

/// The only protocol version this decoder accepts.
pub const VERSION: u8 = 1;

/// Command: draw an image at the given coordinates.
pub const CMD_PUT: u8 = 0x01;

/// Pixel format: raw RGB triplets, three bytes per pixel.
pub const PIXFMT_RGB888: u8 = 0;

/// Pixel format: the payload is a whole BMP file.
pub const PIXFMT_BMP: u8 = 1;

/// The header of a VIMG packet, field by field.
#[derive(Clone, Copy, Debug, PartialEq, Eq)]
pub struct VimgHeader {
    pub magic: [u8; 4],
    pub version: u8,
    pub cmd: u8,
    pub flags: u16,
    pub x: u32,
    pub y: u32,
    pub w: u32,
    pub h: u32,
    pub pixfmt: u8,
    pub reserved: [u8; 3],
    pub data_len: u32,
    /// CRC32 of the payload, carried as sent; the decoder does not check it.
    pub crc32: u32,
}

/// The little-endian value of the two bytes of `b` at `i`.
pub open spec fn le16(b: Seq<u8>, i: int) -> int {
    b[i] + 256 * b[i + 1]
}

/// The little-endian value of the four bytes of `b` at `i`.
pub open spec fn le32(b: Seq<u8>, i: int) -> int {
    b[i] + 256 * b[i + 1] + 65536 * b[i + 2] + 16777216 * b[i + 3]
}

/// The magic tag as a sequence.
pub open spec fn magic_seq() -> Seq<u8> {
    seq![0x56u8, 0x49u8, 0x4Du8, 0x47u8]
}

/// The payload length that the header bytes `b` announce.
pub open spec fn announced_len(b: Seq<u8>) -> int {
    le32(b, 28)
}

/// The header bytes `b` hold an acceptable header: the magic tag, the supported
/// version and a known command. Reserved bytes and checksum are not checked.
pub open spec fn header_bytes_valid(b: Seq<u8>) -> bool {
    &&& b.subrange(0, 4) == magic_seq()
    &&& b[4] == VERSION
    &&& b[5] == CMD_PUT
}

impl VimgHeader {
    /// `self` is the header whose wire form is the 36 bytes `b`.
    pub open spec fn has_layout(self, b: Seq<u8>) -> bool {
        &&& b.len() == HEADER_SIZE
        &&& self.magic@ == b.subrange(0, 4)
        &&& self.version == b[4]
        &&& self.cmd == b[5]
        &&& self.flags == le16(b, 6)
        &&& self.x == le32(b, 8)
        &&& self.y == le32(b, 12)
        &&& self.w == le32(b, 16)
        &&& self.h == le32(b, 20)
        &&& self.pixfmt == b[24]
        &&& self.reserved@ == b.subrange(25, 28)
        &&& self.data_len == le32(b, 28)
        &&& self.crc32 == le32(b, 32)
    }

    /// The header is one this decoder accepts.
    pub open spec fn spec_is_valid(self) -> bool {
        &&& self.magic@ == magic_seq()
        &&& self.version == VERSION
        &&& self.cmd == CMD_PUT
    }

    /// Reads a header from its 36-byte wire form.
    pub fn decode(b: &[u8; 36]) -> (r: VimgHeader)
        ensures
            r.has_layout(b@),
    {
        let r = VimgHeader {
            magic: [b[0], b[1], b[2], b[3]],
            version: b[4],
            cmd: b[5],
            flags: read_le16(b, 6),
            x: read_le32(b, 8),
            y: read_le32(b, 12),
            w: read_le32(b, 16),
            h: read_le32(b, 20),
            pixfmt: b[24],
            reserved: [b[25], b[26], b[27]],
            data_len: read_le32(b, 28),
            crc32: read_le32(b, 32),
        };
        assert(r.magic@ =~= b@.subrange(0, 4));
        assert(r.reserved@ =~= b@.subrange(25, 28));
        r
    }

    /// The 36-byte wire form of the header.
    pub fn encode(&self) -> (r: [u8; 36])
        ensures
            self.has_layout(r@),
    {
        let f = le16_bytes(self.flags);
        let x = le32_bytes(self.x);
        let y = le32_bytes(self.y);
        let w = le32_bytes(self.w);
        let h = le32_bytes(self.h);
        let n = le32_bytes(self.data_len);
        let c = le32_bytes(self.crc32);
        let m = self.magic;
        let z = self.reserved;
        let b: [u8; 36] = [
            m[0], m[1], m[2], m[3], self.version, self.cmd, f[0], f[1],
            x[0], x[1], x[2], x[3], y[0], y[1], y[2], y[3],
            w[0], w[1], w[2], w[3], h[0], h[1], h[2], h[3],
            self.pixfmt, z[0], z[1], z[2], n[0], n[1], n[2], n[3],
            c[0], c[1], c[2], c[3],
        ];
        assert(self.magic@ =~= b@.subrange(0, 4));
        assert(self.reserved@ =~= b@.subrange(25, 28));
        b
    }

    /// Whether the header carries the magic tag, the supported version and a
    /// known command.
    pub fn is_valid(&self) -> (r: bool)
        ensures
            r == self.spec_is_valid(),
    {
        let m = self.magic;
        let ok = m[0] == MAGIC[0] && m[1] == MAGIC[1] && m[2] == MAGIC[2] && m[3] == MAGIC[3]
            && self.version == VERSION && self.cmd == CMD_PUT;
        assert(ok ==> self.magic@ =~= magic_seq());
        ok
    }
}

fn read_le16(b: &[u8; 36], i: usize) -> (r: u16)
    requires
        i + 2 <= 36,
    ensures
        r == le16(b@, i as int),
{
    b[i] as u16 + (b[i + 1] as u16) * 256
}

fn read_le32(b: &[u8; 36], i: usize) -> (r: u32)
    requires
        i + 4 <= 36,
    ensures
        r == le32(b@, i as int),
{
    b[i] as u32 + (b[i + 1] as u32) * 256 + (b[i + 2] as u32) * 65536 + (b[i + 3] as u32)
        * 16777216
}

fn le16_bytes(v: u16) -> (r: [u8; 2])
    ensures
        r[0] + 256 * r[1] == v,
{
    proof {
        lemma_fundamental_div_mod(v as int, 256);
    }
    [(v % 256) as u8, (v / 256) as u8]
}

fn le32_bytes(v: u32) -> (r: [u8; 4])
    ensures
        r[0] + 256 * r[1] + 65536 * r[2] + 16777216 * r[3] == v,
{
    let b0 = v % 256;
    let b1 = (v / 256) % 256;
    let b2 = (v / 65536) % 256;
    let b3 = v / 16777216;
    proof {
        let a = v as int;
        lemma_fundamental_div_mod(a, 256);
        lemma_fundamental_div_mod(a / 256, 256);
        lemma_fundamental_div_mod(a / 65536, 256);
        lemma_div_denominator(a, 256, 256);
        lemma_div_denominator(a, 65536, 256);
        assert(a == b0 + 256 * b1 + 65536 * b2 + 16777216 * b3) by (nonlinear_arith)
            requires
                a == 256 * (a / 256) + b0,
                a / 256 == 256 * ((a / 256) / 256) + b1,
                (a / 256) / 256 == a / 65536,
                a / 65536 == 256 * ((a / 65536) / 256) + b2,
                (a / 65536) / 256 == b3,
        ;
    }
    [b0 as u8, b1 as u8, b2 as u8, b3 as u8]
}

/// The header bytes determine every field: decoding what `encode` wrote
/// gives the header back.
pub proof fn lemma_layout_unique(h1: VimgHeader, h2: VimgHeader, b: Seq<u8>)
    requires
        h1.has_layout(b),
        h2.has_layout(b),
    ensures
        h1 == h2,
{
    assert(h1.magic@ =~= h2.magic@);
    assert(h1.reserved@ =~= h2.reserved@);
    assert(h1.magic == h2.magic);
    assert(h1.reserved == h2.reserved);
}

} // verus!
