//! A 32-byte frame header layout with its fields read as big-endian integers,
//! and its re-encoding with widened little-endian fields.
use vstd::prelude::*;

use crate::bytes::{push_all, push_zeros, zeros};

verus! {

/// The big-endian value of two bytes.
pub open spec fn be_u16_value(s: Seq<u8>) -> nat {
    (s[0] as nat) * 0x100 + (s[1] as nat)
}

/// The big-endian value of four bytes.
pub open spec fn be_u32_value(s: Seq<u8>) -> nat {
    (s[0] as nat) * 0x1000000 + (s[1] as nat) * 0x10000 + (s[2] as nat) * 0x100 + (s[3] as nat)
}

/// The big-endian value of eight bytes.
pub open spec fn be_u64_value(s: Seq<u8>) -> nat {
    (s[0] as nat) * 0x100000000000000 + (s[1] as nat) * 0x1000000000000 + (s[2] as nat)
        * 0x10000000000 + (s[3] as nat) * 0x100000000 + (s[4] as nat) * 0x1000000 + (s[5] as nat)
        * 0x10000 + (s[6] as nat) * 0x100 + (s[7] as nat)
}

/// The little-endian value of eight bytes.
pub open spec fn le_u64_value(s: Seq<u8>) -> nat {
    be_u64_value(seq![s[7], s[6], s[5], s[4], s[3], s[2], s[1], s[0]])
}

/// The eight bytes of `v`, most significant first.
pub open spec fn be_bytes_u64(v: u64) -> Seq<u8> {
    seq![
        (v / 0x100000000000000 % 0x100) as u8,
        (v / 0x1000000000000 % 0x100) as u8,
        (v / 0x10000000000 % 0x100) as u8,
        (v / 0x100000000 % 0x100) as u8,
        (v / 0x1000000 % 0x100) as u8,
        (v / 0x10000 % 0x100) as u8,
        (v / 0x100 % 0x100) as u8,
        (v % 0x100) as u8,
    ]
}

/// The four bytes of `v`, most significant first.
pub open spec fn be_bytes_u32(v: u32) -> Seq<u8> {
    seq![
        (v / 0x1000000 % 0x100) as u8,
        (v / 0x10000 % 0x100) as u8,
        (v / 0x100 % 0x100) as u8,
        (v % 0x100) as u8,
    ]
}

/// The eight bytes of `v`, least significant first.
pub open spec fn le_bytes_u64(v: u64) -> Seq<u8> {
    let b = be_bytes_u64(v);
    seq![b[7], b[6], b[5], b[4], b[3], b[2], b[1], b[0]]
}

/// The four bytes of `v`, least significant first.
pub open spec fn le_bytes_u32(v: u32) -> Seq<u8> {
    let b = be_bytes_u32(v);
    seq![b[3], b[2], b[1], b[0]]
}

/// The fields of a header: `unk1` from bytes 0..4, `unk2` from bytes 8..10,
/// `unk3` and `unk4` from bytes 16..24 and 24..32.
#[derive(Debug)]
pub struct FrameHeader {
    pub unk1: u32,
    pub unk2: u16,
    pub unk3: u64,
    pub unk4: u64,
}

/// The big-endian `u16` at `data[at..at + 2]`.
fn read_be_u16(data: &[u8], at: usize) -> (r: u16)
    requires
        at + 2 <= data.len(),
    ensures
        r == be_u16_value(data@.subrange(at as int, at + 2)),
{
    (data[at] as u16) * 0x100 + (data[at + 1] as u16)
}

/// The big-endian `u32` at `data[at..at + 4]`.
fn read_be_u32(data: &[u8], at: usize) -> (r: u32)
    requires
        at + 4 <= data.len(),
    ensures
        r == be_u32_value(data@.subrange(at as int, at + 4)),
{
    (data[at] as u32) * 0x1000000 + (data[at + 1] as u32) * 0x10000 + (data[at + 2] as u32) * 0x100
        + (data[at + 3] as u32)
}

/// The big-endian `u64` at `data[at..at + 8]`.
fn read_be_u64(data: &[u8], at: usize) -> (r: u64)
    requires
        at + 8 <= data.len(),
    ensures
        r == be_u64_value(data@.subrange(at as int, at + 8)),
{
    (data[at] as u64) * 0x100000000000000 + (data[at + 1] as u64) * 0x1000000000000 + (data[at
        + 2] as u64) * 0x10000000000 + (data[at + 3] as u64) * 0x100000000 + (data[at + 4] as u64)
        * 0x1000000 + (data[at + 5] as u64) * 0x10000 + (data[at + 6] as u64) * 0x100 + (data[at
        + 7] as u64)
}

/// The little-endian `u64` at `data[at..at + 8]`.
fn read_le_u64(data: &[u8], at: usize) -> (r: u64)
    requires
        at + 8 <= data.len(),
    ensures
        r == le_u64_value(data@.subrange(at as int, at + 8)),
{
    let b = [
        data[at + 7],
        data[at + 6],
        data[at + 5],
        data[at + 4],
        data[at + 3],
        data[at + 2],
        data[at + 1],
        data[at],
    ];
    let r = read_be_u64(b.as_slice(), 0);
    let ghost s = data@.subrange(at as int, at + 8);
    assert(b@.subrange(0, 8) =~= seq![s[7], s[6], s[5], s[4], s[3], s[2], s[1], s[0]]);
    r
}

/// The eight bytes of `v`, most significant first.
fn be_u64_bytes(v: u64) -> (r: [u8; 8])
    ensures
        r@ == be_bytes_u64(v),
{
    let r = [
        (v / 0x100000000000000 % 0x100) as u8,
        (v / 0x1000000000000 % 0x100) as u8,
        (v / 0x10000000000 % 0x100) as u8,
        (v / 0x100000000 % 0x100) as u8,
        (v / 0x1000000 % 0x100) as u8,
        (v / 0x10000 % 0x100) as u8,
        (v / 0x100 % 0x100) as u8,
        (v % 0x100) as u8,
    ];
    assert(r@ =~= be_bytes_u64(v));
    r
}

/// The four bytes of `v`, most significant first.
fn be_u32_bytes(v: u32) -> (r: [u8; 4])
    ensures
        r@ == be_bytes_u32(v),
{
    let r = [
        (v / 0x1000000 % 0x100) as u8,
        (v / 0x10000 % 0x100) as u8,
        (v / 0x100 % 0x100) as u8,
        (v % 0x100) as u8,
    ];
    assert(r@ =~= be_bytes_u32(v));
    r
}

/// The eight bytes of `v`, least significant first.
fn le_u64_bytes(v: u64) -> (r: [u8; 8])
    ensures
        r@ == le_bytes_u64(v),
{
    let b = be_u64_bytes(v);
    let r = [b[7], b[6], b[5], b[4], b[3], b[2], b[1], b[0]];
    assert(r@ =~= le_bytes_u64(v));
    r
}

/// The four bytes of `v`, least significant first.
fn le_u32_bytes(v: u32) -> (r: [u8; 4])
    ensures
        r@ == le_bytes_u32(v),
{
    let b = be_u32_bytes(v);
    let r = [b[3], b[2], b[1], b[0]];
    assert(r@ =~= le_bytes_u32(v));
    r
}

/// The first 32 bytes of `v` as an array.
fn to_array32(v: &Vec<u8>) -> (r: [u8; 32])
    requires
        v@.len() == 32,
    ensures
        r@ == v@,
{
    let mut out = [0u8; 32];
    let mut i: usize = 0;
    while i < 32
        invariant
            i <= 32,
            v@.len() == 32,
            forall|j: int| 0 <= j < i ==> out@[j] == v@[j],
        decreases 32 - i,
    {
        out[i] = v[i];
        i += 1;
    }
    assert(out@ =~= v@);
    out
}

/// Re-encodes a header: `unk1` (big-endian u32 at 0..4) as a little-endian u64
/// at 0..8, `unk2` (big-endian u16 at 8..10) as a little-endian u32 at 8..12,
/// zeros at 12..16, and the little-endian u64 fields at 16..24 and 24..32 as
/// they are.
pub fn transform_header(data: &[u8; 32]) -> (r: [u8; 32])
    ensures
        r@ == le_bytes_u64(be_u32_value(data@.subrange(0, 4)) as u64) + le_bytes_u32(
            be_u16_value(data@.subrange(8, 10)) as u32,
        ) + zeros(4) + le_bytes_u64(le_u64_value(data@.subrange(16, 24)) as u64) + le_bytes_u64(
            le_u64_value(data@.subrange(24, 32)) as u64,
        ),
{
    let d = data.as_slice();
    let unk1 = read_be_u32(d, 0);
    let unk2 = read_be_u16(d, 8);
    let unk3 = read_le_u64(d, 16);
    let unk4 = read_le_u64(d, 24);
    let mut buf: Vec<u8> = Vec::new();
    push_all(&mut buf, le_u64_bytes(unk1 as u64).as_slice());
    push_all(&mut buf, le_u32_bytes(unk2 as u32).as_slice());
    push_zeros(&mut buf, 4);
    push_all(&mut buf, le_u64_bytes(unk3).as_slice());
    push_all(&mut buf, le_u64_bytes(unk4).as_slice());
    assert(Seq::<u8>::empty() + le_bytes_u64(unk1 as u64) =~= le_bytes_u64(unk1 as u64));
    to_array32(&buf)
}

impl FrameHeader {
    /// Size in bytes of an encoded header.
    pub const SIZE: usize = 32;

    /// Reads the fields of the header at the start of `data`, all big-endian.
    pub fn from_frame(data: &[u8]) -> (r: FrameHeader)
        requires
            data@.len() >= 32,
        ensures
            r.unk1 == be_u32_value(data@.subrange(0, 4)),
            r.unk2 == be_u16_value(data@.subrange(8, 10)),
            r.unk3 == be_u64_value(data@.subrange(16, 24)),
            r.unk4 == be_u64_value(data@.subrange(24, 32)),
    {
        FrameHeader {
            unk1: read_be_u32(data, 0),
            unk2: read_be_u16(data, 8),
            unk3: read_be_u64(data, 16),
            unk4: read_be_u64(data, 24),
        }
    }

    /// Encodes the fields big-endian and widened: `unk1` as a u64 at 0..8, `unk2`
    /// as a u32 at 8..12, zeros at 12..16, `unk3` and `unk4` at 16..24 and 24..32.
    pub fn to_bytes(&self) -> (r: [u8; 32])
        ensures
            r@ == be_bytes_u64(self.unk1 as u64) + be_bytes_u32(self.unk2 as u32) + zeros(4)
                + be_bytes_u64(self.unk3) + be_bytes_u64(self.unk4),
    {
        let mut buf: Vec<u8> = Vec::new();
        push_all(&mut buf, be_u64_bytes(self.unk1 as u64).as_slice());
        push_all(&mut buf, be_u32_bytes(self.unk2 as u32).as_slice());
        push_zeros(&mut buf, 4);
        push_all(&mut buf, be_u64_bytes(self.unk3).as_slice());
        push_all(&mut buf, be_u64_bytes(self.unk4).as_slice());
        assert(Seq::<u8>::empty() + be_bytes_u64(self.unk1 as u64) =~= be_bytes_u64(
            self.unk1 as u64,
        ));
        to_array32(&buf)
    }
}

} // verus!
