//! Little-endian integers inside byte buffers.
use vstd::prelude::*;

verus! {

/// The value of the little-endian `u16` stored at `off` in `s`.
pub open spec fn u16_le_at(s: Seq<u8>, off: int) -> int {
    s[off] as int + 256 * (s[off + 1] as int)
}

/// The value of the little-endian `u32` stored at `off` in `s`.
pub open spec fn u32_le_at(s: Seq<u8>, off: int) -> int {
    s[off] as int + 256 * (s[off + 1] as int) + 65536 * (s[off + 2] as int) + 16777216 * (
    s[off + 3] as int)
}

/// The four little-endian bytes of `v`.
pub open spec fn u32_le_bytes(v: u32) -> Seq<u8> {
    seq![
        (v % 256) as u8,
        ((v / 256) % 256) as u8,
        ((v / 65536) % 256) as u8,
        ((v / 16777216) % 256) as u8,
    ]
}

/// Reading back the bytes of `v` gives `v`.
pub proof fn lemma_u32_le_round_trip(v: u32)
    ensures
        u32_le_bytes(v).len() == 4,
        u32_le_at(u32_le_bytes(v), 0) == v,
{
    let b = u32_le_bytes(v);
    assert(u32_le_at(b, 0) == (v % 256) + 256 * ((v / 256) % 256) + 65536 * ((v / 65536) % 256)
        + 16777216 * ((v / 16777216) % 256)) by {
        assert(b[0] as int == v % 256);
        assert(b[1] as int == (v / 256) % 256);
        assert(b[2] as int == (v / 65536) % 256);
        assert(b[3] as int == (v / 16777216) % 256);
    }
    assert((v % 256) + 256 * ((v / 256) % 256) + 65536 * ((v / 65536) % 256) + 16777216 * ((v
        / 16777216) % 256) == v) by (nonlinear_arith);
}

/// A `u32` read from four bytes is below 2^32.
pub proof fn lemma_u32_le_bounds(s: Seq<u8>, off: int)
    requires
        0 <= off,
        off + 4 <= s.len(),
    ensures
        0 <= u32_le_at(s, off) <= u32::MAX,
{
}

/// The `u32` written at the end of a prefix reads back, whatever follows it.
pub proof fn lemma_u32_le_at_concat(a: Seq<u8>, v: u32, b: Seq<u8>)
    ensures
        u32_le_at(a + u32_le_bytes(v) + b, a.len() as int) == v,
{
    let s = a + u32_le_bytes(v) + b;
    let n = a.len() as int;
    lemma_u32_le_round_trip(v);
    assert(s[n] == u32_le_bytes(v)[0]);
    assert(s[n + 1] == u32_le_bytes(v)[1]);
    assert(s[n + 2] == u32_le_bytes(v)[2]);
    assert(s[n + 3] == u32_le_bytes(v)[3]);
}

} // verus!
