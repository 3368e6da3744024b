use vstd::prelude::*;

verus! {

/// Little-endian 16-bit value of `s[i..i + 2]`.
pub open spec fn le16(s: Seq<u8>, i: int) -> int {
    s[i] as int + 256 * (s[i + 1] as int)
}

/// Little-endian 32-bit value of `s[i..i + 4]`.
pub open spec fn le32(s: Seq<u8>, i: int) -> int {
    le16(s, i) + 65536 * le16(s, i + 2)
}

/// Little-endian 64-bit value of `s[i..i + 8]`.
pub open spec fn le64(s: Seq<u8>, i: int) -> int {
    le32(s, i) + 4294967296 * le32(s, i + 4)
}

pub fn read_u16(s: &[u8], i: usize) -> (r: u16)
    requires
        i + 2 <= s@.len(),
    ensures
        r as int == le16(s@, i as int),
{
    let lo = s[i] as u16;
    let hi = s[i + 1] as u16;
    assert(hi * 256 <= 65280) by (nonlinear_arith)
        requires
            hi <= 255,
    ;
    lo + hi * 256
}

pub fn read_u32(s: &[u8], i: usize) -> (r: u32)
    requires
        i + 4 <= s@.len(),
    ensures
        r as int == le32(s@, i as int),
{
    assert(s@.len() == s.len());
    let lo = read_u16(s, i) as u32;
    let hi = read_u16(s, i + 2) as u32;
    assert(hi * 65536 <= 4294901760) by (nonlinear_arith)
        requires
            hi <= 65535,
    ;
    lo + hi * 65536
}

pub fn read_u64(s: &[u8], i: usize) -> (r: u64)
    requires
        i + 8 <= s@.len(),
    ensures
        r as int == le64(s@, i as int),
{
    assert(s@.len() == s.len());
    let lo = read_u32(s, i) as u64;
    let hi = read_u32(s, i + 4) as u64;
    assert(hi * 4294967296 <= 18446744069414584320) by (nonlinear_arith)
        requires
            hi <= 4294967295,
    ;
    lo + hi * 4294967296
}

} // verus!
