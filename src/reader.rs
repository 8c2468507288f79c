use vstd::prelude::*;
use crate::error::Grib2Error;

verus! {

/// Big-endian value of the two bytes at `at`.
pub open spec fn be16(s: Seq<u8>, at: int) -> int {
    s[at] * 256 + s[at + 1]
}

/// Big-endian value of the four bytes at `at`.
pub open spec fn be32(s: Seq<u8>, at: int) -> int {
    s[at] * 16777216 + s[at + 1] * 65536 + s[at + 2] * 256 + s[at + 3]
}

/// Reads one byte at the cursor and moves past it.
pub fn read_u8(data: &[u8], pos: &mut usize) -> (r: Result<u8, Grib2Error>)
    ensures
        *old(pos) + 1 <= data@.len() ==> r == Ok::<u8, Grib2Error>(data@[*old(pos) as int])
            && *final(pos) == *old(pos) + 1,
        *old(pos) + 1 > data@.len() ==> r == Err::<u8, Grib2Error>(Grib2Error::TruncatedRead)
            && *final(pos) == *old(pos),
{
    if *pos >= data.len() {
        return Err(Grib2Error::TruncatedRead);
    }
    let b = data[*pos];
    *pos += 1;
    Ok(b)
}

/// Reads a big-endian `u16` at the cursor and moves past it.
pub fn read_u16(data: &[u8], pos: &mut usize) -> (r: Result<u16, Grib2Error>)
    ensures
        *old(pos) + 2 <= data@.len() ==> r == Ok::<u16, Grib2Error>(
            be16(data@, *old(pos) as int) as u16,
        ) && *final(pos) == *old(pos) + 2,
        *old(pos) + 2 > data@.len() ==> r == Err::<u16, Grib2Error>(Grib2Error::TruncatedRead)
            && *final(pos) == *old(pos),
{
    if data.len() < 2 || *pos > data.len() - 2 {
        return Err(Grib2Error::TruncatedRead);
    }
    let p = *pos;
    let v = data[p] as u16 * 256 + data[p + 1] as u16;
    *pos = p + 2;
    Ok(v)
}

/// Reads a big-endian `u32` at the cursor and moves past it.
pub fn read_u32(data: &[u8], pos: &mut usize) -> (r: Result<u32, Grib2Error>)
    ensures
        *old(pos) + 4 <= data@.len() ==> r == Ok::<u32, Grib2Error>(
            be32(data@, *old(pos) as int) as u32,
        ) && *final(pos) == *old(pos) + 4,
        *old(pos) + 4 > data@.len() ==> r == Err::<u32, Grib2Error>(Grib2Error::TruncatedRead)
            && *final(pos) == *old(pos),
{
    if data.len() < 4 || *pos > data.len() - 4 {
        return Err(Grib2Error::TruncatedRead);
    }
    let p = *pos;
    let v = data[p] as u32 * 16777216 + data[p + 1] as u32 * 65536 + data[p + 2] as u32 * 256
        + data[p + 3] as u32;
    *pos = p + 4;
    Ok(v)
}

/// Moves the cursor past `n` bytes that the decoder does not use.
pub fn skip(data: &[u8], pos: &mut usize, n: usize) -> (r: Result<(), Grib2Error>)
    ensures
        *old(pos) + n <= data@.len() ==> r is Ok && *final(pos) == *old(pos) + n,
        *old(pos) + n > data@.len() ==> r == Err::<(), Grib2Error>(Grib2Error::TruncatedRead)
            && *final(pos) == *old(pos),
{
    if *pos > data.len() || n > data.len() - *pos {
        return Err(Grib2Error::TruncatedRead);
    }
    *pos += n;
    Ok(())
}

} // verus!
