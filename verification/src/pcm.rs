//! Framing of a raw little-endian PCM byte stream into 32-bit sample words.

use vstd::prelude::*;

verus! {

/// Why a byte stream is not a sequence of samples.
#[derive(Clone, Copy, Debug, PartialEq, Eq, Structural)]
pub enum DecodeError {
    /// The stream's length, which it carries, is not a multiple of four.
    Misaligned(usize),
}

/// The 32-bit word that four bytes write, least significant byte first.
pub open spec fn word_le(b0: u8, b1: u8, b2: u8, b3: u8) -> u32 {
    (b0 as int + 256 * (b1 as int) + 65536 * (b2 as int) + 16777216 * (b3 as int)) as u32
}

/// The sample words of a byte stream: one for each complete group of four bytes.
pub open spec fn frames_spec(bytes: Seq<u8>) -> Seq<u32> {
    Seq::new(
        (bytes.len() / 4) as nat,
        |i: int| word_le(bytes[4 * i], bytes[4 * i + 1], bytes[4 * i + 2], bytes[4 * i + 3]),
    )
}

/// Splits a byte stream into sample words. Each word is the bit pattern of
/// one single-precision sample. A stream whose length is not a multiple of
/// four is refused.
pub fn frames_from_bytes(bytes: &[u8]) -> (r: Result<Vec<u32>, DecodeError>)
    ensures
        bytes@.len() % 4 == 0 ==> r is Ok && r->Ok_0@ == frames_spec(bytes@),
        bytes@.len() % 4 != 0 ==> r == Err::<Vec<u32>, DecodeError>(
            DecodeError::Misaligned(bytes.len()),
        ),
{
    let n = bytes.len();
    if n % 4 != 0 {
        return Err(DecodeError::Misaligned(n));
    }
    let count = n / 4;
    let mut out: Vec<u32> = Vec::with_capacity(count);
    let mut i: usize = 0;
    while i < count
        invariant
            i <= count,
            n == bytes@.len(),
            n == 4 * count,
            out@.len() == i,
            forall|k: int| 0 <= k < i ==> #[trigger] out@[k] == frames_spec(bytes@)[k],
        decreases count - i,
    {
        let at = 4 * i;
        let b0 = bytes[at] as u32;
        let b1 = bytes[at + 1] as u32;
        let b2 = bytes[at + 2] as u32;
        let b3 = bytes[at + 3] as u32;
        out.push(b0 + 256 * b1 + 65536 * b2 + 16777216 * b3);
        i += 1;
    }
    assert(out@ =~= frames_spec(bytes@));
    Ok(out)
}

} // verus!
