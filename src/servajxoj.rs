//! The channel codec: one byte spread over the two low bits of each of the four
//! channels of a pixel.

use vstd::prelude::*;

verus! {

/// The pixel `q` after it took in `b`: bits 7-6 of `b` go to the first
/// channel, 5-4 to the second, 3-2 to the third and 1-0 to the fourth; the six
/// upper bits of every channel stay as they were.
pub open spec fn kodita(q: Seq<u8>, b: u8) -> Seq<u8> {
    seq![
        (q[0] & 0xFC) | (b >> 6u8),
        (q[1] & 0xFC) | ((b >> 4u8) & 3),
        (q[2] & 0xFC) | ((b >> 2u8) & 3),
        (q[3] & 0xFC) | (b & 3),
    ]
}

/// The byte that the pixel `q` carries: the two low bits of its channels,
/// the first channel's highest.
pub open spec fn malkodita(q: Seq<u8>) -> u8 {
    (((q[0] & 3) << 6u8) | ((q[1] & 3) << 4u8) | ((q[2] & 3) << 2u8) | (q[3] & 3)) as u8
}

/// Writes `bajto` into the low bits of the pixel `rgba`.
pub fn cxifri_bajton(rgba: [u8; 4], bajto: u8) -> (r: [u8; 4])
    ensures
        r@ == kodita(rgba@, bajto),
{
    let r: [u8; 4] = [
        (rgba[0] & 0xFC) | (bajto >> 6u8),
        (rgba[1] & 0xFC) | ((bajto >> 4u8) & 3),
        (rgba[2] & 0xFC) | ((bajto >> 2u8) & 3),
        (rgba[3] & 0xFC) | (bajto & 3),
    ];
    assert(r@ =~= kodita(rgba@, bajto));
    r
}

/// Reads the byte that the pixel `rgba` carries.
pub fn decxifri_bajton(rgba: [u8; 4]) -> (r: u8)
    ensures
        r == malkodita(rgba@),
{
    ((rgba[0] & 3) << 6u8) | ((rgba[1] & 3) << 4u8) | ((rgba[2] & 3) << 2u8) | (rgba[3] & 3)
}

/// Reading a pixel gives back the byte that was last written into it, whatever
/// the pixel held before; and writing leaves the six upper bits of each channel
/// as they were.
pub proof fn lemma_kanalo_revenas(q: Seq<u8>, b: u8)
    requires
        q.len() == 4,
    ensures
        malkodita(kodita(q, b)) == b,
        forall|i: int| 0 <= i < 4 ==> #[trigger] kodita(q, b)[i] & 0xFC == q[i] & 0xFC,
{
    let k = kodita(q, b);
    let (q0, q1, q2, q3) = (q[0], q[1], q[2], q[3]);
    assert((((((q0 & 0xFC) | (b >> 6u8)) & 3) << 6u8) | (((((q1 & 0xFC) | ((b >> 4u8) & 3)) & 3)
        << 4u8)) | (((((q2 & 0xFC) | ((b >> 2u8) & 3)) & 3) << 2u8)) | (((q3 & 0xFC) | (b & 3))
        & 3)) == b) by (bit_vector);
    assert(((q0 & 0xFC) | (b >> 6u8)) & 0xFC == q0 & 0xFC) by (bit_vector);
    assert(((q1 & 0xFC) | ((b >> 4u8) & 3)) & 0xFC == q1 & 0xFC) by (bit_vector);
    assert(((q2 & 0xFC) | ((b >> 2u8) & 3)) & 0xFC == q2 & 0xFC) by (bit_vector);
    assert(((q3 & 0xFC) | (b & 3)) & 0xFC == q3 & 0xFC) by (bit_vector);
}

} // verus!
