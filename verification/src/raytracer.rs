//! A deterministic diagnostic image: a color gradient, no ray tracing.

use vstd::prelude::*;

verus! {

/// One gradient channel: the value `v / 255`, scaled to sit just below the
/// next 8-bit step, truncated.
pub open spec fn gradient_channel(v: int) -> u8 {
    ((v * 255999) / 255000) as u8
}

/// The byte at offset `k` of the gradient image: pixels are three bytes,
/// red rises with the column, green falls with the row (rows are emitted
/// top-down from the highest source row), blue is constant.
pub open spec fn gradient_byte(k: int) -> u8 {
    let p = k / 3;
    let ch = k % 3;
    if ch == 0 {
        gradient_channel(p % 256)
    } else if ch == 1 {
        gradient_channel(255 - p / 256)
    } else {
        63
    }
}

/// Render the 256 x 256 gradient, three bytes per pixel, rows from the
/// top; every byte is pinned by `gradient_byte`.
pub fn render() -> (img: Vec<u8>)
    ensures
        img@.len() == 196608,
        forall|k: int| 0 <= k < img@.len() ==> img@[k] == gradient_byte(k),
{
    let mut img: Vec<u8> = Vec::new();
    let mut j: u32 = 256;
    while j > 0
        invariant
            j <= 256,
            img@.len() == 768 * (256 - j as int),
            forall|k: int| 0 <= k < img@.len() ==> img@[k] == gradient_byte(k),
        decreases j,
    {
        j = j - 1;
        let mut i: u32 = 0;
        while i < 256
            invariant
                i <= 256,
                j < 256,
                img@.len() == 768 * (255 - j as int) + 3 * i as int,
                forall|k: int| 0 <= k < img@.len() ==> img@[k] == gradient_byte(k),
            decreases 256 - i,
        {
            img.push(((i * 255999) / 255000) as u8);
            img.push(((j * 255999) / 255000) as u8);
            img.push(63);
            i = i + 1;
        }
    }
    img
}

} // verus!
