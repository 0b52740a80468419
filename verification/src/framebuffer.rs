//! Host-side framebuffer and texture sizing, RGBA byte packing and the
//! threshold search that quantizes a channel to a byte.
use vstd::prelude::*;

verus! {

/// Sizes that do not fit in memory.
#[derive(PartialEq, Eq, Structural, Debug, Clone, Copy)]
pub enum BufferError {
    /// `width * height` does not fit in `usize`.
    PixelCountOverflow,
    /// Four bytes per pixel do not fit in `usize`.
    CapacityOverflow,
}

/// Number of pixels of a `width` x `height` framebuffer.
pub fn pixel_count(width: u32, height: u32) -> (r: Result<usize, BufferError>)
    ensures
        r is Ok <==> width as int * height as int <= usize::MAX,
        r matches Ok(n) ==> n == width as int * height as int,
        r matches Err(e) ==> e == BufferError::PixelCountOverflow,
{
    let w = width as usize;
    let h = height as usize;
    match w.checked_mul(h) {
        Some(n) => Ok(n),
        None => Err(BufferError::PixelCountOverflow),
    }
}

/// Bytes in one row of a single-channel `f32` texture of `width` texels,
/// saturating at `usize::MAX`.
pub fn texture_row_bytes(width: usize) -> (r: usize)
    ensures
        r == (if width as int * 4 > usize::MAX { usize::MAX as int } else { width as int * 4 }),
{
    match width.checked_mul(4) {
        Some(n) => n,
        None => usize::MAX,
    }
}

/// The RGBA bytes of a row of RGB pixels: each pixel becomes its three
/// channels followed by an opaque alpha of 255.
pub open spec fn rgba_bytes(pixels: Seq<[u8; 3]>) -> Seq<u8>
    decreases pixels.len(),
{
    if pixels.len() == 0 {
        Seq::empty()
    } else {
        let p = pixels.last();
        rgba_bytes(pixels.drop_last()) + seq![p[0], p[1], p[2], 255u8]
    }
}

/// Packs RGB pixels into RGBA bytes with opaque alpha.
pub fn pack_rgba(pixels: &Vec<[u8; 3]>) -> (r: Result<Vec<u8>, BufferError>)
    ensures
        r is Ok <==> pixels@.len() * 4 <= usize::MAX,
        r matches Ok(bytes) ==> bytes@ == rgba_bytes(pixels@),
        r matches Err(e) ==> e == BufferError::CapacityOverflow,
{
    let capacity = match pixels.len().checked_mul(4) {
        Some(c) => c,
        None => {
            return Err(BufferError::CapacityOverflow);
        },
    };
    let mut output: Vec<u8> = Vec::with_capacity(capacity);
    let mut i: usize = 0;
    while i < pixels.len()
        invariant
            i <= pixels@.len(),
            output@ == rgba_bytes(pixels@.subrange(0, i as int)),
        decreases pixels@.len() - i,
    {
        let p = pixels[i];
        output.push(p[0]);
        output.push(p[1]);
        output.push(p[2]);
        output.push(255u8);
        proof {
            let next = pixels@.subrange(0, i + 1);
            assert(next.drop_last() =~= pixels@.subrange(0, i as int));
            assert(next.last() == p);
            assert(output@ =~= rgba_bytes(next));
        }
        i = i + 1;
    }
    assert(pixels@.subrange(0, i as int) =~= pixels@);
    Ok(output)
}

/// Packed bytes come in groups of four: channels of pixel `i` at `4 * i`,
/// `4 * i + 1`, `4 * i + 2` and an alpha of 255 at `4 * i + 3`.
pub proof fn lemma_rgba_layout(pixels: Seq<[u8; 3]>)
    ensures
        rgba_bytes(pixels).len() == 4 * pixels.len(),
        forall|i: int|
            0 <= i < pixels.len() ==> {
                &&& rgba_bytes(pixels)[4 * i] == (#[trigger] pixels[i])[0]
                &&& rgba_bytes(pixels)[4 * i + 1] == pixels[i][1]
                &&& rgba_bytes(pixels)[4 * i + 2] == pixels[i][2]
                &&& rgba_bytes(pixels)[4 * i + 3] == 255
            },
    decreases pixels.len(),
{
    if pixels.len() > 0 {
        let prefix = pixels.drop_last();
        lemma_rgba_layout(prefix);
        let n = prefix.len() as int;
        let p = pixels.last();
        let head = rgba_bytes(prefix);
        let whole = rgba_bytes(pixels);
        assert(whole == head + seq![p[0], p[1], p[2], 255u8]);
        assert(head.len() == 4 * n);
        assert forall|i: int| 0 <= i < pixels.len() implies {
            &&& rgba_bytes(pixels)[4 * i] == (#[trigger] pixels[i])[0]
            &&& rgba_bytes(pixels)[4 * i + 1] == pixels[i][1]
            &&& rgba_bytes(pixels)[4 * i + 2] == pixels[i][2]
            &&& rgba_bytes(pixels)[4 * i + 3] == 255
        } by {
            if i < n {
                assert(prefix[i] == pixels[i]);
                assert(head[4 * i] == prefix[i][0]);
                assert(whole[4 * i] == head[4 * i]);
                assert(whole[4 * i + 1] == head[4 * i + 1]);
                assert(whole[4 * i + 2] == head[4 * i + 2]);
                assert(whole[4 * i + 3] == head[4 * i + 3]);
            } else {
                assert(i == n);
                assert(pixels[i] == p);
            }
        }
    }
}

/// The first byte value `m` for which `below(m)` fails, or 255 when every
/// smaller value is below: a binary search over a predicate that holds on a
/// prefix of `0..=255` (such as "`m` is below the channel value").
pub fn first_not_below<F: Fn(u8) -> bool>(below: F) -> (r: u8)
    requires
        forall|m: u8| call_requires(below, (m,)),
        forall|a: u8, b: u8, ra: bool, rb: bool|
            a <= b && call_ensures(below, (a,), ra) && call_ensures(below, (b,), rb) && rb ==> ra,
    ensures
        forall|m: u8, res: bool| m < r && #[trigger] call_ensures(below, (m,), res) ==> res,
        r < 255 ==> forall|res: bool| #[trigger] call_ensures(below, (r,), res) ==> !res,
{
    let mut low: u8 = 0;
    let mut high: u8 = 255;
    while low < high
        invariant
            forall|m: u8| call_requires(below, (m,)),
            forall|a: u8, b: u8, ra: bool, rb: bool|
                a <= b && call_ensures(below, (a,), ra) && call_ensures(below, (b,), rb) && rb ==> ra,
            low <= high,
            forall|m: u8, res: bool| m < low && #[trigger] call_ensures(below, (m,), res) ==> res,
            high < 255 ==> forall|m: u8, res: bool| m >= high && #[trigger] call_ensures(below, (m,), res) ==> !res,
        decreases high - low,
    {
        let mid = low + (high - low) / 2;
        let is_below = below(mid);
        if is_below {
            assert forall|m: u8, res: bool| m < mid + 1 && #[trigger] call_ensures(below, (m,), res) implies res by {
                if m < low {
                } else {
                    assert(m <= mid);
                }
            }
            low = mid + 1;
        } else {
            assert forall|m: u8, res: bool| m >= mid && #[trigger] call_ensures(below, (m,), res) implies !res by {
                if res {
                    assert(m >= mid);
                }
            }
            high = mid;
        }
    }
    low
}

} // verus!
