//! The integer parts of drawing: copying glyph bitmaps into the glyph
//! cache texture, the triangles of quads, and the choices made when the
//! swap chain is set up.

use vstd::prelude::*;

use vstd::arithmetic::div_mod::lemma_fundamental_div_mod_converse;

verus! {

/// A rectangle of texture pixels, from `min` (inclusive) to `max`
/// (exclusive).
#[derive(Debug, Clone, Copy)]
pub struct TextureRect {
    pub min: [u32; 2],
    pub max: [u32; 2],
}

/// Whether pixel `i` of a texture `width` pixels wide lies in the rectangle.
pub open spec fn in_rect(i: int, width: int, rect: TextureRect) -> bool {
    &&& rect.min[0] <= i % width < rect.max[0]
    &&& rect.min[1] <= i / width < rect.max[1]
}

/// The texture after the rectangle is filled with `src`, row by row.
pub open spec fn blit(old: Seq<u8>, width: int, rect: TextureRect, src: Seq<u8>) -> Seq<u8> {
    Seq::new(
        old.len(),
        |i: int|
            if in_rect(i, width, rect) {
                src[(i / width - rect.min[1]) * (rect.max[0] - rect.min[0]) + (i % width - rect.min[0])]
            } else {
                old[i]
            },
    )
}

/// Pixel `i` is in the first `rows` rows of the rectangle, or in the next
/// row before column `cols` of it.
spec fn done_part(i: int, width: int, rect: TextureRect, rows: int, cols: int) -> bool {
    let row = i / width;
    let col = i % width;
    &&& rect.min[0] <= col < rect.max[0]
    &&& ((rect.min[1] <= row < rect.min[1] + rows) || (row == rect.min[1] + rows && col < rect.min[0] + cols))
}

spec fn partial_blit(old: Seq<u8>, width: int, rect: TextureRect, src: Seq<u8>, rows: int, cols: int) -> Seq<u8> {
    Seq::new(
        old.len(),
        |i: int|
            if done_part(i, width, rect, rows, cols) {
                src[(i / width - rect.min[1]) * (rect.max[0] - rect.min[0]) + (i % width - rect.min[0])]
            } else {
                old[i]
            },
    )
}

proof fn lemma_position(i: int, width: int, row: int, col: int)
    requires
        width > 0,
        0 <= col < width,
        i == row * width + col,
    ensures
        i / width == row,
        i % width == col,
{
    lemma_fundamental_div_mod_converse(i, width, row, col);
}

/// Copies a glyph bitmap into the cache texture: row by row, the pixels of
/// `src_data` fill `rect` of the texture, which is `cache_dimensions.0`
/// pixels wide; the other pixels stay.
pub fn update_texture(
    cache_dimensions: (usize, usize),
    cache_pixel_buffer: &mut Vec<u8>,
    rect: TextureRect,
    src_data: &[u8],
)
    requires
        cache_dimensions.0 > 0,
        rect.min[0] <= rect.max[0] <= cache_dimensions.0,
        rect.min[1] <= rect.max[1],
        rect.max[1] * cache_dimensions.0 <= old(cache_pixel_buffer)@.len(),
        rect.max[1] * cache_dimensions.0 + rect.min[0] <= usize::MAX,
        (rect.max[0] - rect.min[0]) * (rect.max[1] - rect.min[1]) <= src_data@.len(),
    ensures
        final(cache_pixel_buffer)@ == blit(old(cache_pixel_buffer)@, cache_dimensions.0 as int, rect, src_data@),
{
    let ghost old_buf = cache_pixel_buffer@;
    let buf_len = cache_pixel_buffer.len();
    let src_len = src_data.len();
    let cw = cache_dimensions.0;
    let ghost width = cw as int;
    let w = (rect.max[0] - rect.min[0]) as usize;
    let h = (rect.max[1] - rect.min[1]) as usize;
    proof {
        assert(rect.min[1] * cw <= rect.max[1] * cw) by (nonlinear_arith)
            requires
                rect.min[1] <= rect.max[1],
        ;
        assert(w * h <= src_data@.len());
        assert(rect.min[1] * cw + rect.min[0] <= usize::MAX);
    }
    let mut dst_id: usize = rect.min[1] as usize * cw + rect.min[0] as usize;
    let mut src_id: usize = 0;
    let mut r: usize = 0;
    proof {
        assert(partial_blit(old_buf, width, rect, src_data@, 0, 0) =~= old_buf) by {
            assert forall|i: int| 0 <= i < old_buf.len() implies !done_part(i, width, rect, 0, 0) by {}
        }
    }
    while r < h
        invariant
            cw == cache_dimensions.0,
            width == cw,
            cw > 0,
            w == rect.max[0] - rect.min[0],
            h == rect.max[1] - rect.min[1],
            rect.min[0] <= rect.max[0] <= cw,
            rect.max[1] * cw <= old_buf.len(),
            rect.max[1] * cw + rect.min[0] <= usize::MAX,
            old_buf.len() == buf_len,
            src_data@.len() == src_len,
            w * h <= src_data@.len(),
            r <= h,
            dst_id == (rect.min[1] + r) * cw + rect.min[0],
            src_id == r * w,
            cache_pixel_buffer@ == partial_blit(old_buf, width, rect, src_data@, r as int, 0),
        decreases h - r,
    {
        let mut c: usize = 0;
        proof {
            assert((rect.min[1] + r + 1) * cw <= rect.max[1] * cw) by (nonlinear_arith)
                requires
                    rect.min[1] + r + 1 <= rect.max[1],
            ;
            assert((rect.min[1] + r + 1) * cw == (rect.min[1] + r) * cw + cw) by (nonlinear_arith);
            assert((r + 1) * w <= w * h) by (nonlinear_arith)
                requires
                    r + 1 <= h,
            ;
            assert((r + 1) * w == r * w + w) by (nonlinear_arith);
            assert((rect.min[1] + r + 1) * cw + rect.min[0] <= rect.max[1] * cw + rect.min[0]);
        }
        while c < w
            invariant
                cw == cache_dimensions.0,
                width == cw,
                cw > 0,
                w == rect.max[0] - rect.min[0],
                h == rect.max[1] - rect.min[1],
                rect.min[0] <= rect.max[0] <= cw,
                r < h,
                c <= w,
                dst_id == (rect.min[1] + r) * cw + rect.min[0],
                dst_id + w <= old_buf.len(),
                old_buf.len() == buf_len,
                src_data@.len() == src_len,
                src_id == r * w,
                src_id + w <= src_data@.len(),
                cache_pixel_buffer@ == partial_blit(old_buf, width, rect, src_data@, r as int, c as int),
            decreases w - c,
        {
            let ghost before = cache_pixel_buffer@;
            let ghost target = dst_id + c;
            cache_pixel_buffer.set(dst_id + c, src_data[src_id + c]);
            proof {
                lemma_position(target, width, rect.min[1] + r, rect.min[0] + c);
                assert forall|i: int| 0 <= i < old_buf.len() implies #[trigger] cache_pixel_buffer@[i]
                    == partial_blit(old_buf, width, rect, src_data@, r as int, c + 1)[i] by {
                    if i == target {
                        assert(done_part(i, width, rect, r as int, c + 1));
                        assert((i / width - rect.min[1]) * (rect.max[0] - rect.min[0]) + (i % width - rect.min[0])
                            == src_id + c);
                    } else {
                        let row = i / width;
                        let col = i % width;
                        vstd::arithmetic::div_mod::lemma_fundamental_div_mod(i, width);
                        assert(0 <= col < width) by {
                            vstd::arithmetic::div_mod::lemma_mod_bound(i, width);
                        }
                        if row == rect.min[1] + r && col == rect.min[0] + c {
                            vstd::arithmetic::mul::lemma_mul_is_commutative(width, row);
                            assert(i == target);
                        }
                    }
                }
                assert(cache_pixel_buffer@ =~= partial_blit(old_buf, width, rect, src_data@, r as int, c + 1));
            }
            c += 1;
        }
        proof {
            assert(partial_blit(old_buf, width, rect, src_data@, r as int, w as int) =~= partial_blit(
                old_buf,
                width,
                rect,
                src_data@,
                r + 1,
                0,
            ));
        }
        dst_id += cw;
        src_id += w;
        r += 1;
    }
    proof {
        assert(partial_blit(old_buf, width, rect, src_data@, h as int, 0) =~= blit(old_buf, width, rect, src_data@));
    }
}

/// The indices of the two triangles of quad number `offset`, whose
/// corners are vertices `4 * offset` to `4 * offset + 3`, clockwise from
/// the top left.
pub fn quad_indices(offset: u16) -> (ix: [u16; 6])
    requires
        offset * 4 + 3 <= u16::MAX,
    ensures
        ix@ == seq![
            (offset * 4) as u16,
            (offset * 4 + 1) as u16,
            (offset * 4 + 2) as u16,
            (offset * 4 + 2) as u16,
            (offset * 4 + 3) as u16,
            (offset * 4) as u16,
        ],
{
    let offset = offset * 4;
    [offset + 0, offset + 1, offset + 2, offset + 2, offset + 3, offset + 0]
}

/// The index buffer of `n` quads: the indices of each quad in turn.
pub open spec fn quads_indices(n: nat) -> Seq<u16>
    decreases n,
{
    if n == 0 {
        Seq::empty()
    } else {
        let k = (n - 1) as int;
        quads_indices((n - 1) as nat) + seq![
            (k * 4) as u16,
            (k * 4 + 1) as u16,
            (k * 4 + 2) as u16,
            (k * 4 + 2) as u16,
            (k * 4 + 3) as u16,
            (k * 4) as u16,
        ]
    }
}

/// The index buffer of `n` quads, as the primitives are turned into
/// triangles.
pub fn primitive_indices(n: usize) -> (indices: Vec<u16>)
    requires
        n * 4 <= 65536,
    ensures
        indices@ == quads_indices(n as nat),
{
    let mut indices: Vec<u16> = Vec::new();
    let mut i: u16 = 0;
    let mut k: usize = 0;
    while k < n
        invariant
            n * 4 <= 65536,
            k <= n,
            i == k,
            indices@ == quads_indices(k as nat),
        decreases n - k,
    {
        let quad = quad_indices(i);
        let mut j: usize = 0;
        let ghost before = indices@;
        while j < 6
            invariant
                j <= 6,
                indices@ == before + quad@.take(j as int),
            decreases 6 - j,
        {
            indices.push(quad[j]);
            proof {
                assert(quad@.take(j + 1) =~= quad@.take(j as int).push(quad@[j as int]));
            }
            j += 1;
        }
        proof {
            assert(quad@.take(6) =~= quad@);
            assert(indices@ =~= quads_indices((k + 1) as nat));
        }
        k += 1;
        i += 1;
    }
    indices
}

/// How finished images are presented.
#[derive(Debug, Clone, Copy, PartialEq, Eq, Structural)]
pub enum PresentMode {
    Mailbox,
    Immediate,
    Fifo,
}

/// The present mode to use: mailbox when supported, else immediate when
/// supported, else FIFO, which is always supported.
pub fn choose_swap_present_mode(mailbox: bool, immediate: bool) -> (m: PresentMode)
    ensures
        m == (if mailbox {
            PresentMode::Mailbox
        } else if immediate {
            PresentMode::Immediate
        } else {
            PresentMode::Fifo
        }),
{
    if mailbox {
        PresentMode::Mailbox
    } else if immediate {
        PresentMode::Immediate
    } else {
        PresentMode::Fifo
    }
}

pub open spec fn clamp_extent(want: u32, min: u32, max: u32) -> u32 {
    let capped = if max < want { max } else { want };
    if min > capped { min } else { capped }
}

/// The size of the swap chain's images: the surface's current size when it
/// has one, else 800 by 600 kept within the surface's limits (the minimum
/// winning over the maximum).
pub fn choose_swap_extent(current_extent: Option<[u32; 2]>, min_image_extent: [u32; 2], max_image_extent: [u32; 2]) -> (e: [u32; 2])
    ensures
        match current_extent {
            Some(c) => e@ == c@,
            None => e@ == seq![
                clamp_extent(800, min_image_extent[0], max_image_extent[0]),
                clamp_extent(600, min_image_extent[1], max_image_extent[1]),
            ],
        },
{
    if let Some(current) = current_extent {
        return current;
    }
    let mut actual_extent: [u32; 2] = [800, 600];
    let w = if max_image_extent[0] < actual_extent[0] { max_image_extent[0] } else { actual_extent[0] };
    let w = if min_image_extent[0] > w { min_image_extent[0] } else { w };
    let h = if max_image_extent[1] < actual_extent[1] { max_image_extent[1] } else { actual_extent[1] };
    let h = if min_image_extent[1] > h { min_image_extent[1] } else { h };
    actual_extent = [w, h];
    proof {
        assert(actual_extent@ =~= seq![w, h]);
    }
    actual_extent
}

} // verus!
