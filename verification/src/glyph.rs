//! Drawing a rasterized glyph into a pixel buffer.
//!
//! A glyph comes as a coverage bitmap: one byte per pixel, row by row, 0 for
//! untouched and 255 for fully inked. Pixels are `0xAARRGGBB`. Drawing blends
//! the ink colour over what the buffer holds, channel by channel, in
//! proportion to the coverage.

use vstd::prelude::*;

verus! {

/// One 8-bit channel of a pixel: alpha at shift 24, red at 16, green at 8,
/// blue at 0.
pub open spec fn channel(pixel: u32, shift: u32) -> u32 {
    (pixel >> shift) & 0xff
}

/// One channel of `ink` over `paper`: the two weighted by `coverage` out of
/// 255, rounded down.
pub open spec fn mix(ink: u32, paper: u32, coverage: u8) -> u32 {
    ((ink * coverage + paper * (255 - coverage)) / 255) as u32
}

/// The pixel with the four channels `a`, `r`, `g`, `b`.
pub open spec fn pack(a: u32, r: u32, g: u32, b: u32) -> u32 {
    (a << 24u32) | (r << 16u32) | (g << 8u32) | b
}

/// The pixel `ink` blended over the pixel `paper` with the given coverage.
pub open spec fn blended(paper: u32, ink: u32, coverage: u8) -> u32 {
    pack(
        mix(channel(ink, 24), channel(paper, 24), coverage),
        mix(channel(ink, 16), channel(paper, 16), coverage),
        mix(channel(ink, 8), channel(paper, 8), coverage),
        mix(channel(ink, 0), channel(paper, 0), coverage),
    )
}

/// A channel is at most 255.
pub proof fn lemma_channel_bound(pixel: u32, shift: u32)
    ensures
        channel(pixel, shift) <= 255,
{
    assert((pixel >> shift) & 0xff <= 255) by (bit_vector);
}

/// Mixing two channels gives a channel, and the sum it divides fits in 32
/// bits.
proof fn lemma_mix_bound(ink: u32, paper: u32, coverage: u8)
    requires
        ink <= 255,
        paper <= 255,
    ensures
        0 <= ink * coverage,
        0 <= paper * (255 - coverage),
        ink * coverage + paper * (255 - coverage) <= 255 * 255,
        (ink * coverage + paper * (255 - coverage)) / 255 <= 255,
{
    assert(0 <= ink * coverage <= 255 * coverage) by (nonlinear_arith)
        requires
            0 <= ink <= 255,
            coverage >= 0,
    ;
    assert(0 <= paper * (255 - coverage) <= 255 * (255 - coverage)) by (nonlinear_arith)
        requires
            0 <= paper <= 255,
            255 - coverage >= 0,
    ;
}

/// Mixes one channel.
fn mix_channel(ink: u32, paper: u32, coverage: u8) -> (out: u32)
    requires
        ink <= 255,
        paper <= 255,
    ensures
        out == mix(ink, paper, coverage),
        out <= 255,
{
    proof {
        lemma_mix_bound(ink, paper, coverage);
    }
    let cover: u32 = coverage as u32;
    (ink * cover + paper * (255 - cover)) / 255
}

/// Blends the pixel `ink` over the pixel `paper` with the given coverage.
pub fn blend_pixel(paper: u32, ink: u32, coverage: u8) -> (out: u32)
    ensures
        out == blended(paper, ink, coverage),
{
    proof {
        lemma_channel_bound(ink, 24);
        lemma_channel_bound(ink, 16);
        lemma_channel_bound(ink, 8);
        lemma_channel_bound(paper, 24);
        lemma_channel_bound(paper, 16);
        lemma_channel_bound(paper, 8);
        assert(ink & 0xff == channel(ink, 0) && ink & 0xff <= 255) by (bit_vector);
        assert(paper & 0xff == channel(paper, 0) && paper & 0xff <= 255) by (bit_vector);
    }
    let a = mix_channel((ink >> 24) & 0xff, (paper >> 24) & 0xff, coverage);
    let r = mix_channel((ink >> 16) & 0xff, (paper >> 16) & 0xff, coverage);
    let g = mix_channel((ink >> 8) & 0xff, (paper >> 8) & 0xff, coverage);
    let b = mix_channel(ink & 0xff, paper & 0xff, coverage);
    (a << 24) | (r << 16) | (g << 8) | b
}

/// Full coverage paints the ink as it is, and no coverage leaves the paper
/// as it is.
pub proof fn lemma_full_and_no_coverage(paper: u32, ink: u32)
    ensures
        blended(paper, ink, 255) == ink,
        blended(paper, ink, 0) == paper,
{
    lemma_channel_bound(ink, 24);
    lemma_channel_bound(ink, 16);
    lemma_channel_bound(ink, 8);
    lemma_channel_bound(ink, 0);
    lemma_channel_bound(paper, 24);
    lemma_channel_bound(paper, 16);
    lemma_channel_bound(paper, 8);
    lemma_channel_bound(paper, 0);
    assert(pack(channel(ink, 24), channel(ink, 16), channel(ink, 8), channel(ink, 0)) == ink)
        by (bit_vector);
    assert(pack(channel(paper, 24), channel(paper, 16), channel(paper, 8), channel(paper, 0))
        == paper) by (bit_vector);
}

/// The pixel of `buffer` in column `col` of row `row`, for rows `width` wide.
pub open spec fn pixel_at(buffer: Seq<u32>, width: int, col: int, row: int) -> u32 {
    buffer[row * width + col]
}

/// The place in a glyph's bitmap of the pixel that falls on column `col`,
/// row `row`, when the glyph's corner is at `x`, `y`.
pub open spec fn glyph_pixel(glyph_width: int, x: int, y: int, col: int, row: int) -> int {
    (row - y) * glyph_width + (col - x)
}

/// The glyph has a pixel that falls on column `col`, row `row`.
pub open spec fn glyph_covers(
    bitmap_len: int,
    glyph_width: int,
    x: int,
    y: int,
    col: int,
    row: int,
) -> bool {
    &&& x <= col < x + glyph_width
    &&& y <= row
    &&& glyph_pixel(glyph_width, x, y, col, row) < bitmap_len
}

/// The pixel at column `col`, row `row` after the first `done` pixels of the
/// glyph have been drawn over `paper`.
pub open spec fn drawn_so_far(
    paper: u32,
    bitmap: Seq<u8>,
    done: int,
    glyph_width: int,
    x: int,
    y: int,
    col: int,
    row: int,
    ink: u32,
) -> u32 {
    let at = glyph_pixel(glyph_width, x, y, col, row);
    if glyph_covers(bitmap.len() as int, glyph_width, x, y, col, row) && at < done && bitmap[at]
        != 0 {
        blended(paper, ink, bitmap[at])
    } else {
        paper
    }
}

/// The pixel at column `col`, row `row` after the glyph has been drawn over
/// `paper`.
pub open spec fn drawn(
    paper: u32,
    bitmap: Seq<u8>,
    glyph_width: int,
    x: int,
    y: int,
    col: int,
    row: int,
    ink: u32,
) -> u32 {
    drawn_so_far(paper, bitmap, bitmap.len() as int, glyph_width, x, y, col, row, ink)
}

/// Pixel `i` of a glyph falls on exactly one place.
pub proof fn lemma_glyph_pixel_place(glyph_width: int, x: int, y: int, col: int, row: int, i: int)
    requires
        glyph_width > 0,
        i >= 0,
    ensures
        (x <= col < x + glyph_width && y <= row && glyph_pixel(glyph_width, x, y, col, row) == i)
            <==> (col == x + i % glyph_width && row == y + i / glyph_width),
{
    vstd::arithmetic::div_mod::lemma_fundamental_div_mod(i, glyph_width);
    vstd::arithmetic::div_mod::lemma_mod_pos_bound(i, glyph_width);
    vstd::arithmetic::div_mod::lemma_div_pos_is_pos(i, glyph_width);
    if x <= col < x + glyph_width && y <= row && glyph_pixel(glyph_width, x, y, col, row) == i {
        vstd::arithmetic::div_mod::lemma_fundamental_div_mod_converse(
            i,
            glyph_width,
            row - y,
            col - x,
        );
    }
    if col == x + i % glyph_width && row == y + i / glyph_width {
        assert((i / glyph_width) * glyph_width == glyph_width * (i / glyph_width))
            by (nonlinear_arith);
    }
}

/// Two places in a buffer share an index only if they are the same place.
pub proof fn lemma_pixel_index(width: int, height: int, col: int, row: int, col2: int, row2: int)
    requires
        0 <= col < width,
        0 <= row < height,
        0 <= col2 < width,
        0 <= row2,
    ensures
        0 <= row * width + col < width * height,
        row * width + col == row2 * width + col2 ==> row == row2 && col == col2,
{
    assert(row * width + col < width * height) by (nonlinear_arith)
        requires
            0 <= col < width,
            0 <= row < height,
    ;
    assert(0 <= row * width) by (nonlinear_arith)
        requires
            0 <= row,
            0 < width,
    ;
    if row * width + col == row2 * width + col2 {
        vstd::arithmetic::div_mod::lemma_fundamental_div_mod_converse(
            row * width + col,
            width,
            row,
            col,
        );
        vstd::arithmetic::div_mod::lemma_fundamental_div_mod_converse(
            row * width + col,
            width,
            row2,
            col2,
        );
    }
}

/// Draws a glyph into a pixel buffer, its corner at column `x`, row `y`.
///
/// `bitmap` holds the glyph's coverage row by row, `glyph_width` bytes to a
/// row; `buffer` holds `buffer_height` rows of `buffer_width` pixels. Each
/// pixel of the glyph with a coverage other than 0 that falls on the buffer
/// is blended into the pixel under it. What falls beside the buffer is
/// clipped, and no other pixel changes.
///
/// A glyph that has pixels has a width, and the buffer is at least as long
/// as its width and height say.
pub fn draw_glyph(
    bitmap: &[u8],
    glyph_width: usize,
    x: usize,
    y: usize,
    buffer: &mut [u32],
    buffer_width: usize,
    buffer_height: usize,
    color: u32,
)
    requires
        bitmap@.len() > 0 ==> glyph_width > 0,
        buffer_width * buffer_height <= old(buffer)@.len(),
    ensures
        final(buffer)@.len() == old(buffer)@.len(),
        forall|col: int, row: int|
            0 <= col < buffer_width && 0 <= row < buffer_height ==> #[trigger] pixel_at(
                final(buffer)@,
                buffer_width as int,
                col,
                row,
            ) == drawn(
                pixel_at(old(buffer)@, buffer_width as int, col, row),
                bitmap@,
                glyph_width as int,
                x as int,
                y as int,
                col,
                row,
                color,
            ),
        forall|p: int|
            buffer_width * buffer_height <= p < old(buffer)@.len() ==> final(buffer)@[p] == old(
                buffer,
            )@[p],
{
    let size = buffer.len();
    let mut i: usize = 0;
    while i < bitmap.len()
        invariant
            i <= bitmap@.len(),
            bitmap@.len() > 0 ==> glyph_width > 0,
            buffer@.len() == size,
            buffer_width * buffer_height <= buffer@.len(),
            buffer@.len() == old(buffer)@.len(),
            forall|col: int, row: int|
                0 <= col < buffer_width && 0 <= row < buffer_height ==> #[trigger] pixel_at(
                    buffer@,
                    buffer_width as int,
                    col,
                    row,
                ) == drawn_so_far(
                    pixel_at(old(buffer)@, buffer_width as int, col, row),
                    bitmap@,
                    i as int,
                    glyph_width as int,
                    x as int,
                    y as int,
                    col,
                    row,
                    color,
                ),
            forall|p: int|
                buffer_width * buffer_height <= p < buffer@.len() ==> buffer@[p] == old(
                    buffer,
                )@[p],
        decreases bitmap@.len() - i,
    {
        let coverage = bitmap[i];
        let right = i % glyph_width;
        let down = i / glyph_width;
        let ghost before = buffer@;
        let on_buffer = x < buffer_width && right < buffer_width - x && y < buffer_height && down
            < buffer_height - y;
        if coverage != 0 && on_buffer {
            proof {
                lemma_pixel_index(
                    buffer_width as int,
                    buffer_height as int,
                    x + right,
                    y + down,
                    x + right,
                    y + down,
                );
            }
            assert(0 <= (y + down) * buffer_width + (x + right) < buffer_width * buffer_height);
            assert(0 <= (y + down) * buffer_width) by (nonlinear_arith);
            let index = (y + down) * buffer_width + (x + right);
            buffer[index] = blend_pixel(buffer[index], color, coverage);
        }
        proof {
            assert forall|col: int, row: int|
                0 <= col < buffer_width && 0 <= row < buffer_height implies #[trigger] pixel_at(
                buffer@,
                buffer_width as int,
                col,
                row,
            ) == drawn_so_far(
                pixel_at(old(buffer)@, buffer_width as int, col, row),
                bitmap@,
                i + 1,
                glyph_width as int,
                x as int,
                y as int,
                col,
                row,
                color,
            ) by {
                lemma_glyph_pixel_place(glyph_width as int, x as int, y as int, col, row, i as int);
                if coverage != 0 && on_buffer {
                    lemma_pixel_index(
                        buffer_width as int,
                        buffer_height as int,
                        col,
                        row,
                        x + right,
                        y + down,
                    );
                }
                assert(pixel_at(before, buffer_width as int, col, row) == drawn_so_far(
                    pixel_at(old(buffer)@, buffer_width as int, col, row),
                    bitmap@,
                    i as int,
                    glyph_width as int,
                    x as int,
                    y as int,
                    col,
                    row,
                    color,
                ));
            }
        }
        i += 1;
    }
}

} // verus!
