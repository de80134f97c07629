//! Rasterising pixels of a drawing surface into column bytes.
//!
//! The surface is as wide as the matrix has columns and as high as it has
//! rows, with the origin at the top left. Pixels outside it are clipped.

use vstd::prelude::*;

use crate::bitmap::{lit, place};
use crate::registers::MAX_COLUMNS;

verus! {

/// A pixel of the drawing surface: the column `x`, the row `y`, and whether
/// it is lit.
#[derive(Clone, Copy, Debug, PartialEq, Eq, Structural)]
pub struct Pixel {
    pub x: i32,
    pub y: i32,
    pub on: bool,
}

/// A column buffer with no pixel lit.
pub open spec fn blank() -> Seq<u8> {
    Seq::new(MAX_COLUMNS as nat, |i: int| 0u8)
}

/// Whether a pixel is lit and lies on a surface of the given size.
pub open spec fn visible(pixel: Pixel, columns: u8, rows: u8) -> bool {
    pixel.on && 0 <= pixel.x < columns && 0 <= pixel.y < rows
}

/// The buffer with one more pixel drawn: a visible pixel sets the bit of its
/// row in the byte of its column, any other changes nothing.
pub open spec fn plotted(buffer: Seq<u8>, pixel: Pixel, columns: u8, rows: u8) -> Seq<u8> {
    if visible(pixel, columns, rows) {
        buffer.update(pixel.x as int, buffer[pixel.x as int] | place(pixel.y as u8))
    } else {
        buffer
    }
}

/// The buffer with all the pixels drawn, one after the other, on a blank one.
pub open spec fn rasterized(pixels: Seq<Pixel>, columns: u8, rows: u8) -> Seq<u8>
    decreases pixels.len(),
{
    if pixels.len() == 0 {
        blank()
    } else {
        plotted(rasterized(pixels.drop_last(), columns, rows), pixels.last(), columns, rows)
    }
}

/// A rasterised buffer has a byte for each of the eleven columns.
pub proof fn lemma_rasterized_len(pixels: Seq<Pixel>, columns: u8, rows: u8)
    requires
        columns <= MAX_COLUMNS,
    ensures
        rasterized(pixels, columns, rows).len() == MAX_COLUMNS,
    decreases pixels.len(),
{
    if pixels.len() > 0 {
        lemma_rasterized_len(pixels.drop_last(), columns, rows);
    }
}

/// Whether pixel `i` is visible and lies on the given column and row.
pub open spec fn hits(
    pixels: Seq<Pixel>,
    i: int,
    columns: u8,
    rows: u8,
    column_idx: int,
    row_idx: u8,
) -> bool {
    0 <= i < pixels.len() && visible(pixels[i], columns, rows) && pixels[i].x == column_idx
        && pixels[i].y == row_idx
}

/// A dot of the matrix is lit in the rasterised buffer exactly if one of the
/// pixels is visible and lies on it.
pub proof fn lemma_rasterized_lit(
    pixels: Seq<Pixel>,
    columns: u8,
    rows: u8,
    column_idx: int,
    row_idx: u8,
)
    requires
        columns <= MAX_COLUMNS,
        rows <= 8,
        0 <= column_idx < MAX_COLUMNS,
        row_idx < 8,
    ensures
        lit(rasterized(pixels, columns, rows)[column_idx], row_idx) <==> exists|i: int|
            hits(pixels, i, columns, rows, column_idx, row_idx),
    decreases pixels.len(),
{
    if pixels.len() == 0 {
        assert(0u8 & (0x80u8 >> row_idx) == 0) by (bit_vector);
    } else {
        let rest = pixels.drop_last();
        let last = pixels.last();
        let before = rasterized(rest, columns, rows);
        lemma_rasterized_len(rest, columns, rows);
        lemma_rasterized_lit(rest, columns, rows, column_idx, row_idx);
        let old_byte = before[column_idx];
        let new_byte = rasterized(pixels, columns, rows)[column_idx];
        if visible(last, columns, rows) && last.x == column_idx {
            let y: u8 = last.y as u8;
            assert(y < 8 && row_idx < 8 ==> (((old_byte | (0x80u8 >> y)) & (0x80u8 >> row_idx) != 0)
                <==> (old_byte & (0x80u8 >> row_idx) != 0 || y == row_idx))) by (bit_vector);
        } else {
            assert(new_byte == old_byte);
        }
        let last_hits = visible(last, columns, rows) && last.x == column_idx && last.y == row_idx;
        assert(lit(new_byte, row_idx) <==> (lit(old_byte, row_idx) || last_hits));
        if lit(old_byte, row_idx) {
            let i = choose|i: int| hits(rest, i, columns, rows, column_idx, row_idx);
            assert(pixels[i] == rest[i]);
            assert(hits(pixels, i, columns, rows, column_idx, row_idx));
        }
        if last_hits {
            assert(hits(pixels, pixels.len() - 1, columns, rows, column_idx, row_idx));
        }
        if exists|i: int| hits(pixels, i, columns, rows, column_idx, row_idx) {
            let i = choose|i: int| hits(pixels, i, columns, rows, column_idx, row_idx);
            if i < pixels.len() - 1 {
                assert(rest[i] == pixels[i]);
                assert(hits(rest, i, columns, rows, column_idx, row_idx));
            }
        }
    }
}

/// Draws one pixel into the buffer; a pixel that is dark or off the surface
/// changes nothing.
pub fn plot(buffer: &mut [u8; 11], pixel: Pixel, columns: u8, rows: u8)
    requires
        columns <= MAX_COLUMNS,
        rows <= 8,
    ensures
        final(buffer)@ == plotted(old(buffer)@, pixel, columns, rows),
{
    if pixel.on {
        let (x, y) = (pixel.x, pixel.y);
        if (x >= 0 && x < columns as i32) && (y >= 0 && y < rows as i32) {
            let column_idx: usize = x as usize;
            let shift: u8 = y as u8;
            buffer[column_idx] = buffer[column_idx] | (0b1000_0000u8 >> shift);
            assert(buffer@ =~= plotted(old(buffer)@, pixel, columns, rows));
        }
    }
}

/// Draws the pixels, in order, on a blank buffer.
pub fn rasterize(pixels: &[Pixel], columns: u8, rows: u8) -> (buffer: [u8; 11])
    requires
        columns <= MAX_COLUMNS,
        rows <= 8,
    ensures
        buffer@ == rasterized(pixels@, columns, rows),
{
    let mut buffer: [u8; 11] = [0;11];
    assert(buffer@ =~= blank());
    let mut i: usize = 0;
    while i < pixels.len()
        invariant
            i <= pixels@.len(),
            columns <= MAX_COLUMNS,
            rows <= 8,
            buffer@ == rasterized(pixels@.take(i as int), columns, rows),
        decreases pixels@.len() - i,
    {
        assert(pixels@.take(i + 1).drop_last() =~= pixels@.take(i as int));
        plot(&mut buffer, pixels[i], columns, rows);
        i = i + 1;
    }
    assert(pixels@.take(i as int) =~= pixels@);
    buffer
}

} // verus!
