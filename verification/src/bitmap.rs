//! Turning a bitmap of eight row bytes into the eight column bytes that the
//! chip takes.
//!
//! In a row byte the leftmost pixel is bit 7. In a column byte the topmost
//! row is bit 7 likewise. So the pixel of row `r` and column `c` moves from bit
//! `7 - c` of row byte `r` to bit `7 - r` of column byte `c`.

use vstd::prelude::*;

verus! {

/// The byte with only the bit of place `index` set, place 0 being bit 7.
pub open spec fn place(index: u8) -> u8 {
    0x80u8 >> index
}

/// Whether the byte has the bit of place `index` set.
pub open spec fn lit(byte: u8, index: u8) -> bool {
    byte & place(index) != 0
}

/// What the pixel of one row adds to a column byte: the row's bit if the
/// pixel is lit, else nothing.
pub open spec fn dot(row: u8, column_idx: u8, row_idx: u8) -> u8 {
    if lit(row, column_idx) {
        place(row_idx)
    } else {
        0u8
    }
}

/// The column byte made of the first `rows` rows of the picture.
pub open spec fn column_of_rows(picture: Seq<u8>, column_idx: u8, rows: int) -> u8
    decreases rows,
{
    if rows <= 0 {
        0u8
    } else {
        column_of_rows(picture, column_idx, rows - 1) | dot(
            picture[rows - 1],
            column_idx,
            (rows - 1) as u8,
        )
    }
}

/// The column byte for one column of an 8 by 8 picture given by rows.
pub open spec fn transposed_column(picture: Seq<u8>, column_idx: u8) -> u8 {
    column_of_rows(picture, column_idx, 8)
}

/// The eight column bytes of an 8 by 8 picture given by rows.
pub open spec fn transposed(picture: Seq<u8>) -> Seq<u8> {
    Seq::new(8, |c: int| transposed_column(picture, c as u8))
}

/// Row `r` is lit in the column byte made of the first `rows` rows exactly
/// if it is one of them and its pixel is lit in the picture.
pub proof fn lemma_column_of_rows_lit(picture: Seq<u8>, column_idx: u8, rows: int, row_idx: u8)
    requires
        picture.len() == 8,
        column_idx < 8,
        row_idx < 8,
        0 <= rows <= 8,
    ensures
        lit(column_of_rows(picture, column_idx, rows), row_idx) <==> row_idx < rows && lit(
            picture[row_idx as int],
            column_idx,
        ),
    decreases rows,
{
    if rows > 0 {
        lemma_column_of_rows_lit(picture, column_idx, rows - 1, row_idx);
        let before = column_of_rows(picture, column_idx, rows - 1);
        let last: u8 = (rows - 1) as u8;
        let added = dot(picture[rows - 1], column_idx, last);
        let mask = place(row_idx);
        assert(((before | added) & mask != 0) <==> (before & mask != 0 || added & mask != 0))
            by (bit_vector);
        assert(last < 8 && row_idx < 8 ==> (((0x80u8 >> last) & (0x80u8 >> row_idx) != 0) <==> last
            == row_idx)) by (bit_vector);
        assert(0u8 & mask == 0) by (bit_vector);
    } else {
        assert(0u8 & place(row_idx) == 0) by (bit_vector);
    }
}

/// Transposition moves every pixel across the diagonal: row `r` is lit in
/// column byte `c` exactly if column `c` is lit in row byte `r`.
pub proof fn lemma_transposed_pixel(picture: Seq<u8>, column_idx: u8, row_idx: u8)
    requires
        picture.len() == 8,
        column_idx < 8,
        row_idx < 8,
    ensures
        lit(transposed(picture)[column_idx as int], row_idx) <==> lit(
            picture[row_idx as int],
            column_idx,
        ),
{
    lemma_column_of_rows_lit(picture, column_idx, 8, row_idx);
}

/// Transposing twice gives the picture back.
pub proof fn lemma_transposed_twice(picture: Seq<u8>)
    requires
        picture.len() == 8,
    ensures
        transposed(transposed(picture)) == picture,
{
    let once = transposed(picture);
    let twice = transposed(once);
    assert forall|i: int| 0 <= i < 8 implies twice[i] == picture[i] by {
        let a = twice[i];
        let b = picture[i];
        assert forall|k: u8| k < 8 implies (lit(a, k) <==> lit(b, k)) by {
            lemma_transposed_pixel(once, i as u8, k);
            lemma_transposed_pixel(picture, k, i as u8);
        }
        assert(lit(a, 0) <==> lit(b, 0));
        assert(lit(a, 1) <==> lit(b, 1));
        assert(lit(a, 2) <==> lit(b, 2));
        assert(lit(a, 3) <==> lit(b, 3));
        assert(lit(a, 4) <==> lit(b, 4));
        assert(lit(a, 5) <==> lit(b, 5));
        assert(lit(a, 6) <==> lit(b, 6));
        assert(lit(a, 7) <==> lit(b, 7));
        assert((((a & (0x80u8 >> 0u8) != 0) <==> (b & (0x80u8 >> 0u8) != 0)) && ((a & (0x80u8
            >> 1u8) != 0) <==> (b & (0x80u8 >> 1u8) != 0)) && ((a & (0x80u8 >> 2u8) != 0) <==> (b
            & (0x80u8 >> 2u8) != 0)) && ((a & (0x80u8 >> 3u8) != 0) <==> (b & (0x80u8 >> 3u8)
            != 0)) && ((a & (0x80u8 >> 4u8) != 0) <==> (b & (0x80u8 >> 4u8) != 0)) && ((a & (0x80u8
            >> 5u8) != 0) <==> (b & (0x80u8 >> 5u8) != 0)) && ((a & (0x80u8 >> 6u8) != 0) <==> (b
            & (0x80u8 >> 6u8) != 0)) && ((a & (0x80u8 >> 7u8) != 0) <==> (b & (0x80u8 >> 7u8)
            != 0))) ==> a == b) by (bit_vector);
    }
    assert(twice =~= picture);
}

/// The column byte for one column of an 8 by 8 picture given by rows.
pub fn transpose_column(picture: &[u8; 8], column_idx: u8) -> (column: u8)
    requires
        column_idx < 8,
    ensures
        column == transposed_column(picture@, column_idx),
{
    let column_mask: u8 = 0b1000_0000u8 >> column_idx;
    let mut column: u8 = 0;
    let mut row_idx: u8 = 0;
    while row_idx < 8
        invariant
            row_idx <= 8,
            column_idx < 8,
            column_mask == place(column_idx),
            column == column_of_rows(picture@, column_idx, row_idx as int),
        decreases 8 - row_idx,
    {
        let row: u8 = picture[row_idx as usize];
        let pixel: u8 = row & column_mask;
        let pixel_in_column: u8 = if column_idx < row_idx {
            let shift: u8 = row_idx - column_idx;
            assert(column_idx < row_idx && row_idx < 8 ==> (row & (0x80u8 >> column_idx)) >> (
            (row_idx - column_idx) as u8) == (if row & (0x80u8 >> column_idx) != 0 {
                0x80u8 >> row_idx
            } else {
                0u8
            })) by (bit_vector);
            pixel >> shift
        } else {
            let shift: u8 = column_idx - row_idx;
            assert(row_idx <= column_idx && column_idx < 8 ==> (row & (0x80u8 >> column_idx)) << (
            (column_idx - row_idx) as u8) == (if row & (0x80u8 >> column_idx) != 0 {
                0x80u8 >> row_idx
            } else {
                0u8
            })) by (bit_vector);
            pixel << shift
        };
        assert(pixel_in_column == dot(row, column_idx, row_idx));
        column = column | pixel_in_column;
        row_idx = row_idx + 1;
    }
    column
}

} // verus!
