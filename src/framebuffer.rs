//! The finished image as a row-major RGB8 byte buffer, top row first,
//! three bytes per pixel.

use vstd::prelude::*;

verus! {

/// One quantised pixel: red, green and blue channels of eight bits each.
pub type Rgb8 = (u8, u8, u8);

/// Channel `c` of a pixel: 0 is red, 1 is green, 2 is blue.
pub open spec fn channel(p: Rgb8, c: int) -> u8 {
    if c == 0 {
        p.0
    } else if c == 1 {
        p.1
    } else {
        p.2
    }
}

/// The bytes of one row of pixels: each pixel's red, green and blue in turn.
pub open spec fn row_bytes(row: Seq<Rgb8>) -> Seq<u8> {
    Seq::new(3 * row.len(), |i: int| channel(row[i / 3], i % 3))
}

/// The bytes of a whole image: its rows, top first, laid end to end.
pub open spec fn image_bytes(rows: Seq<Vec<Rgb8>>) -> Seq<u8> {
    rows.map_values(|row: Vec<Rgb8>| row_bytes(row@)).flatten()
}

/// Whether every row holds exactly `width` pixels.
pub open spec fn uniform_width(rows: Seq<Vec<Rgb8>>, width: int) -> bool {
    forall|y: int| 0 <= y < rows.len() ==> #[trigger] rows[y]@.len() == width
}

/// Adding a row at the bottom appends its bytes to the image's bytes.
proof fn lemma_image_bytes_push(rows: Seq<Vec<Rgb8>>, row: Vec<Rgb8>)
    ensures
        image_bytes(rows.push(row)) == image_bytes(rows) + row_bytes(row@),
{
    let f = |r: Vec<Rgb8>| row_bytes(r@);
    assert(rows.push(row).map_values(f) =~= rows.map_values(f).push(row_bytes(row@)));
    rows.map_values(f).lemma_flatten_push(row_bytes(row@));
}

/// An image of rows that are all `width` pixels wide takes three bytes per
/// pixel.
pub proof fn lemma_image_len(rows: Seq<Vec<Rgb8>>, width: nat)
    requires
        uniform_width(rows, width as int),
    ensures
        image_bytes(rows).len() == rows.len() * width * 3,
    decreases rows.len(),
{
    if rows.len() == 0 {
        assert(rows.map_values(|r: Vec<Rgb8>| row_bytes(r@)) =~= Seq::<Seq<u8>>::empty());
    } else {
        let init = rows.drop_last();
        assert(rows =~= init.push(rows.last()));
        assert(rows.last()@.len() == width);
        lemma_image_len(init, width);
        lemma_image_bytes_push(init, rows.last());
        assert(init.len() * width * 3 + 3 * width == rows.len() * width * 3) by (nonlinear_arith)
            requires
                init.len() + 1 == rows.len(),
        ;
    }
}

/// Row-major addressing: in an image whose rows are all `width` pixels wide,
/// channel `c` of the pixel in column `x` of row `y` (counted from the top)
/// is the byte at `(y * width + x) * 3 + c`.
pub proof fn lemma_pixel_address(rows: Seq<Vec<Rgb8>>, width: nat, x: int, y: int, c: int)
    requires
        uniform_width(rows, width as int),
        0 <= y < rows.len(),
        0 <= x < width,
        0 <= c < 3,
    ensures
        0 <= (y * width + x) * 3 + c < image_bytes(rows).len(),
        image_bytes(rows)[(y * width + x) * 3 + c] == channel(rows[y]@[x], c),
    decreases rows.len(),
{
    let init = rows.drop_last();
    let last = rows.last();
    assert(rows =~= init.push(last));
    assert(last@.len() == width);
    lemma_image_bytes_push(init, last);
    lemma_image_len(init, width);
    lemma_image_len(rows, width);
    let i = (y * width + x) * 3 + c;
    assert(0 <= i < rows.len() * width * 3) by (nonlinear_arith)
        requires
            0 <= y < rows.len(),
            0 <= x < width,
            0 <= c < 3,
            i == (y * width + x) * 3 + c,
    ;
    if y < init.len() {
        assert(i < init.len() * width * 3) by (nonlinear_arith)
            requires
                0 <= y < init.len(),
                0 <= x < width,
                0 <= c < 3,
                i == (y * width + x) * 3 + c,
        ;
        lemma_pixel_address(init, width, x, y, c);
    } else {
        assert(i - init.len() * width * 3 == 3 * x + c) by (nonlinear_arith)
            requires
                y == init.len(),
                i == (y * width + x) * 3 + c,
        ;
        assert(row_bytes(last@)[3 * x + c] == channel(last@[x], c));
    }
}

/// Lays out rows of quantised pixels (top row first) as the byte buffer that
/// an image sink consumes.
pub fn pack_rows(rows: &Vec<Vec<Rgb8>>) -> (bytes: Vec<u8>)
    ensures
        bytes@ == image_bytes(rows@),
{
    let mut bytes: Vec<u8> = Vec::new();
    let mut y: usize = 0;
    while y < rows.len()
        invariant
            y <= rows.len(),
            bytes@ == image_bytes(rows@.subrange(0, y as int)),
        decreases rows.len() - y,
    {
        let row = &rows[y];
        let ghost start = bytes@;
        let mut x: usize = 0;
        while x < row.len()
            invariant
                x <= row.len(),
                bytes@ == start + row_bytes(row@.subrange(0, x as int)),
            decreases row.len() - x,
        {
            let p = row[x];
            bytes.push(p.0);
            bytes.push(p.1);
            bytes.push(p.2);
            proof {
                assert(row_bytes(row@.subrange(0, x + 1)) =~= row_bytes(row@.subrange(0, x as int))
                    + seq![p.0, p.1, p.2]);
            }
            x = x + 1;
        }
        proof {
            assert(row@.subrange(0, x as int) =~= row@);
            assert(rows@.subrange(0, y + 1) =~= rows@.subrange(0, y as int).push(rows@[y as int]));
            lemma_image_bytes_push(rows@.subrange(0, y as int), rows@[y as int]);
        }
        y = y + 1;
    }
    proof {
        assert(rows@.subrange(0, y as int) =~= rows@);
    }
    bytes
}

} // verus!
