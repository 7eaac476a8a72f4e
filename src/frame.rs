use vstd::prelude::*;
use vstd::arithmetic::div_mod::{lemma_fundamental_div_mod, lemma_mod_pos_bound};
use crate::colour::Colour;

verus! {

/// `pixels` is a full row-major image of `width` by `height` pixels, the
/// pixel of column `x` and row `y` at index `y * width + x`, each one a
/// colour that `shade` gives for its column and row.
pub open spec fn is_frame<S: Fn(usize, usize) -> Colour>(
    width: usize,
    height: usize,
    shade: S,
    pixels: Seq<Colour>,
) -> bool {
    &&& pixels.len() == width * height
    &&& forall|x: usize, y: usize|
        x < width && y < height ==> #[trigger] shade.ensures((x, y), pixels[y * width + x])
}

/// Computes one frame: calls `shade` once for every pixel, row by row from
/// the top, and stores the colours in a row-major buffer.
pub fn render<S: Fn(usize, usize) -> Colour>(width: usize, height: usize, shade: S) -> (pixels:
    Vec<Colour>)
    requires
        width * height <= usize::MAX,
        forall|x: usize, y: usize| shade.requires((x, y)),
    ensures
        is_frame(width, height, shade, pixels@),
{
    let mut pixels: Vec<Colour> = Vec::new();
    let mut y: usize = 0;
    while y < height
        invariant
            y <= height,
            width * height <= usize::MAX,
            forall|x: usize, y: usize| shade.requires((x, y)),
            pixels@.len() == y * width,
            forall|i: usize, j: usize|
                i < width && j < y ==> #[trigger] shade.ensures((i, j), pixels@[j * width + i]),
        decreases height - y,
    {
        let mut x: usize = 0;
        assert((y + 1) * width <= height * width) by (nonlinear_arith)
            requires
                y < height,
        ;
        while x < width
            invariant
                x <= width,
                y < height,
                (y + 1) * width <= usize::MAX,
                forall|x: usize, y: usize| shade.requires((x, y)),
                pixels@.len() == y * width + x,
                forall|i: usize, j: usize|
                    i < width && j < y ==> #[trigger] shade.ensures((i, j), pixels@[j * width + i]),
                forall|i: usize| i < x ==> #[trigger] shade.ensures((i, y), pixels@[y * width + i]),
            decreases width - x,
        {
            assert(y * width + x < (y + 1) * width) by (nonlinear_arith)
                requires
                    x < width,
            ;
            let c = shade(x, y);
            pixels.push(c);
            assert forall|i: usize, j: usize| i < width && j < y implies #[trigger] shade.ensures(
                (i, j),
                pixels@[j * width + i],
            ) by {
                index_in_rows(i as int, j as int, width as int, y as int);
            }
            x = x + 1;
        }
        assert forall|i: usize, j: usize| i < width && j < y + 1 implies #[trigger] shade.ensures(
            (i, j),
            pixels@[j * width + i],
        ) by {
            if j < y {
            } else {
                assert(j == y);
            }
        }
        y = y + 1;
        assert(pixels@.len() == y * width) by (nonlinear_arith)
            requires
                pixels@.len() == (y - 1) * width + width,
        ;
    }
    assert(pixels@.len() == width * height) by (nonlinear_arith)
        requires
            pixels@.len() == y * width,
            y == height,
    ;
    pixels
}

proof fn index_in_rows(i: int, j: int, width: int, rows: int)
    requires
        0 <= i < width,
        0 <= j < rows,
    ensures
        0 <= j * width + i < rows * width,
{
    assert(0 <= j * width + i < rows * width) by (nonlinear_arith)
        requires
            0 <= i < width,
            0 <= j < rows,
    ;
}

/// Rendering is deterministic: where `shade` gives one colour for each pixel,
/// two frames of the same size computed with it are the same buffer.
pub proof fn frames_agree<S: Fn(usize, usize) -> Colour>(
    width: usize,
    height: usize,
    shade: S,
    a: Seq<Colour>,
    b: Seq<Colour>,
)
    requires
        forall|x: usize, y: usize, c: Colour, d: Colour|
            shade.ensures((x, y), c) && shade.ensures((x, y), d) ==> c == d,
        is_frame(width, height, shade, a),
        is_frame(width, height, shade, b),
    ensures
        a == b,
{
    assert forall|k: int| 0 <= k < a.len() implies a[k] == b[k] by {
        let x = k % (width as int);
        let y = k / (width as int);
        assert(width > 0) by (nonlinear_arith)
            requires
                0 <= k < width * height,
        ;
        lemma_mod_pos_bound(k, width as int);
        lemma_fundamental_div_mod(k, width as int);
        assert(k == y * width + x) by (nonlinear_arith)
            requires
                k == width * y + x,
        ;
        assert(0 <= y < height) by (nonlinear_arith)
            requires
                k == y * width + x,
                0 <= x < width,
                0 <= k < width * height,
        ;
        assert(shade.ensures((x as usize, y as usize), a[(y as usize) * width + (x as usize)]));
        assert(shade.ensures((x as usize, y as usize), b[(y as usize) * width + (x as usize)]));
    }
    assert(a =~= b);
}

} // verus!
