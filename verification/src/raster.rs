//! The pixel buffer: the parallel fill that renders a view, and the outline
//! drawn over a copy of it while a region is being selected.
//!
//! A buffer is row-major with its origin at the top left: position `i` holds
//! the pixel in column `i mod width` of row `i div width`.

use crate::pixel::PixelRect;
use rayon::iter::{IntoParallelIterator, ParallelIterator};
use vstd::arithmetic::div_mod::{lemma_fundamental_div_mod, lemma_fundamental_div_mod_converse};
use vstd::prelude::*;

verus! {

/// The color of a point that stays bounded for the whole iteration budget.
pub const BLACK: u32 = 0x0000_00FF;

/// The color of a point that escapes before the budget is used up.
pub const WHITE: u32 = 0x00FF_FFFF;

/// The color of the selection outline.
pub const SELECTION: u32 = 0x00FF_0000;

/// Members of the set are black, all other points white.
pub open spec fn spec_color_of(member: bool) -> u32 {
    if member { BLACK } else { WHITE }
}

/// The color of a pixel, given whether its point is classified as a member
/// of the set.
pub fn color_of(member: bool) -> (color: u32)
    ensures
        color == spec_color_of(member),
{
    if member { BLACK } else { WHITE }
}

/// The column of the pixel at a buffer position.
pub open spec fn column_of(index: int, width: int) -> int {
    if width == 0 { 0 } else { index % width }
}

/// The row of the pixel at a buffer position.
pub open spec fn row_of(index: int, width: int) -> int {
    if width == 0 { 0 } else { index / width }
}

/// The buffer position of the pixel in column `x` of row `y`.
pub open spec fn index_of(x: int, y: int, width: int) -> int {
    y * width + x
}

/// `color` is a color that the pixel in column `x` of row `y` may have under
/// the given budget: black with a budget of 0, where every point counts as a
/// member without the classifier being asked; otherwise the color of one of
/// the answers that the classifier may give for the pixel and the budget.
pub open spec fn shaded<F: Fn(usize, usize, usize) -> bool>(
    classify: F,
    x: int,
    y: int,
    budget: usize,
    color: u32,
) -> bool {
    if budget == 0 {
        color == BLACK
    } else {
        exists|member: bool| #[trigger]
            call_ensures(classify, (x as usize, y as usize, budget), member) && color
                == spec_color_of(member)
    }
}

/// `pixels` is a rendering of a `width` by `height` view under the given
/// budget: it has one pixel per position, each colored for its own column
/// and row.
pub open spec fn is_rendering<F: Fn(usize, usize, usize) -> bool>(
    classify: F,
    width: usize,
    height: usize,
    budget: usize,
    pixels: Seq<u32>,
) -> bool {
    &&& pixels.len() == width * height
    &&& forall|i: int|
        0 <= i < pixels.len() ==> shaded(
            classify,
            column_of(i, width as int),
            row_of(i, width as int),
            budget,
            #[trigger] pixels[i],
        )
}

/// Whether the rectangle can be outlined in a row-major buffer of `len`
/// pixels with rows of `width` pixels: its bounds are ordered, its last
/// column lies within a row and its last row lies within the buffer.
pub open spec fn fits(rect: PixelRect, width: usize, len: nat) -> bool {
    &&& rect.well_formed()
    &&& rect.x_max < width
    &&& (rect.y_max + 1) * width <= len
}

/// `after` is `before` with the outline of `rect` drawn over it in the
/// selection color and every other pixel untouched.
pub open spec fn outlined(before: Seq<u32>, width: usize, rect: PixelRect, after: Seq<u32>) -> bool {
    &&& after.len() == before.len()
    &&& forall|i: int|
        0 <= i < before.len() ==> #[trigger] after[i] == if rect.on_outline(
            column_of(i, width as int),
            row_of(i, width as int),
        ) {
            SELECTION
        } else {
            before[i]
        }
}

/// Applies `f` to every index below `count` with rayon's parallel range
/// iterator (`into_par_iter`, `map`, `collect`). The contract claims what
/// rayon's source shows of an indexed parallel iterator collected into a
/// vector, and what its documentation shows by example without stating it:
/// there is one item per index, in the order of the indices, and the item at
/// `i` is a result of `f(i)`.
#[verifier::external_body]
fn par_collect<F: Fn(usize) -> u32 + Sync + Send>(count: usize, f: F) -> (out: Vec<u32>)
    requires
        forall|i: usize| i < count ==> call_requires(f, (i,)),
    ensures
        out@.len() == count,
        forall|i: usize| i < count ==> call_ensures(f, (i,), #[trigger] out@[i as int]),
{
    (0..count).into_par_iter().map(f).collect()
}

/// Fills the buffer with a rendering of a `width` by `height` view under
/// the iteration budget `budget`. Whatever the buffer held, and whatever its
/// length was, it is replaced as a whole. The pixels are computed
/// independently of each other and in parallel. With a budget of 0 every
/// pixel is black; otherwise the classifier is asked once per pixel, with the
/// pixel's column and row and the budget.
pub fn render<F: Fn(usize, usize, usize) -> bool + Sync + Send>(
    buffer: &mut Vec<u32>,
    width: usize,
    height: usize,
    budget: usize,
    classify: F,
)
    requires
        width * height <= usize::MAX,
        forall|x: usize, y: usize|
            x < width && y < height && budget > 0 ==> call_requires(classify, (x, y, budget)),
    ensures
        is_rendering(classify, width, height, budget, final(buffer)@),
{
    let count: usize = width * height;
    let by_ref = &classify;
    let shade = |index: usize| -> (color: u32)
        requires
            index < count,
        ensures
            shaded(
                *by_ref,
                column_of(index as int, width as int),
                row_of(index as int, width as int),
                budget,
                color,
            ),
        {
            if budget == 0 {
                BLACK
            } else {
                let x: usize = index % width;
                let y: usize = index / width;
                assert(y < height) by (nonlinear_arith)
                    requires
                        index < width * height,
                        y == index / width,
                        width > 0,
                ;
                color_of(by_ref(x, y, budget))
            }
        };
    let pixels = par_collect(count, shade);
    proof {
        assert forall|i: int| 0 <= i < pixels@.len() implies shaded(
            classify,
            column_of(i, width as int),
            row_of(i, width as int),
            budget,
            #[trigger] pixels@[i],
        ) by {
            assert(call_ensures(shade, (i as usize,), pixels@[i as usize as int]));
        }
    }
    *buffer = pixels;
}

/// A rendering is determined by the classifier: when the classifier gives
/// one answer per pixel and budget, any two renderings of the same
/// dimensions under the same budget are the same buffer, however the work
/// was divided.
pub proof fn lemma_rendering_unique<F: Fn(usize, usize, usize) -> bool>(
    classify: F,
    width: usize,
    height: usize,
    budget: usize,
    first: Seq<u32>,
    second: Seq<u32>,
)
    requires
        is_rendering(classify, width, height, budget, first),
        is_rendering(classify, width, height, budget, second),
        forall|x: usize, y: usize, a: bool, b: bool|
            call_ensures(classify, (x, y, budget), a) && call_ensures(classify, (x, y, budget), b)
                ==> a == b,
    ensures
        first == second,
{
    assert forall|i: int| 0 <= i < first.len() implies first[i] == second[i] by {
        assert(shaded(
            classify,
            column_of(i, width as int),
            row_of(i, width as int),
            budget,
            first[i],
        ));
        assert(shaded(
            classify,
            column_of(i, width as int),
            row_of(i, width as int),
            budget,
            second[i],
        ));
    }
    assert(first =~= second);
}

/// A rendering holds two colors only: every pixel is black or white.
pub proof fn lemma_rendering_two_colors<F: Fn(usize, usize, usize) -> bool>(
    classify: F,
    width: usize,
    height: usize,
    budget: usize,
    pixels: Seq<u32>,
)
    requires
        is_rendering(classify, width, height, budget, pixels),
    ensures
        forall|i: int| 0 <= i < pixels.len() ==> #[trigger] pixels[i] == BLACK || pixels[i] == WHITE,
{
    assert forall|i: int| 0 <= i < pixels.len() implies #[trigger] pixels[i] == BLACK || pixels[i]
        == WHITE by {
        assert(shaded(
            classify,
            column_of(i, width as int),
            row_of(i, width as int),
            budget,
            pixels[i],
        ));
    }
}

/// With a budget of 0 every point counts as a member: the rendering is
/// black throughout, whatever the classifier and the view.
pub proof fn lemma_zero_budget_is_black<F: Fn(usize, usize, usize) -> bool>(
    classify: F,
    width: usize,
    height: usize,
    pixels: Seq<u32>,
)
    requires
        is_rendering(classify, width, height, 0, pixels),
    ensures
        pixels.len() == width * height,
        forall|i: int| 0 <= i < pixels.len() ==> #[trigger] pixels[i] == BLACK,
{
    assert forall|i: int| 0 <= i < pixels.len() implies #[trigger] pixels[i] == BLACK by {
        assert(shaded(classify, column_of(i, width as int), row_of(i, width as int), 0, pixels[i]));
    }
}

/// Under a budget of at least 1 a pixel has the color of the classifier's
/// answer: where the classifier never gives the opposite of `member` for the
/// pixel, the pixel is black if `member` holds and white if not.
pub proof fn lemma_pixel_follows_classifier<F: Fn(usize, usize, usize) -> bool>(
    classify: F,
    width: usize,
    height: usize,
    budget: usize,
    pixels: Seq<u32>,
    i: int,
    member: bool,
)
    requires
        is_rendering(classify, width, height, budget, pixels),
        0 <= i < pixels.len(),
        budget >= 1,
        !call_ensures(
            classify,
            (column_of(i, width as int) as usize, row_of(i, width as int) as usize, budget),
            !member,
        ),
    ensures
        pixels[i] == spec_color_of(member),
{
    assert(shaded(
        classify,
        column_of(i, width as int),
        row_of(i, width as int),
        budget,
        pixels[i],
    ));
}

/// A buffer position is the row-major position of its own column and row.
pub proof fn lemma_index_roundtrip(index: int, width: int)
    requires
        0 <= index,
        0 < width,
    ensures
        0 <= column_of(index, width) < width,
        0 <= row_of(index, width),
        index == index_of(column_of(index, width), row_of(index, width), width),
{
    lemma_fundamental_div_mod(index, width);
    assert(width * (index / width) == (index / width) * width) by (nonlinear_arith);
    assert(0 <= index / width) by (nonlinear_arith)
        requires
            0 <= index,
            0 < width,
    ;
}

/// The row-major position of a pixel gives back its column and row.
pub proof fn lemma_pixel_roundtrip(x: int, y: int, width: int)
    requires
        0 <= x < width,
    ensures
        column_of(index_of(x, y, width), width) == x,
        row_of(index_of(x, y, width), width) == y,
{
    lemma_fundamental_div_mod_converse(index_of(x, y, width), width, y, x);
}

/// Draws the closed outline of `rect` over the buffer in the selection
/// color: the rows `y_min` and `y_max` from column `x_min` to column `x_max`,
/// then the columns `x_min` and `x_max` from row `y_min` to row `y_max`, the
/// bounds included.
pub fn render_mouse_rect(buffer: &mut Vec<u32>, width: usize, rect: &PixelRect)
    requires
        fits(*rect, width, old(buffer)@.len()),
    ensures
        outlined(old(buffer)@, width, *rect, final(buffer)@),
{
    let ghost before = buffer@;
    let ghost w = width as int;
    let len: usize = buffer.len();
    proof {
        lemma_row_fits(rect.y_min, *rect, width, len);
        lemma_row_fits(rect.y_max, *rect, width, len);
    }
    let top: usize = rect.y_min * width;
    let bottom: usize = rect.y_max * width;
    let mut x: usize = rect.x_min;
    while x <= rect.x_max
        invariant
            fits(*rect, width, before.len()),
            len == before.len(),
            w == width,
            rect.x_min <= x <= rect.x_max + 1,
            top == rect.y_min * width,
            bottom == rect.y_max * width,
            top + width <= len,
            bottom + width <= len,
            buffer@.len() == before.len(),
            forall|i: int|
                0 <= i < before.len() ==> #[trigger] buffer@[i] == if rect.x_min <= column_of(i, w)
                    < x && (row_of(i, w) == rect.y_min || row_of(i, w) == rect.y_max) {
                    SELECTION
                } else {
                    before[i]
                },
        decreases rect.x_max + 1 - x,
    {
        let ghost prev = buffer@;
        proof {
            lemma_pixel_roundtrip(x as int, rect.y_min as int, w);
            lemma_pixel_roundtrip(x as int, rect.y_max as int, w);
        }
        buffer.set(x + top, SELECTION);
        buffer.set(x + bottom, SELECTION);
        proof {
            assert forall|i: int| 0 <= i < before.len() implies #[trigger] buffer@[i]
                == if rect.x_min <= column_of(i, w) < x + 1 && (row_of(i, w) == rect.y_min
                || row_of(i, w) == rect.y_max) {
                SELECTION
            } else {
                before[i]
            } by {
                lemma_index_roundtrip(i, w);
                assert(prev[i] == if rect.x_min <= column_of(i, w) < x && (row_of(i, w)
                    == rect.y_min || row_of(i, w) == rect.y_max) {
                    SELECTION
                } else {
                    before[i]
                });
            }
        }
        x += 1;
    }
    let mut y: usize = rect.y_min;
    while y <= rect.y_max
        invariant
            fits(*rect, width, before.len()),
            len == before.len(),
            w == width,
            rect.y_min <= y <= rect.y_max + 1,
            rect.y_max < len,
            buffer@.len() == before.len(),
            forall|i: int|
                0 <= i < before.len() ==> #[trigger] buffer@[i] == if (rect.x_min <= column_of(i, w)
                    <= rect.x_max && (row_of(i, w) == rect.y_min || row_of(i, w) == rect.y_max))
                    || (rect.y_min <= row_of(i, w) < y && (column_of(i, w) == rect.x_min
                    || column_of(i, w) == rect.x_max)) {
                    SELECTION
                } else {
                    before[i]
                },
        decreases rect.y_max + 1 - y,
    {
        let ghost prev = buffer@;
        proof {
            lemma_row_fits(y, *rect, width, len);
            lemma_pixel_roundtrip(rect.x_min as int, y as int, w);
            lemma_pixel_roundtrip(rect.x_max as int, y as int, w);
        }
        let row: usize = y * width;
        buffer.set(rect.x_min + row, SELECTION);
        buffer.set(rect.x_max + row, SELECTION);
        proof {
            assert forall|i: int| 0 <= i < before.len() implies #[trigger] buffer@[i] == if (
            rect.x_min <= column_of(i, w) <= rect.x_max && (row_of(i, w) == rect.y_min || row_of(
                i,
                w,
            ) == rect.y_max)) || (rect.y_min <= row_of(i, w) < y + 1 && (column_of(i, w)
                == rect.x_min || column_of(i, w) == rect.x_max)) {
                SELECTION
            } else {
                before[i]
            } by {
                lemma_index_roundtrip(i, w);
                assert(prev[i] == if (rect.x_min <= column_of(i, w) <= rect.x_max && (row_of(i, w)
                    == rect.y_min || row_of(i, w) == rect.y_max)) || (rect.y_min <= row_of(i, w)
                    < y && (column_of(i, w) == rect.x_min || column_of(i, w) == rect.x_max)) {
                    SELECTION
                } else {
                    before[i]
                });
            }
        }
        y += 1;
    }
}

/// Tells whether `rect` can be outlined in a buffer of `len` pixels with rows
/// of `width` pixels.
pub fn can_outline(rect: &PixelRect, width: usize, len: usize) -> (ok: bool)
    ensures
        ok == fits(*rect, width, len as nat),
{
    if rect.x_min > rect.x_max || rect.y_min > rect.y_max || rect.x_max >= width {
        return false;
    }
    let rows: usize = len / width;
    proof {
        let l = len as int;
        let w = width as int;
        let q = l / w;
        let r = l % w;
        let y = rect.y_max as int;
        lemma_fundamental_div_mod(l, w);
        assert(y < q <==> (y + 1) * w <= l) by (nonlinear_arith)
            requires
                w > 0,
                l == w * q + r,
                0 <= r < w,
        ;
    }
    rect.y_max < rows
}

/// Outlines `rect` over a working copy of the committed buffer, which is
/// left as it was.
pub fn preview(committed: &Vec<u32>, width: usize, rect: &PixelRect) -> (working: Vec<u32>)
    requires
        fits(*rect, width, committed@.len()),
    ensures
        outlined(committed@, width, *rect, working@),
{
    let mut working = committed.clone();
    assert(working@ =~= committed@);
    render_mouse_rect(&mut working, width, rect);
    working
}

/// Every row of a rectangle that fits lies within the buffer.
proof fn lemma_row_fits(y: usize, rect: PixelRect, width: usize, len: usize)
    requires
        fits(rect, width, len as nat),
        y <= rect.y_max,
    ensures
        y * width + width <= len,
        y < len,
{
    assert(y < (y + 1) * width) by (nonlinear_arith)
        requires
            width >= 1,
            y >= 0,
    ;
    assert((y + 1) * width == y * width + width) by (nonlinear_arith);
    assert(y * width <= rect.y_max * width) by (nonlinear_arith)
        requires
            y <= rect.y_max,
    ;
    assert((rect.y_max + 1) * width == rect.y_max * width + width) by (nonlinear_arith);
}

} // verus!
