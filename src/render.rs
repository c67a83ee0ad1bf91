//! Filling a frame with pixels under the three scheduling strategies, and
//! encoding it. The color of a pixel comes from a caller-supplied function
//! of its column and row; the strategies differ only in how that function's
//! calls are ordered and spread over threads, never in where a result lands.

use crate::options::{ImageOptions, ParallelOptions, RenderOptions};
use crate::ppm::{pixel_lines, ppm_file, push_header, push_pixel, push_pixels, Rgb};
use rayon::iter::{IntoParallelIterator, ParallelIterator};
use vstd::arithmetic::div_mod::lemma_fundamental_div_mod_converse;
use vstd::prelude::*;

verus! {

/// Column of the pixel at row-major index `k`.
pub open spec fn column(k: int, width: u32) -> u32 {
    (k % (width as int)) as u32
}

/// Row of the pixel at row-major index `k`.
pub open spec fn row(k: int, width: u32) -> u32 {
    (k / (width as int)) as u32
}

/// `pixel` may be asked for every pixel of a `width` by `height` grid.
pub open spec fn can_compute<P: Fn(u32, u32) -> Rgb>(pixel: P, width: u32, height: u32) -> bool {
    forall|i: u32, j: u32| i < width && j < height ==> #[trigger] pixel.requires((i, j))
}

/// Each entry of `px` is a color that `pixel` may return for the column and
/// row of its row-major index.
pub open spec fn computed_by<P: Fn(u32, u32) -> Rgb>(pixel: P, width: u32, px: Seq<Rgb>) -> bool {
    forall|k: int|
        0 <= k < px.len() ==> pixel.ensures((column(k, width), row(k, width)), #[trigger] px[k])
}

/// `px` is a full `width` by `height` frame, in row-major order, of colors
/// returned by `pixel`.
pub open spec fn renders<P: Fn(u32, u32) -> Rgb>(
    pixel: P,
    width: u32,
    height: u32,
    px: Seq<Rgb>,
) -> bool {
    &&& px.len() == width as int * height as int
    &&& computed_by(pixel, width, px)
}

/// `body` is the pixel section of a PPM file of some frame that `pixel` renders.
pub open spec fn encodes_frame<P: Fn(u32, u32) -> Rgb>(
    pixel: P,
    width: u32,
    height: u32,
    body: Seq<u8>,
) -> bool {
    exists|px: Seq<Rgb>| renders(pixel, width, height, px) && body == pixel_lines(px)
}

/// `file` is a whole PPM file of some frame that `pixel` renders.
pub open spec fn encodes_image<P: Fn(u32, u32) -> Rgb>(
    pixel: P,
    width: u32,
    height: u32,
    file: Seq<u8>,
) -> bool {
    exists|px: Seq<Rgb>|
        renders(pixel, width, height, px) && file == ppm_file(width as nat, height as nat, px)
}

/// `pixel` gives at most one color for each column and row.
pub open spec fn deterministic<P: Fn(u32, u32) -> Rgb>(pixel: P) -> bool {
    forall|i: u32, j: u32, c1: Rgb, c2: Rgb|
        #![trigger pixel.ensures((i, j), c1), pixel.ensures((i, j), c2)]
        pixel.ensures((i, j), c1) && pixel.ensures((i, j), c2) ==> c1 == c2
}

proof fn lemma_coordinates(width: u32, i: u32, j: u32)
    requires
        i < width,
    ensures
        column(j as int * width as int + i as int, width) == i,
        row(j as int * width as int + i as int, width) == j,
{
    lemma_fundamental_div_mod_converse(
        j as int * width as int + i as int,
        width as int,
        j as int,
        i as int,
    );
}

proof fn lemma_pixel_lines_append(a: Seq<Rgb>, b: Seq<Rgb>)
    ensures
        pixel_lines(a + b) == pixel_lines(a) + pixel_lines(b),
    decreases b.len(),
{
    if b.len() == 0 {
        assert(a + b =~= a);
        assert(pixel_lines(b) =~= Seq::<u8>::empty());
        assert(pixel_lines(a) + pixel_lines(b) =~= pixel_lines(a));
    } else {
        lemma_pixel_lines_append(a, b.drop_last());
        assert((a + b).drop_last() =~= a + b.drop_last());
        assert((a + b).last() == b.last());
        assert(pixel_lines(a + b) =~= pixel_lines(a) + pixel_lines(b));
    }
}

/// Relies on rayon's `IntoParallelIterator::into_par_iter` for `Range<u32>`
/// (an indexed parallel iterator), `ParallelIterator::map` and `collect`
/// into a `Vec`: `f` is called once on each index of `0..n`, and the
/// collected results keep index order.
#[verifier::external_body]
fn par_map_range<T: Send, F: Fn(u32) -> T + Sync + Send>(n: u32, f: F) -> (r: Vec<T>)
    requires
        forall|i: u32| i < n ==> #[trigger] f.requires((i,)),
    ensures
        r@.len() == n,
        forall|k: int| 0 <= k < n ==> f.ensures((k as u32,), #[trigger] r@[k]),
{
    (0..n).into_par_iter().map(f).collect()
}

/// Pixel section of the frame, computing and encoding one pixel at a time
/// in row-major order on the calling thread.
pub fn render_series<P: Fn(u32, u32) -> Rgb + Sync>(
    pixel: &P,
    width: u32,
    height: u32,
) -> (r: Vec<u8>)
    requires
        can_compute(*pixel, width, height),
    ensures
        encodes_frame(*pixel, width, height, r@),
{
    let mut out: Vec<u8> = Vec::new();
    let ghost mut px: Seq<Rgb> = Seq::empty();
    let mut j: u32 = 0;
    while j < height
        invariant
            j <= height,
            can_compute(*pixel, width, height),
            px.len() == j as int * width as int,
            computed_by(*pixel, width, px),
            out@ == pixel_lines(px),
        decreases height - j,
    {
        let mut i: u32 = 0;
        while i < width
            invariant
                j < height,
                i <= width,
                can_compute(*pixel, width, height),
                px.len() == j as int * width as int + i as int,
                computed_by(*pixel, width, px),
                out@ == pixel_lines(px),
            decreases width - i,
        {
            let c = pixel(i, j);
            push_pixel(&mut out, c);
            proof {
                lemma_coordinates(width, i, j);
                let before = px;
                px = px.push(c);
                assert(px.drop_last() =~= before);
                assert(computed_by(*pixel, width, px)) by {
                    assert forall|k: int| 0 <= k < px.len() implies (*pixel).ensures(
                        (column(k, width), row(k, width)),
                        #[trigger] px[k],
                    ) by {
                        if k < before.len() {
                            assert(px[k] == before[k]);
                        }
                    }
                }
            }
            i = i + 1;
        }
        proof {
            assert(px.len() == (j + 1) as int * width as int) by (nonlinear_arith)
                requires
                    px.len() == j as int * width as int + width as int,
            ;
        }
        j = j + 1;
    }
    proof {
        assert(px.len() == width as int * height as int) by (nonlinear_arith)
            requires
                px.len() == height as int * width as int,
        ;
        assert(renders(*pixel, width, height, px));
    }
    out
}

/// Pixel section of the frame, computing each row's pixels in parallel and
/// encoding that row before the next one is started.
pub fn render_by_rows<P: Fn(u32, u32) -> Rgb + Sync>(
    pixel: &P,
    width: u32,
    height: u32,
) -> (r: Vec<u8>)
    requires
        can_compute(*pixel, width, height),
    ensures
        encodes_frame(*pixel, width, height, r@),
{
    let mut out: Vec<u8> = Vec::new();
    let ghost mut px: Seq<Rgb> = Seq::empty();
    let mut j: u32 = 0;
    while j < height
        invariant
            j <= height,
            can_compute(*pixel, width, height),
            px.len() == j as int * width as int,
            computed_by(*pixel, width, px),
            out@ == pixel_lines(px),
        decreases height - j,
    {
        let at_column = move |i: u32| -> (c: Rgb)
            requires
                i < width,
            ensures
                pixel.ensures((i, j), c),
            { pixel(i, j) };
        let row_px = par_map_range(width, at_column);
        push_pixels(&mut out, &row_px);
        proof {
            let before = px;
            px = px + row_px@;
            lemma_pixel_lines_append(before, row_px@);
            assert(computed_by(*pixel, width, px)) by {
                assert forall|k: int| 0 <= k < px.len() implies (*pixel).ensures(
                    (column(k, width), row(k, width)),
                    #[trigger] px[k],
                ) by {
                    if k < before.len() {
                        assert(px[k] == before[k]);
                    } else {
                        let i = k - before.len();
                        assert(px[k] == row_px@[i]);
                        lemma_coordinates(width, i as u32, j);
                    }
                }
            }
            assert(px.len() == (j + 1) as int * width as int) by (nonlinear_arith)
                requires
                    px.len() == j as int * width as int + width as int,
            ;
        }
        j = j + 1;
    }
    proof {
        assert(px.len() == width as int * height as int) by (nonlinear_arith)
            requires
                px.len() == height as int * width as int,
        ;
        assert(renders(*pixel, width, height, px));
    }
    out
}

/// Pixel section of the frame, computing every pixel of the grid in
/// parallel into a buffer, then encoding the buffer in order.
pub fn render_all_at_once<P: Fn(u32, u32) -> Rgb + Sync>(
    pixel: &P,
    width: u32,
    height: u32,
) -> (r: Vec<u8>)
    requires
        can_compute(*pixel, width, height),
        width as int * height as int <= u32::MAX,
    ensures
        encodes_frame(*pixel, width, height, r@),
{
    let n: u32 = width * height;
    let at_index = move |k: u32| -> (c: Rgb)
        requires
            k < n,
        ensures
            pixel.ensures((k % width, k / width), c),
        {
            proof {
                assert(k / width < height) by (nonlinear_arith)
                    requires
                        k < n,
                        n == width as int * height as int,
                ;
            }
            pixel(k % width, k / width)
        };
    let px = par_map_range(n, at_index);
    let mut out: Vec<u8> = Vec::new();
    push_pixels(&mut out, &px);
    assert(renders(*pixel, width, height, px@));
    out
}

/// The whole PPM file of the image: header, then the pixel section computed
/// under the strategy that `options` selects.
pub fn render<P: Fn(u32, u32) -> Rgb + Sync>(
    image: &ImageOptions,
    options: &RenderOptions,
    pixel: &P,
) -> (r: Vec<u8>)
    requires
        can_compute(*pixel, image.spec_width(), image.spec_height()),
        options.spec_parallel() == ParallelOptions::AllAtOnce ==> image.spec_width() as int
            * image.spec_height() as int <= u32::MAX,
    ensures
        encodes_image(*pixel, image.spec_width(), image.spec_height(), r@),
{
    let width = image.width();
    let height = image.height();
    let mut out: Vec<u8> = Vec::new();
    push_header(&mut out, width, height);
    let mut body = match options.parallel_options() {
        ParallelOptions::AllAtOnce => render_all_at_once(pixel, width, height),
        ParallelOptions::ByRows => render_by_rows(pixel, width, height),
        ParallelOptions::Series => render_series(pixel, width, height),
    };
    let ghost frame = body@;
    out.append(&mut body);
    proof {
        let px = choose|px: Seq<Rgb>| renders(*pixel, width, height, px) && frame == pixel_lines(px);
        assert(out@ =~= ppm_file(width as nat, height as nat, px));
    }
    out
}

proof fn lemma_frame_unique<P: Fn(u32, u32) -> Rgb>(
    pixel: P,
    width: u32,
    height: u32,
    a: Seq<Rgb>,
    b: Seq<Rgb>,
)
    requires
        deterministic(pixel),
        renders(pixel, width, height, a),
        renders(pixel, width, height, b),
    ensures
        a == b,
{
    assert forall|k: int| 0 <= k < a.len() implies a[k] == b[k] by {
        assert(pixel.ensures((column(k, width), row(k, width)), a[k]));
        assert(pixel.ensures((column(k, width), row(k, width)), b[k]));
    }
    assert(a =~= b);
}

/// With a pixel function that gives one color per pixel, the pixel section
/// is the same byte for byte whichever strategy computed it: series, by
/// rows and all at once all agree.
pub proof fn lemma_strategies_agree<P: Fn(u32, u32) -> Rgb>(
    pixel: P,
    width: u32,
    height: u32,
    a: Seq<u8>,
    b: Seq<u8>,
)
    requires
        deterministic(pixel),
        encodes_frame(pixel, width, height, a),
        encodes_frame(pixel, width, height, b),
    ensures
        a == b,
{
    let pa = choose|px: Seq<Rgb>| renders(pixel, width, height, px) && a == pixel_lines(px);
    let pb = choose|px: Seq<Rgb>| renders(pixel, width, height, px) && b == pixel_lines(px);
    lemma_frame_unique(pixel, width, height, pa, pb);
}

/// With a pixel function that gives one color per pixel, two renders of
/// the same image produce the same file byte for byte, whatever scheduling
/// each of them used.
pub proof fn lemma_render_repeatable<P: Fn(u32, u32) -> Rgb>(
    pixel: P,
    width: u32,
    height: u32,
    a: Seq<u8>,
    b: Seq<u8>,
)
    requires
        deterministic(pixel),
        encodes_image(pixel, width, height, a),
        encodes_image(pixel, width, height, b),
    ensures
        a == b,
{
    let pa = choose|px: Seq<Rgb>|
        renders(pixel, width, height, px) && a == ppm_file(width as nat, height as nat, px);
    let pb = choose|px: Seq<Rgb>|
        renders(pixel, width, height, px) && b == ppm_file(width as nat, height as nat, px);
    lemma_frame_unique(pixel, width, height, pa, pb);
}

} // verus!
