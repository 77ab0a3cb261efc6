//! Inter-key "hole glow" overlay for a light-up keyboard.
//!
//! The asset host precomputes, per keyboard depot, a run-length-encoded mask
//! of the enclosed gaps between the keys: runs alternate transparent / opaque
//! starting transparent, row-major, and cover exactly `width * height` pixels.
//! Painting the opaque runs in the lighting colour gives the overlay.

use vstd::prelude::*;
use vstd::arithmetic::div_mod::{lemma_fundamental_div_mod, lemma_fundamental_div_mod_converse};
use image::RgbaImage;
use crate::http::{join_path, component_error_kind, safe_component_path, join};

verus! {

/// Sanity bound on a baked mask's width and height.
pub const MAX_MASK_DIM: u32 = 8192;

/// Metadata files that may hold the precomputed mask, newest schema first.
pub const META_FILES: [&'static str; 2] = ["core_metadata.json", "metadata.json"];

/// A precomputed run-length-encoded hole mask.
#[derive(Debug, Clone)]
pub struct GlowMask {
    pub width: u32,
    pub height: u32,
    pub runs: Vec<u32>,
}

/// An RGBA image of the `image` crate. The image crate's buffer type is
/// generic over a pixel trait that cannot be declared here, so the image is
/// held in this wrapper and described by [`image_pixels`] and [`image_size`].
#[verifier::external_body]
pub struct GlowImage {
    pub image: RgbaImage,
}

/// The pixels of an RGBA image, keyed by `(x, y)`, as `(r, g, b, a)`.
pub uninterp spec fn image_pixels(img: GlowImage) -> Map<(u32, u32), (u8, u8, u8, u8)>;

/// The `(width, height)` an RGBA image was made with.
pub uninterp spec fn image_size(img: GlowImage) -> (u32, u32);

/// The coordinates inside a `width` x `height` image.
pub open spec fn in_bounds(width: u32, height: u32) -> Set<(u32, u32)> {
    Set::new(|p: (u32, u32)| p.0 < width && p.1 < height)
}

/// Calls `image::ImageBuffer::new`: a `width` x `height` image whose pixels
/// are all zero (transparent black). The call computes the buffer length as
/// `4 * width`, then times `height`, and panics when either product overflows
/// `usize`; allocating the zeroed buffer panics when its length exceeds
/// `isize::MAX`. `requires` rules out all three.
#[verifier::external_body]
fn new_rgba_image(width: u32, height: u32) -> (img: GlowImage)
    requires
        4 * width <= usize::MAX,
        4 * width * height <= usize::MAX,
        4 * width * height <= isize::MAX,
    ensures
        image_size(img) == (width, height),
        image_pixels(img).dom() == in_bounds(width, height),
        forall|p: (u32, u32)|
            #[trigger] image_pixels(img).contains_key(p) ==> image_pixels(img)[p] == (
                0u8,
                0u8,
                0u8,
                0u8,
            ),
{
    GlowImage { image: RgbaImage::new(width, height) }
}

/// Calls `image::ImageBuffer::put_pixel`: sets pixel `(x, y)` and leaves the
/// rest and the size as they were. It panics out of bounds, which `requires`
/// rules out.
#[verifier::external_body]
fn put_rgba_pixel(img: &mut GlowImage, x: u32, y: u32, color: [u8; 4])
    requires
        x < image_size(*old(img)).0,
        y < image_size(*old(img)).1,
    ensures
        image_size(*final(img)) == image_size(*old(img)),
        image_pixels(*final(img)) == image_pixels(*old(img)).insert(
            (x, y),
            (color[0], color[1], color[2], color[3]),
        ),
{
    img.image.put_pixel(x, y, image::Rgba(color));
}

/// Total length of the first `k` runs: the linear index where run `k` starts.
pub open spec fn run_start(runs: Seq<u32>, k: int) -> int
    decreases k,
{
    if k <= 0 || k > runs.len() {
        0
    } else {
        run_start(runs, k - 1) + runs[k - 1]
    }
}

/// Total length of all runs.
pub open spec fn runs_total(runs: Seq<u32>) -> int {
    run_start(runs, runs.len() as int)
}

/// Linear index `q` lies in one of the first `k` runs that is opaque (odd).
pub open spec fn on_before(runs: Seq<u32>, k: int, q: int) -> bool {
    exists|j: int|
        0 <= j < k && j % 2 == 1 && run_start(runs, j) <= q && q < #[trigger] run_start(
            runs,
            j + 1,
        )
}

/// Linear index `q` lies in an opaque run of the mask.
pub open spec fn is_on(runs: Seq<u32>, q: int) -> bool {
    on_before(runs, runs.len() as int, q)
}

/// A mask whose dimensions are in range and whose runs cover exactly
/// `width * height` pixels.
pub open spec fn mask_valid(mask: GlowMask) -> bool {
    &&& 0 < mask.width <= MAX_MASK_DIM
    &&& 0 < mask.height <= MAX_MASK_DIM
    &&& runs_total(mask.runs@) == mask.width * mask.height
}

/// The pixel at `(x, y)` of the painted mask.
pub open spec fn painted_pixel(mask: GlowMask, color: [u8; 4], x: u32, y: u32) -> (u8, u8, u8, u8) {
    if is_on(mask.runs@, y * mask.width + x) {
        (color[0], color[1], color[2], color[3])
    } else {
        (0u8, 0u8, 0u8, 0u8)
    }
}

proof fn lemma_run_start_mono(runs: Seq<u32>, a: int, b: int)
    requires
        0 <= a <= b <= runs.len(),
    ensures
        run_start(runs, a) <= run_start(runs, b),
    decreases b - a,
{
    if a < b {
        lemma_run_start_mono(runs, a, b - 1);
    }
}

proof fn lemma_on_before_step(runs: Seq<u32>, k: int, q: int)
    requires
        0 <= k < runs.len(),
    ensures
        on_before(runs, k + 1, q) == (on_before(runs, k, q) || (k % 2 == 1 && run_start(runs, k)
            <= q < run_start(runs, k + 1))),
{
    if on_before(runs, k + 1, q) {
        let j = choose|j: int|
            0 <= j < k + 1 && j % 2 == 1 && run_start(runs, j) <= q && q < #[trigger] run_start(
                runs,
                j + 1,
            );
        if j < k {
            assert(on_before(runs, k, q));
        }
    }
    if k % 2 == 1 && run_start(runs, k) <= q < run_start(runs, k + 1) {
        assert(0 <= k < k + 1 && k % 2 == 1 && run_start(runs, k) <= q && q < run_start(
            runs,
            k + 1,
        ));
    }
}

proof fn lemma_on_before_beyond(runs: Seq<u32>, k: int, q: int)
    requires
        0 <= k <= runs.len(),
        q >= run_start(runs, k),
    ensures
        !on_before(runs, k, q),
{
    if on_before(runs, k, q) {
        let j = choose|j: int|
            0 <= j < k && j % 2 == 1 && run_start(runs, j) <= q && q < #[trigger] run_start(
                runs,
                j + 1,
            );
        lemma_run_start_mono(runs, j + 1, k);
    }
}

proof fn lemma_coords_of_index(p: int, w: int, h: int)
    requires
        0 < w,
        0 <= p < w * h,
    ensures
        0 <= p % w < w,
        0 <= p / w < h,
        (p / w) * w + p % w == p,
{
    lemma_fundamental_div_mod(p, w);
    assert(0 <= p % w < w) by (nonlinear_arith)
        requires
            0 < w,
    ;
    assert(0 <= p / w < h) by (nonlinear_arith)
        requires
            0 < w,
            0 <= p < w * h,
            p == w * (p / w) + p % w,
            0 <= p % w < w,
    ;
    assert((p / w) * w == w * (p / w)) by (nonlinear_arith);
}

proof fn lemma_index_of_coords(x: int, y: int, w: int)
    requires
        0 <= x < w,
        0 <= y,
    ensures
        (y * w + x) % w == x,
        (y * w + x) / w == y,
{
    lemma_fundamental_div_mod_converse(y * w + x, w, y, x);
}

/// Reconstructs the mask into a transparent image with the opaque runs
/// painted `color`. `None` when the dimensions are zero or above
/// [`MAX_MASK_DIM`], or the runs do not cover exactly `width * height`.
pub fn paint_mask(mask: &GlowMask, color: [u8; 4]) -> (r: Option<GlowImage>)
    ensures
        r is Some <==> mask_valid(*mask),
        r matches Some(img) ==> {
            &&& image_size(img) == (mask.width, mask.height)
            &&& image_pixels(img).dom() == in_bounds(mask.width, mask.height)
            &&& forall|x: u32, y: u32|
                x < mask.width && y < mask.height ==> #[trigger] image_pixels(img)[(x, y)]
                    == painted_pixel(*mask, color, x, y)
        },
{
    let w = mask.width;
    let h = mask.height;
    if w == 0 || h == 0 || w > MAX_MASK_DIM || h > MAX_MASK_DIM {
        return None;
    }
    let ghost runs = mask.runs@;
    assert(w * h <= 8192 * 8192) by (nonlinear_arith)
        requires
            w <= 8192,
            h <= 8192,
    ;
    let total: u64 = (w as u64) * (h as u64);
    let n = mask.runs.len();
    let mut sum: u64 = 0;
    let mut i: usize = 0;
    while i < n
        invariant
            n == runs.len(),
            runs == mask.runs@,
            w == mask.width,
            h == mask.height,
            total == w * h,
            i <= n,
            sum == run_start(runs, i as int),
            sum <= total,
        decreases n - i,
    {
        let run = mask.runs[i] as u64;
        proof {
            assert(run_start(runs, i + 1) == run_start(runs, i as int) + runs[i as int]);
        }
        if run > total - sum {
            proof {
                lemma_run_start_mono(runs, i + 1, n as int);
                assert(run_start(runs, i + 1) > total);
                assert(runs_total(runs) > total);
            }
            return None;
        }
        sum = sum + run;
        i += 1;
    }
    if sum != total {
        return None;
    }
    assert(4 * w * h <= 4 * 8192 * 8192) by (nonlinear_arith)
        requires
            w <= 8192,
            h <= 8192,
    ;
    let mut img = new_rgba_image(w, h);
    proof {
        assert forall|x: u32, y: u32| x < w && y < h implies #[trigger] image_pixels(img)[(x, y)]
            == if on_before(runs, 0, y * w + x) {
            (color[0], color[1], color[2], color[3])
        } else {
            (0u8, 0u8, 0u8, 0u8)
        } by {
            assert(image_pixels(img).contains_key((x, y)));
            lemma_on_before_beyond(runs, 0, y * w + x);
        }
    }
    let mut idx: u32 = 0;
    let mut on = false;
    let mut k: usize = 0;
    let ghost zero = (0u8, 0u8, 0u8, 0u8);
    let ghost col = (color[0], color[1], color[2], color[3]);
    while k < n
        invariant
            n == runs.len(),
            runs == mask.runs@,
            w == mask.width,
            h == mask.height,
            0 < w <= MAX_MASK_DIM,
            0 < h <= MAX_MASK_DIM,
            runs_total(runs) == w * h,
            w * h <= 8192 * 8192,
            k <= n,
            idx == run_start(runs, k as int),
            on == (k % 2 == 1),
            zero == (0u8, 0u8, 0u8, 0u8),
            col == (color[0], color[1], color[2], color[3]),
            image_size(img) == (w, h),
            image_pixels(img).dom() == in_bounds(w, h),
            forall|x: u32, y: u32|
                x < w && y < h ==> #[trigger] image_pixels(img)[(x, y)] == if on_before(
                    runs,
                    k as int,
                    y * w + x,
                ) {
                    col
                } else {
                    zero
                },
        decreases n - k,
    {
        let run = mask.runs[k];
        proof {
            lemma_run_start_mono(runs, k + 1, n as int);
            assert(run_start(runs, k + 1) == run_start(runs, k as int) + runs[k as int]);
        }
        let end = idx + run;
        if on {
            proof {
                assert forall|x: u32, y: u32| x < w && y < h implies #[trigger] image_pixels(img)[(
                    x,
                    y,
                )] == if y * w + x < idx {
                    if on_before(runs, k as int, y * w + x) {
                        col
                    } else {
                        zero
                    }
                } else if y * w + x < idx {
                    col
                } else {
                    zero
                } by {
                    if y * w + x >= idx {
                        lemma_on_before_beyond(runs, k as int, y * w + x);
                    }
                }
            }
            let mut p = idx;
            while p < end
                invariant
                    n == runs.len(),
                    runs == mask.runs@,
                    w == mask.width,
                    h == mask.height,
                    0 < w <= MAX_MASK_DIM,
                    0 < h <= MAX_MASK_DIM,
                    k < n,
                    idx == run_start(runs, k as int),
                    end == run_start(runs, k + 1),
                    end <= w * h,
                    idx <= p <= end,
                    zero == (0u8, 0u8, 0u8, 0u8),
                    col == (color[0], color[1], color[2], color[3]),
                    image_size(img) == (w, h),
                    image_pixels(img).dom() == in_bounds(w, h),
                    forall|x: u32, y: u32|
                        x < w && y < h ==> #[trigger] image_pixels(img)[(x, y)] == if y * w + x
                            < idx {
                            if on_before(runs, k as int, y * w + x) {
                                col
                            } else {
                                zero
                            }
                        } else if y * w + x < p {
                            col
                        } else {
                            zero
                        },
                decreases end - p,
            {
                proof {
                    lemma_coords_of_index(p as int, w as int, h as int);
                }
                let px = p % w;
                let py = p / w;
                let ghost old_pixels = image_pixels(img);
                put_rgba_pixel(&mut img, px, py, color);
                proof {
                    assert forall|x: u32, y: u32| x < w && y < h implies #[trigger] image_pixels(
                        img,
                    )[(x, y)] == if y * w + x < idx {
                        if on_before(runs, k as int, y * w + x) {
                            col
                        } else {
                            zero
                        }
                    } else if y * w + x < p + 1 {
                        col
                    } else {
                        zero
                    } by {
                        lemma_index_of_coords(x as int, y as int, w as int);
                        if (x, y) == (px, py) {
                            assert(y * w + x == p);
                        } else {
                            assert(y * w + x != p);
                            assert(image_pixels(img)[(x, y)] == old_pixels[(x, y)]);
                        }
                    }
                    assert(image_pixels(img).dom() =~= in_bounds(w, h));
                }
                p += 1;
            }
        }
        proof {
            assert forall|x: u32, y: u32| x < w && y < h implies #[trigger] image_pixels(img)[(
                x,
                y,
            )] == if on_before(runs, k + 1, y * w + x) {
                col
            } else {
                zero
            } by {
                let q = y * w + x;
                lemma_on_before_step(runs, k as int, q);
                if q >= idx {
                    lemma_on_before_beyond(runs, k as int, q);
                }
                if q >= end {
                    lemma_on_before_beyond(runs, k + 1, q);
                }
            }
        }
        idx = end;
        on = !on;
        k += 1;
    }
    proof {
        assert forall|x: u32, y: u32| x < w && y < h implies #[trigger] image_pixels(img)[(x, y)]
            == painted_pixel(*mask, color, x, y) by {}
    }
    Some(img)
}

/// `<root>/<depot>`, or `None` when the registry-supplied depot name is not a
/// single safe path component, so glow files never leave the cache root.
pub fn depot_dir(root: &str, depot: &str) -> (r: Option<String>)
    ensures
        r is Some <==> component_error_kind(depot@) is None,
        r matches Some(d) ==> d@ == join_path(root@, depot@),
{
    match safe_component_path(root, depot, "asset depot") {
        Ok(p) => Some(p),
        Err(_) => None,
    }
}

/// File name of the glow overlay in colour `hex`.
pub open spec fn glow_file_name(hex: Seq<char>) -> Seq<char> {
    "glow-"@ + hex + ".png"@
}

/// Cache path of a depot's glow overlay at colour `hex`; `None` when the
/// depot name is not a single safe path component.
pub fn glow_path(root: &str, depot: &str, hex: &str) -> (r: Option<String>)
    ensures
        r is Some <==> component_error_kind(depot@) is None,
        r matches Some(p) ==> p@ == join_path(join_path(root@, depot@), glow_file_name(hex@)),
{
    let dir = depot_dir(root, depot)?;
    let mut name = String::new();
    name.append("glow-");
    name.append(hex);
    name.append(".png");
    Some(join(dir.as_str(), name.as_str()))
}


/// The mask starts transparent: while the first run is non-empty, its first
/// pixel is not painted.
pub proof fn lemma_first_pixel_transparent(runs: Seq<u32>)
    requires
        runs.len() > 0,
        runs[0] > 0,
    ensures
        !is_on(runs, 0),
{
    if is_on(runs, 0) {
        let j = choose|j: int|
            0 <= j < runs.len() && j % 2 == 1 && run_start(runs, j) <= 0 && 0 < #[trigger] run_start(
                runs,
                j + 1,
            );
        lemma_run_start_mono(runs, 1, j);
        assert(run_start(runs, 0) == 0);
        assert(run_start(runs, 1) == runs[0]);
    }
}

/// A pixel of a painted mask is either the lighting colour or transparent
/// black, and it is the colour exactly on an opaque run.
pub proof fn lemma_painted_two_colours(mask: GlowMask, color: [u8; 4], x: u32, y: u32)
    ensures
        painted_pixel(mask, color, x, y) == (color[0], color[1], color[2], color[3])
            || painted_pixel(mask, color, x, y) == (0u8, 0u8, 0u8, 0u8),
        is_on(mask.runs@, y * mask.width + x) ==> painted_pixel(mask, color, x, y) == (
            color[0],
            color[1],
            color[2],
            color[3],
        ),
{
}

/// Runs alternate, starting transparent: a pixel whose linear index falls
/// in run `k` (counting from 0) is painted exactly when `k` is odd; run `k`
/// starts where the first `k` runs end.
pub proof fn lemma_run_parity(runs: Seq<u32>, k: int, q: int)
    requires
        0 <= k < runs.len(),
        run_start(runs, k) <= q < run_start(runs, k + 1),
    ensures
        is_on(runs, q) <==> k % 2 == 1,
        run_start(runs, 0) == 0,
        run_start(runs, k + 1) == run_start(runs, k) + runs[k],
{
    if k % 2 == 1 {
        assert(0 <= k < runs.len() && k % 2 == 1 && run_start(runs, k) <= q && q < run_start(
            runs,
            k + 1,
        ));
    } else if is_on(runs, q) {
        let j = choose|j: int|
            0 <= j < runs.len() && j % 2 == 1 && run_start(runs, j) <= q && q < #[trigger] run_start(
                runs,
                j + 1,
            );
        if j < k {
            lemma_run_start_mono(runs, j + 1, k);
        } else {
            lemma_run_start_mono(runs, k + 1, j);
        }
    }
}

} // verus!
