//! The output raster and its binary pixel-map (`P6`) encoding.
use vstd::prelude::*;
use crate::array::Array;

verus! {

/// One pixel: red, green and blue, one byte each.
pub type RGB256 = Array<u8, 3>;

/// Position of pixel `(x, y)` in a row-major raster `w` pixels wide.
pub open spec fn pixel_index(x: int, y: int, w: int) -> int {
    x + y * w
}

/// The decimal digits of `n`, in ASCII, most significant first.
pub open spec fn decimal(n: nat) -> Seq<u8>
    decreases n,
{
    if n < 10 {
        seq![(48 + n) as u8]
    } else {
        decimal(n / 10).push((48 + n % 10) as u8)
    }
}

/// The header `P6\n<w> <h>\n255\n`.
pub open spec fn ppm_header(w: nat, h: nat) -> Seq<u8> {
    seq![80u8, 54u8, 10u8] + decimal(w) + seq![32u8] + decimal(h) + seq![10u8, 50u8, 53u8, 53u8, 10u8]
}

/// The channel bytes of `p`, pixel after pixel.
pub open spec fn pixel_bytes(p: Seq<RGB256>) -> Seq<u8>
    decreases p.len(),
{
    if p.len() == 0 {
        Seq::empty()
    } else {
        pixel_bytes(p.drop_last()) + p.last().data@
    }
}

proof fn lemma_pixel_bytes_len(p: Seq<RGB256>)
    ensures
        pixel_bytes(p).len() == 3 * p.len(),
    decreases p.len(),
{
    if p.len() > 0 {
        lemma_pixel_bytes_len(p.drop_last());
    }
}

proof fn lemma_index_unique(px: int, py: int, x: int, y: int, w: int)
    requires
        0 <= px < w,
        0 <= x < w,
        pixel_index(px, py, w) == pixel_index(x, y, w),
    ensures
        px == x,
        py == y,
{
    assert((py - y) * w == x - px) by (nonlinear_arith)
        requires
            px + py * w == x + y * w,
    ;
    if py > y {
        assert((py - y) * w >= w) by (nonlinear_arith)
            requires
                py - y >= 1,
                w > 0,
        ;
    } else if py < y {
        assert((y - py) * w >= w) by (nonlinear_arith)
            requires
                y - py >= 1,
                w > 0,
        ;
        assert((py - y) * w == -((y - py) * w)) by (nonlinear_arith);
    }
}

proof fn lemma_index_in_range(x: int, y: int, w: int, h: int)
    requires
        0 <= x < w,
        0 <= y < h,
    ensures
        0 <= pixel_index(x, y, w) < w * h,
{
    assert(0 <= y * w <= (h - 1) * w) by (nonlinear_arith)
        requires
            0 <= y < h,
            0 < w,
    ;
    assert((h - 1) * w + w == w * h) by (nonlinear_arith);
}

/// A `width` × `height` raster of pixels, stored row by row.
pub struct ResultImage {
    pub width: i32,
    pub height: i32,
    pub pixels: Vec<RGB256>,
}

impl ResultImage {
    /// Positive dimensions, and one pixel for each position.
    pub open spec fn wf(&self) -> bool {
        &&& 0 < self.width
        &&& 0 < self.height
        &&& self.width * self.height <= i32::MAX
        &&& self.pixels.len() == self.width * self.height
    }

    /// The pixel at `(x, y)`.
    pub open spec fn pixel_at(&self, x: int, y: int) -> RGB256 {
        self.pixels@[pixel_index(x, y, self.width as int)]
    }

    /// Every pixel is a result that `shade` may give for its coordinates.
    pub open spec fn shaded_by<F: Fn(i32, i32) -> RGB256>(&self, shade: F) -> bool {
        forall|x: i32, y: i32|
            0 <= x < self.width && 0 <= y < self.height ==> shade.ensures(
                (x, y),
                #[trigger] self.pixel_at(x as int, y as int),
            )
    }

    /// The whole `P6` file: header, then every pixel's channels.
    pub open spec fn ppm(&self) -> Seq<u8> {
        ppm_header(self.width as nat, self.height as nat) + pixel_bytes(self.pixels@)
    }

    /// A black raster of `w` × `h` pixels.
    pub fn new(w: i32, h: i32) -> (r: ResultImage)
        requires
            0 < w,
            0 < h,
            w * h <= i32::MAX,
        ensures
            r.wf(),
            r.width == w,
            r.height == h,
            forall|i: int| 0 <= i < r.pixels.len() ==> #[trigger] r.pixels@[i].data@ == seq![0u8, 0u8, 0u8],
    {
        let n = (w * h) as usize;
        let mut pixels: Vec<RGB256> = Vec::new();
        while pixels.len() < n
            invariant
                pixels.len() <= n,
                forall|i: int| 0 <= i < pixels.len() ==> #[trigger] pixels@[i].data@ == seq![0u8, 0u8, 0u8],
            decreases n - pixels.len(),
        {
            let black: RGB256 = Array { data: [0u8, 0u8, 0u8] };
            assert(black.data@ =~= seq![0u8, 0u8, 0u8]);
            pixels.push(black);
        }
        ResultImage { width: w, height: h, pixels }
    }

    /// Width in pixels.
    pub fn width(&self) -> (r: i32)
        ensures
            r == self.width,
    {
        self.width
    }

    /// Height in pixels.
    pub fn height(&self) -> (r: i32)
        ensures
            r == self.height,
    {
        self.height
    }
    /// Sets every pixel `(x, y)`, row by row, to `shade(x, y)`.
    pub fn fill<F: Fn(i32, i32) -> RGB256>(&mut self, shade: F)
        requires
            old(self).wf(),
            forall|x: i32, y: i32|
                0 <= x < old(self).width && 0 <= y < old(self).height ==> #[trigger] shade.requires(
                    (x, y),
                ),
        ensures
            final(self).wf(),
            final(self).width == old(self).width,
            final(self).height == old(self).height,
            final(self).shaded_by(shade),
    {
        let w = self.width;
        let h = self.height;
        let mut y: i32 = 0;
        while y < h
            invariant
                0 <= y <= h,
                self.wf(),
                self.width == w,
                self.height == h,
                forall|x: i32, y: i32|
                    0 <= x < w && 0 <= y < h ==> #[trigger] shade.requires((x, y)),
                forall|px: i32, py: i32|
                    0 <= px < w && 0 <= py < y ==> shade.ensures(
                        (px, py),
                        #[trigger] self.pixel_at(px as int, py as int),
                    ),
            decreases h - y,
        {
            let mut x: i32 = 0;
            while x < w
                invariant
                    0 <= x <= w,
                    0 <= y < h,
                    self.wf(),
                    self.width == w,
                    self.height == h,
                    forall|x: i32, y: i32|
                        0 <= x < w && 0 <= y < h ==> #[trigger] shade.requires((x, y)),
                    forall|px: i32, py: i32|
                        (0 <= px < w && 0 <= py < y) || (0 <= px < x && py == y) ==> shade.ensures(
                            (px, py),
                            #[trigger] self.pixel_at(px as int, py as int),
                        ),
                decreases w - x,
            {
                let c = shade(x, y);
                proof {
                    lemma_index_in_range(x as int, y as int, w as int, h as int);
                }
                let idx = (x + y * w) as usize;
                let ghost before = self.pixels@;
                let ghost prev = *self;
                self.pixels.set(idx, c);
                proof {
                    assert forall|px: i32, py: i32|
                        (0 <= px < w && 0 <= py < y) || (0 <= px < x + 1 && py == y) implies shade.ensures(
                            (px, py),
                            #[trigger] self.pixel_at(px as int, py as int),
                        ) by {
                        if px != x || py != y {
                            lemma_index_in_range(px as int, py as int, w as int, h as int);
                            if pixel_index(px as int, py as int, w as int) == idx as int {
                                lemma_index_unique(px as int, py as int, x as int, y as int, w as int);
                            }
                            assert(self.pixels@[pixel_index(px as int, py as int, w as int)]
                                == before[pixel_index(px as int, py as int, w as int)]);
                            assert(shade.ensures((px, py), prev.pixel_at(px as int, py as int)));
                        } else {
                            assert(self.pixels@[idx as int] == c);
                        }
                    }
                }
                x = x + 1;
            }
            y = y + 1;
        }
    }

    /// The image as a `P6` pixel map: `P6\n<width> <height>\n255\n`, then the
    /// channel bytes of every pixel in row-major order.
    pub fn to_ppm(&self) -> (r: Vec<u8>)
        requires
            self.wf(),
        ensures
            r@ == self.ppm(),
            r@.len() == ppm_header(self.width as nat, self.height as nat).len() + 3 * self.width
                * self.height,
    {
        let mut out: Vec<u8> = Vec::new();
        out.push(80u8);
        out.push(54u8);
        out.push(10u8);
        push_decimal(&mut out, self.width as u32);
        out.push(32u8);
        push_decimal(&mut out, self.height as u32);
        out.push(10u8);
        out.push(50u8);
        out.push(53u8);
        out.push(53u8);
        out.push(10u8);
        let ghost header = out@;
        assert(header =~= ppm_header(self.width as nat, self.height as nat));
        let mut i: usize = 0;
        while i < self.pixels.len()
            invariant
                i <= self.pixels.len(),
                out@ == header + pixel_bytes(self.pixels@.subrange(0, i as int)),
            decreases self.pixels.len() - i,
        {
            let p = self.pixels[i];
            out.push(p.data[0]);
            out.push(p.data[1]);
            out.push(p.data[2]);
            proof {
                let s = self.pixels@.subrange(0, i + 1);
                assert(s.drop_last() =~= self.pixels@.subrange(0, i as int));
                assert(p.data@ =~= seq![p.data[0], p.data[1], p.data[2]]);
            }
            assert(out@ =~= header + pixel_bytes(self.pixels@.subrange(0, i + 1)));
            i = i + 1;
        }
        assert(self.pixels@.subrange(0, i as int) =~= self.pixels@);
        proof {
            lemma_ppm_length(self);
        }
        out
    }
}

/// Appends the decimal digits of `n` to `out`.
fn push_decimal(out: &mut Vec<u8>, n: u32)
    ensures
        final(out)@ == old(out)@ + decimal(n as nat),
    decreases n,
{
    if n >= 10 {
        push_decimal(out, n / 10);
    }
    out.push(48u8 + (n % 10) as u8);
    assert(final(out)@ =~= old(out)@ + decimal(n as nat));
}

/// A rendered file is exactly its header plus three bytes per pixel.
pub proof fn lemma_ppm_length(img: &ResultImage)
    requires
        img.wf(),
    ensures
        img.ppm().len() == ppm_header(img.width as nat, img.height as nat).len() + 3 * img.width
            * img.height,
{
    lemma_pixel_bytes_len(img.pixels@);
    assert(3 * (img.width * img.height) == 3 * img.width * img.height) by (nonlinear_arith);
}

/// Filling twice with a shader whose result depends on the pixel
/// coordinates alone yields the same pixels both times.
pub proof fn lemma_fill_deterministic<F: Fn(i32, i32) -> RGB256>(
    a: &ResultImage,
    b: &ResultImage,
    shade: F,
)
    requires
        a.wf(),
        b.wf(),
        a.width == b.width,
        a.height == b.height,
        a.shaded_by(shade),
        b.shaded_by(shade),
        forall|args: (i32, i32), r1: RGB256, r2: RGB256|
            shade.ensures(args, r1) && shade.ensures(args, r2) ==> r1 == r2,
    ensures
        a.pixels@ == b.pixels@,
{
    let w = a.width as int;
    assert forall|i: int| 0 <= i < a.pixels.len() implies a.pixels@[i] == b.pixels@[i] by {
        let x = i % w;
        let y = i / w;
        assert(i == x + y * w && 0 <= x < w) by (nonlinear_arith)
            requires
                w > 0,
                x == i % w,
                y == i / w,
        ;
        assert(0 <= y < a.height) by (nonlinear_arith)
            requires
                w > 0,
                0 <= i < w * a.height,
                y == i / w,
        ;
        assert(shade.ensures((x as i32, y as i32), a.pixel_at(x, y)));
        assert(shade.ensures((x as i32, y as i32), b.pixel_at(x, y)));
    }
    assert(a.pixels@ =~= b.pixels@);
}

} // verus!
