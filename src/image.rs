//! The pixel buffer a render fills: a fixed-size grid of 8-bit colours kept
//! in row-major order, top row first and left to right within a row, so that
//! the encoded image lists pixels in that order whatever order they were
//! computed in.
use vstd::prelude::*;
use crate::ppm::{Rgb8, header, ppm, pixel_line, pixel_lines, push_header, push_pixel};

verus! {

/// The abstract content of an [`Image`].
pub struct ImageView {
    pub width: nat,
    pub height: nat,
    pub pixels: Seq<Rgb8>,
}

/// Black, the colour of a pixel that has not been set.
pub open spec fn black() -> Rgb8 {
    Rgb8 { r: 0, g: 0, b: 0 }
}

/// The position of pixel `(i, j)` (column `i`, row `j`) in row-major order.
pub open spec fn index_of(width: nat, i: nat, j: nat) -> int {
    (j * width + i) as int
}

/// `width * height` pixels, stored row by row.
pub struct Image {
    width: u32,
    height: u32,
    pixels: Vec<Rgb8>,
}

impl View for Image {
    type V = ImageView;

    closed spec fn view(&self) -> ImageView {
        ImageView { width: self.width as nat, height: self.height as nat, pixels: self.pixels@ }
    }
}

proof fn lemma_index_in_grid(width: nat, height: nat, i: nat, j: nat)
    requires
        i < width,
        j < height,
    ensures
        0 <= j * width <= index_of(width, i, j) < width * height,
{
    assert(0 <= j * width <= j * width + i < width * height) by (nonlinear_arith)
        requires
            i < width,
            j < height,
    ;
}

/// Distinct grid positions have distinct places in the row-major order.
pub proof fn lemma_index_injective(width: nat, i1: nat, j1: nat, i2: nat, j2: nat)
    requires
        i1 < width,
        i2 < width,
        (i1, j1) != (i2, j2),
    ensures
        index_of(width, i1, j1) != index_of(width, i2, j2),
{
    if j1 < j2 {
        assert(j1 * width + i1 < j2 * width + i2) by (nonlinear_arith)
            requires
                i1 < width,
                j1 < j2,
        ;
    } else if j2 < j1 {
        assert(j2 * width + i2 < j1 * width + i1) by (nonlinear_arith)
            requires
                i2 < width,
                j2 < j1,
        ;
    }
}

/// Pixels at distinct positions may be set in either order: the image only
/// depends on the colour given to each position, so pixels computed in any
/// order are encoded alike.
pub proof fn lemma_set_order_irrelevant(
    pixels: Seq<Rgb8>,
    width: nat,
    height: nat,
    i1: nat,
    j1: nat,
    p1: Rgb8,
    i2: nat,
    j2: nat,
    p2: Rgb8,
)
    requires
        pixels.len() == width * height,
        i1 < width,
        j1 < height,
        i2 < width,
        j2 < height,
        (i1, j1) != (i2, j2),
    ensures
        pixels.update(index_of(width, i1, j1), p1).update(index_of(width, i2, j2), p2)
            == pixels.update(index_of(width, i2, j2), p2).update(index_of(width, i1, j1), p1),
{
    lemma_index_injective(width, i1, j1, i2, j2);
    lemma_index_in_grid(width, height, i1, j1);
    lemma_index_in_grid(width, height, i2, j2);
    assert(pixels.update(index_of(width, i1, j1), p1).update(index_of(width, i2, j2), p2)
        =~= pixels.update(index_of(width, i2, j2), p2).update(index_of(width, i1, j1), p1));
}

impl Image {
    /// One pixel per grid position.
    pub closed spec fn wf(&self) -> bool {
        &&& self.pixels@.len() == self.width as nat * self.height as nat
        &&& self.width as nat * self.height as nat <= usize::MAX
    }

    /// An all-black image of `width` columns and `height` rows.
    pub fn new(width: u32, height: u32) -> (img: Image)
        requires
            width as nat * height as nat <= usize::MAX,
        ensures
            img.wf(),
            img@.width == width as nat,
            img@.height == height as nat,
            img@.pixels == Seq::new(width as nat * height as nat, |k: int| black()),
    {
        let n: usize = (width as usize) * (height as usize);
        let mut pixels: Vec<Rgb8> = Vec::new();
        let mut k: usize = 0;
        while k < n
            invariant
                k <= n,
                pixels@ == Seq::new(k as nat, |m: int| black()),
            decreases n - k,
        {
            pixels.push(Rgb8 { r: 0, g: 0, b: 0 });
            k = k + 1;
            assert(pixels@ =~= Seq::new(k as nat, |m: int| black()));
        }
        Image { width, height, pixels }
    }

    pub fn width(&self) -> (w: u32)
        ensures
            w as nat == self@.width,
    {
        self.width
    }

    pub fn height(&self) -> (h: u32)
        ensures
            h as nat == self@.height,
    {
        self.height
    }

    /// The colour of the pixel in column `i` of row `j`.
    pub fn pixel(&self, i: u32, j: u32) -> (p: Rgb8)
        requires
            self.wf(),
            i < self@.width,
            j < self@.height,
        ensures
            p == self@.pixels[index_of(self@.width, i as nat, j as nat)],
    {
        proof {
            lemma_index_in_grid(self.width as nat, self.height as nat, i as nat, j as nat);
        }
        let k: usize = (j as usize) * (self.width as usize) + (i as usize);
        self.pixels[k]
    }

    /// Sets the pixel in column `i` of row `j` to `p`, leaving all others.
    pub fn set_pixel(&mut self, i: u32, j: u32, p: Rgb8)
        requires
            old(self).wf(),
            i < old(self)@.width,
            j < old(self)@.height,
        ensures
            final(self).wf(),
            final(self)@.width == old(self)@.width,
            final(self)@.height == old(self)@.height,
            final(self)@.pixels == old(self)@.pixels.update(
                index_of(old(self)@.width, i as nat, j as nat),
                p,
            ),
    {
        proof {
            lemma_index_in_grid(self.width as nat, self.height as nat, i as nat, j as nat);
        }
        let k: usize = (j as usize) * (self.width as usize) + (i as usize);
        self.pixels.set(k, p);
    }

    /// The image as P3 text: the header, then one line per pixel in row-major order.
    pub fn encode(&self) -> (out: Vec<u8>)
        requires
            self.wf(),
        ensures
            out@ == ppm(self@.width, self@.height, self@.pixels),
    {
        let mut out: Vec<u8> = Vec::new();
        push_header(&mut out, self.width, self.height);
        let ghost head = out@;
        let mut k: usize = 0;
        while k < self.pixels.len()
            invariant
                k <= self.pixels@.len(),
                head == header(self.width as nat, self.height as nat),
                out@ == head + pixel_lines(self.pixels@.subrange(0, k as int)),
            decreases self.pixels@.len() - k,
        {
            let p = self.pixels[k];
            push_pixel(&mut out, p);
            proof {
                let done = self.pixels@.subrange(0, k + 1);
                assert(done.drop_last() =~= self.pixels@.subrange(0, k as int));
                assert(pixel_lines(done) == pixel_lines(done.drop_last()) + pixel_line(p));
                assert(out@ =~= head + pixel_lines(done));
            }
            k = k + 1;
        }
        assert(self.pixels@.subrange(0, self.pixels@.len() as int) =~= self.pixels@);
        out
    }
}

} // verus!
