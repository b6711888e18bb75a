//! The bitmap: an owned, row-major buffer of pixels.
use vstd::prelude::*;

use crate::geo::{Rect2, Vector2};
use crate::pixel::{Pixel, PIXEL_BYTES};

verus! {

/// Why an operation on a bitmap failed.
#[derive(Debug, Clone, Copy, PartialEq, Eq, Structural)]
pub enum RenderError {
    /// A point outside the bitmap was addressed for writing.
    DrawOOB,
    /// The buffer could not be allocated. Index resolution never yields it:
    /// every in-bounds point has storage.
    MemoryError,
}

/// The mathematical content of a bitmap: its dimensions and its pixels in
/// row-major order, the pixel at `(x, y)` standing at `y * width + x`.
pub struct BitmapView {
    pub width: nat,
    pub height: nat,
    pub pixels: Seq<Pixel>,
}

impl BitmapView {
    /// The buffer holds exactly one pixel per cell.
    pub open spec fn wf(self) -> bool {
        self.pixels.len() == self.width * self.height
    }

    pub open spec fn in_bounds(self, p: Vector2) -> bool {
        p.x < self.width && p.y < self.height
    }

    /// Row-major position of a point, whether or not it is in bounds.
    pub open spec fn index(self, p: Vector2) -> int {
        p.y * self.width + p.x
    }

    /// The pixel at `p`, or nothing when `p` lies outside the bitmap.
    pub open spec fn read(self, p: Vector2) -> Option<Pixel> {
        if self.in_bounds(p) {
            Some(self.pixels[self.index(p)])
        } else {
            None
        }
    }

    /// The bitmap with `px` stored at `p`; unchanged when `p` is outside.
    pub open spec fn write(self, p: Vector2, px: Pixel) -> BitmapView {
        if self.in_bounds(p) {
            BitmapView { pixels: self.pixels.update(self.index(p), px), ..self }
        } else {
            self
        }
    }
}

/// Every in-bounds point has a row-major index inside the buffer.
pub proof fn lemma_index_in_range(w: nat, h: nat, p: Vector2)
    requires
        p.x < w,
        p.y < h,
    ensures
        0 <= p.y * w + p.x < w * h,
{
    assert(p.y * w + p.x < w * h) by (nonlinear_arith)
        requires
            p.x < w,
            p.y < h,
    ;
}

/// Distinct in-bounds points have distinct row-major indices.
pub proof fn lemma_index_injective(w: nat, p: Vector2, q: Vector2)
    requires
        p.x < w,
        q.x < w,
        p != q,
    ensures
        p.y * w + p.x != q.y * w + q.x,
{
    if p.y < q.y {
        assert(p.y * w + p.x < q.y * w) by (nonlinear_arith)
            requires
                p.y < q.y,
                p.x < w,
        ;
    } else if q.y < p.y {
        assert(q.y * w + q.x < p.y * w) by (nonlinear_arith)
            requires
                q.y < p.y,
                q.x < w,
        ;
    }
}

/// Whether `q` lies in the box of `rect` translated by `offset`, both bounds
/// included: `offset.x <= q.x <= offset.x + rect.width`, and likewise for `y`.
pub open spec fn in_box(offset: Vector2, rect: Rect2, q: Vector2) -> bool {
    &&& offset.x <= q.x <= offset.x + rect.width
    &&& offset.y <= q.y <= offset.y + rect.height
}

/// The BGRX8888 byte stream of a row of pixels: each pixel's four bytes,
/// in order.
pub open spec fn encode(pixels: Seq<Pixel>) -> Seq<u8>
    decreases pixels.len(),
{
    if pixels.len() == 0 {
        Seq::empty()
    } else {
        encode(pixels.drop_last()) + pixels.last().spec_bytes()
    }
}

/// Each pixel takes exactly four bytes of the stream.
pub proof fn lemma_encode_len(pixels: Seq<Pixel>)
    ensures
        encode(pixels).len() == PIXEL_BYTES * pixels.len(),
    decreases pixels.len(),
{
    if pixels.len() > 0 {
        lemma_encode_len(pixels.drop_last());
    }
}

/// Byte `k` of the encoding of pixel `i` stands at position `4 * i + k` of
/// the stream.
pub proof fn lemma_encode_index(pixels: Seq<Pixel>, i: int, k: int)
    requires
        0 <= i < pixels.len(),
        0 <= k < PIXEL_BYTES,
    ensures
        encode(pixels)[PIXEL_BYTES * i + k] == pixels[i].spec_bytes()[k],
    decreases pixels.len(),
{
    let init = pixels.drop_last();
    lemma_encode_len(init);
    if i < pixels.len() - 1 {
        lemma_encode_index(init, i, k);
    }
}

/// Reading back a point just written gives the pixel written.
pub proof fn lemma_write_then_read(v: BitmapView, p: Vector2, px: Pixel)
    requires
        v.wf(),
        v.in_bounds(p),
    ensures
        v.write(p, px).read(p) == Some(px),
{
    lemma_index_in_range(v.width, v.height, p);
}

/// Writing at one point leaves every other point as it was.
pub proof fn lemma_write_keeps_others(v: BitmapView, p: Vector2, px: Pixel, q: Vector2)
    requires
        v.wf(),
        q != p,
    ensures
        v.write(p, px).read(q) == v.read(q),
        v.write(p, px).wf(),
{
    if v.in_bounds(p) {
        lemma_index_in_range(v.width, v.height, p);
        if v.in_bounds(q) {
            lemma_index_in_range(v.width, v.height, q);
            lemma_index_injective(v.width, p, q);
        }
    }
}

/// A point whose row-major index is exactly `width * height`, the position
/// one past the end of the buffer, is never in bounds.
pub proof fn lemma_one_past_end_out_of_bounds(v: BitmapView, p: Vector2)
    requires
        v.index(p) == v.width * v.height,
    ensures
        !v.in_bounds(p),
        v.read(p) is None,
{
    if v.in_bounds(p) {
        lemma_index_in_range(v.width, v.height, p);
    }
}

/// An owned, fixed-size, zero-initialised buffer of pixels.
///
/// The buffer never grows or shrinks after construction, and is released
/// exactly once, when the bitmap is dropped.
pub struct Bitmap {
    size: Rect2,
    memory: Vec<Pixel>,
}

impl View for Bitmap {
    type V = BitmapView;

    closed spec fn view(&self) -> BitmapView {
        BitmapView {
            width: self.size.width as nat,
            height: self.size.height as nat,
            pixels: self.memory@,
        }
    }
}

/// Whether a buffer of `size` can be described by an allocation layout:
/// its byte count must fit in an `isize`.
pub open spec fn layout_fits(size: Rect2) -> bool {
    size.width * size.height * PIXEL_BYTES <= isize::MAX
}

impl Bitmap {
    #[verifier::type_invariant]
    closed spec fn inv(self) -> bool {
        &&& self.memory@.len() == self.size.width * self.size.height
        &&& layout_fits(self.size)
    }

    /// Allocates a bitmap of `size` with every pixel black.
    ///
    /// Fails with `MemoryError` when the buffer's byte count does not fit in
    /// an `isize`, or when the allocator cannot provide it; the latter
    /// depends on the machine, so success is promised only for a zero-area
    /// size, which needs no allocation.
    pub fn new(size: Rect2) -> (r: Result<Bitmap, RenderError>)
        ensures
            !layout_fits(size) ==> r == Err::<Bitmap, RenderError>(RenderError::MemoryError),
            size.width * size.height == 0 ==> r is Ok,
            r matches Err(e) ==> e == RenderError::MemoryError,
            r matches Ok(bm) ==> {
                &&& bm@.wf()
                &&& bm@.width == size.width
                &&& bm@.height == size.height
                &&& forall|i: int| 0 <= i < bm@.pixels.len() ==> #[trigger] bm@.pixels[i]
                    == Pixel::spec_black()
                &&& forall|q: Vector2| bm@.in_bounds(q) ==> #[trigger] bm@.read(q) == Some(
                    Pixel::spec_black(),
                )
            },
    {
        let count = match size.width.checked_mul(size.height) {
            Some(n) => n,
            None => {
                proof {
                    assert(size.width * size.height * PIXEL_BYTES > isize::MAX) by (nonlinear_arith)
                        requires
                            size.width * size.height > usize::MAX,
                    ;
                }
                return Err(RenderError::MemoryError);
            },
        };
        if count > (isize::MAX as usize) / PIXEL_BYTES {
            return Err(RenderError::MemoryError);
        }
        let mut memory: Vec<Pixel> = Vec::new();
        if count > 0 && memory.try_reserve(count).is_err() {
            return Err(RenderError::MemoryError);
        }
        let black = Pixel::black();
        let mut i: usize = 0;
        while i < count
            invariant
                i <= count,
                memory@.len() == i,
                forall|j: int| 0 <= j < i ==> #[trigger] memory@[j] == Pixel::spec_black(),
                black == Pixel::spec_black(),
            decreases count - i,
        {
            memory.push(black);
            i = i + 1;
        }
        let bm = Bitmap { size, memory };
        proof {
            assert forall|q: Vector2| bm@.in_bounds(q) implies #[trigger] bm@.read(q) == Some(
                Pixel::spec_black(),
            ) by {
                lemma_index_in_range(bm@.width, bm@.height, q);
            }
        }
        Ok(bm)
    }

    /// The dimensions the bitmap was created with.
    pub fn size(&self) -> (r: Rect2)
        ensures
            r.width == self@.width,
            r.height == self@.height,
    {
        self.size
    }

    /// The pixels in row-major order.
    pub fn pixels(&self) -> (r: &[Pixel])
        ensures
            r@ == self@.pixels,
    {
        self.memory.as_slice()
    }

    /// A copy of the buffer as raw BGRX8888 bytes: four per pixel, rows in
    /// order with no padding between them, `width * height * 4` in all.
    pub fn to_bytes(&self) -> (r: Vec<u8>)
        ensures
            r@ == encode(self@.pixels),
            r@.len() == PIXEL_BYTES * self@.pixels.len(),
    {
        proof {
            use_type_invariant(self);
        }
        let n = self.memory.len();
        let mut out: Vec<u8> = Vec::new();
        let mut i: usize = 0;
        while i < n
            invariant
                n == self@.pixels.len(),
                i <= n,
                out@ == encode(self@.pixels.subrange(0, i as int)),
            decreases n - i,
        {
            let bytes = self.memory[i].to_bytes();
            out.push(bytes[0]);
            out.push(bytes[1]);
            out.push(bytes[2]);
            out.push(bytes[3]);
            proof {
                let prefix = self@.pixels.subrange(0, i + 1);
                assert(prefix.drop_last() =~= self@.pixels.subrange(0, i as int));
                assert(out@ =~= encode(self@.pixels.subrange(0, i as int)) + prefix.last().spec_bytes());
            }
            i = i + 1;
        }
        proof {
            assert(self@.pixels.subrange(0, n as int) =~= self@.pixels);
            lemma_encode_len(self@.pixels);
        }
        out
    }

    /// The pixel at `point`, or `None` when the point lies outside the
    /// bitmap. The check runs on every call.
    pub fn pixel_at_point(&self, point: Vector2) -> (r: Option<&Pixel>)
        ensures
            self@.wf(),
            r is Some <==> self@.in_bounds(point),
            r matches Some(px) ==> self@.read(point) == Some(*px),
    {
        proof {
            use_type_invariant(self);
        }
        if point.x < self.size.width && point.y < self.size.height {
            proof {
                lemma_index_in_range(self@.width, self@.height, point);
            }
            let index = point.y * self.size.width + point.x;
            Some(&self.memory[index])
        } else {
            None
        }
    }

    /// A mutable handle on the pixel at `point`.
    ///
    /// Fails with `DrawOOB` when the point lies outside the bitmap; in
    /// particular the one-past-the-end index `width * height` is refused.
    pub fn pixel_at_point_mut(&mut self, point: Vector2) -> (r: Result<&mut Pixel, RenderError>)
        ensures
            old(self)@.wf(),
            final(self)@.wf(),
            r is Ok <==> old(self)@.in_bounds(point),
            r matches Err(e) ==> e == RenderError::DrawOOB && final(self)@ == old(self)@,
            r matches Ok(px) ==> {
                &&& old(self)@.read(point) == Some(*px)
                &&& final(self)@ == old(self)@.write(point, *final(px))
            },
    {
        proof {
            use_type_invariant(&*self);
        }
        if point.x < self.size.width && point.y < self.size.height {
            proof {
                lemma_index_in_range(self@.width, self@.height, point);
            }
            let index = point.y * self.size.width + point.x;
            Ok(&mut self.memory[index])
        } else {
            Err(RenderError::DrawOOB)
        }
    }

    /// Stores `pixel` at `point`; a point outside the bitmap is clipped
    /// silently, leaving the bitmap unchanged.
    pub fn draw_point(&mut self, point: Vector2, pixel: Pixel)
        ensures
            old(self)@.wf(),
            final(self)@.wf(),
            final(self)@ == old(self)@.write(point, pixel),
    {
        proof {
            use_type_invariant(&*self);
        }
        if let Ok(slot) = self.pixel_at_point_mut(point) {
            *slot = pixel;
        }
    }

    /// Fills the box of `rect` translated by `offset` with `pixel`.
    ///
    /// Both bounds are inclusive on each axis: the box covers
    /// `(rect.width + 1) * (rect.height + 1)` points, from `offset` to
    /// `offset + (rect.width, rect.height)`. Points outside the bitmap are
    /// clipped silently.
    pub fn draw_rect(&mut self, offset: Vector2, rect: Rect2, pixel: Pixel)
        ensures
            old(self)@.wf(),
            final(self)@.wf(),
            final(self)@.width == old(self)@.width,
            final(self)@.height == old(self)@.height,
            forall|q: Vector2|
                old(self)@.in_bounds(q) ==> #[trigger] final(self)@.read(q) == if in_box(
                    offset,
                    rect,
                    q,
                ) {
                    Some(pixel)
                } else {
                    old(self)@.read(q)
                },
    {
        proof {
            use_type_invariant(&*self);
        }
        let width = self.size.width;
        let height = self.size.height;
        if offset.x >= width || offset.y >= height {
            return;
        }
        let x_last = if rect.width >= width - offset.x {
            width - 1
        } else {
            offset.x + rect.width
        };
        let y_last = if rect.height >= height - offset.y {
            height - 1
        } else {
            offset.y + rect.height
        };
        let ghost start = self@;
        let mut x: usize = offset.x;
        while x <= x_last
            invariant
                offset.x <= x <= x_last + 1,
                x_last < width,
                offset.y <= y_last < height,
                start.wf(),
                start.width == width,
                start.height == height,
                self@.wf(),
                self@.width == width,
                self@.height == height,
                forall|q: Vector2|
                    start.in_bounds(q) ==> #[trigger] self@.read(q) == if offset.x <= q.x < x
                        && offset.y <= q.y <= y_last {
                        Some(pixel)
                    } else {
                        start.read(q)
                    },
            decreases x_last + 1 - x,
        {
            let mut y: usize = offset.y;
            while y <= y_last
                invariant
                    offset.x <= x <= x_last,
                    x_last < width,
                    offset.y <= y <= y_last + 1,
                    y_last < height,
                    start.wf(),
                    start.width == width,
                    start.height == height,
                    self@.wf(),
                    self@.width == width,
                    self@.height == height,
                    forall|q: Vector2|
                        start.in_bounds(q) ==> #[trigger] self@.read(q) == if (offset.x <= q.x < x
                            && offset.y <= q.y <= y_last) || (q.x == x && offset.y <= q.y < y) {
                            Some(pixel)
                        } else {
                            start.read(q)
                        },
                decreases y_last + 1 - y,
            {
                let p = Vector2 { x, y };
                let ghost before = self@;
                self.draw_point(p, pixel);
                proof {
                    lemma_write_then_read(before, p, pixel);
                    assert forall|q: Vector2| start.in_bounds(q) implies #[trigger] self@.read(q)
                        == if (offset.x <= q.x < x && offset.y <= q.y <= y_last) || (q.x == x
                        && offset.y <= q.y < y + 1) {
                        Some(pixel)
                    } else {
                        start.read(q)
                    } by {
                        if q != p {
                            lemma_write_keeps_others(before, p, pixel, q);
                        }
                    }
                }
                y = y + 1;
            }
            x = x + 1;
        }
    }
}

} // verus!
