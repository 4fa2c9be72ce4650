use vstd::prelude::*;
use crate::errors::CoreError;

verus! {

/// One pixel store emitted by the execution unit: color `color` at column `x`
/// of row `y`.
#[derive(Clone, Copy, Debug, PartialEq, Eq, Structural)]
pub struct PixelWrite {
    pub x: u32,
    pub y: u32,
    pub color: u32,
}

/// A row-major buffer after one pixel write: cell `y * width + x` takes the new
/// color. A write outside the `width` by `height` grid leaves the buffer
/// unchanged: that is the core's documented policy for out-of-range stores
/// emitted during a frame (they are discarded, never allowed to corrupt a
/// neighbouring cell).
pub open spec fn write_one(buf: Seq<u32>, width: nat, height: nat, w: PixelWrite) -> Seq<u32> {
    let pos = (w.y as int) * (width as int) + (w.x as int);
    if w.x < width && w.y < height && pos < buf.len() {
        buf.update(pos, w.color)
    } else {
        buf
    }
}

/// A row-major buffer after a sequence of pixel writes, applied first to last.
pub open spec fn apply_writes(buf: Seq<u32>, width: nat, height: nat, ws: Seq<PixelWrite>) -> Seq<u32>
    decreases ws.len(),
{
    if ws.len() == 0 {
        buf
    } else {
        apply_writes(write_one(buf, width, height, ws[0]), width, height, ws.drop_first())
    }
}

/// Appending one write applies it after all the others.
pub proof fn lemma_apply_writes_push(buf: Seq<u32>, width: nat, height: nat, ws: Seq<PixelWrite>, w: PixelWrite)
    ensures
        apply_writes(buf, width, height, ws.push(w))
            == write_one(apply_writes(buf, width, height, ws), width, height, w),
    decreases ws.len(),
{
    if ws.len() == 0 {
        assert(ws.push(w)[0] == w);
        assert(ws.push(w).drop_first() =~= Seq::<PixelWrite>::empty());
        assert(apply_writes(buf, width, height, ws.push(w))
            == apply_writes(write_one(buf, width, height, w), width, height, Seq::<PixelWrite>::empty()));
        assert(apply_writes(write_one(buf, width, height, w), width, height, Seq::<PixelWrite>::empty())
            == write_one(buf, width, height, w));
        assert(apply_writes(buf, width, height, ws) == buf);
    } else {
        assert(ws.push(w)[0] == ws[0]);
        assert(ws.push(w).drop_first() =~= ws.drop_first().push(w));
        let stepped = write_one(buf, width, height, ws[0]);
        assert(apply_writes(buf, width, height, ws.push(w))
            == apply_writes(stepped, width, height, ws.drop_first().push(w)));
        lemma_apply_writes_push(stepped, width, height, ws.drop_first(), w);
        assert(apply_writes(buf, width, height, ws)
            == apply_writes(stepped, width, height, ws.drop_first()));
    }
}

/// Applying a concatenation applies the two halves in order.
pub proof fn lemma_apply_writes_concat(buf: Seq<u32>, width: nat, height: nat, ws1: Seq<PixelWrite>, ws2: Seq<PixelWrite>)
    ensures
        apply_writes(buf, width, height, ws1 + ws2)
            == apply_writes(apply_writes(buf, width, height, ws1), width, height, ws2),
    decreases ws1.len(),
{
    if ws1.len() == 0 {
        assert(ws1 + ws2 =~= ws2);
    } else {
        assert((ws1 + ws2)[0] == ws1[0]);
        assert((ws1 + ws2).drop_first() =~= ws1.drop_first() + ws2);
        lemma_apply_writes_concat(write_one(buf, width, height, ws1[0]), width, height, ws1.drop_first(), ws2);
    }
}

/// The double-buffered framebuffer: a fixed-size grid of color values, stored
/// row-major. Two buffers of identical dimensions exist at all times; one is
/// the front buffer (the last completed frame, read by the host), the other the
/// back buffer (written by the execution unit during a frame). `swap` exchanges
/// the two roles in constant time; no copy is ever made.
pub struct Framebuffer {
    width: u32,
    height: u32,
    plane_a: Vec<u32>,
    plane_b: Vec<u32>,
    front_is_a: bool,
}

impl Framebuffer {
    /// The grid width in pixels, fixed at construction.
    pub closed spec fn spec_width(&self) -> u32 {
        self.width
    }

    /// The grid height in pixels, fixed at construction.
    pub closed spec fn spec_height(&self) -> u32 {
        self.height
    }

    /// The pixels of the front buffer (the last completed frame), row-major.
    pub closed spec fn front_view(&self) -> Seq<u32> {
        if self.front_is_a {
            self.plane_a@
        } else {
            self.plane_b@
        }
    }

    /// The pixels of the back buffer (the frame being written), row-major.
    pub closed spec fn back_view(&self) -> Seq<u32> {
        if self.front_is_a {
            self.plane_b@
        } else {
            self.plane_a@
        }
    }

    /// Both buffers hold exactly one cell per pixel of the declared grid.
    pub closed spec fn wf(&self) -> bool {
        &&& self.width >= 1
        &&& self.height >= 1
        &&& (self.width as int) * (self.height as int) <= usize::MAX as int
        &&& self.plane_a@.len() == (self.width as int) * (self.height as int)
        &&& self.plane_b@.len() == (self.width as int) * (self.height as int)
    }

    #[verifier::when_used_as_spec(spec_width)]
    pub fn width(&self) -> (r: u32)
        ensures
            r == self.spec_width(),
    {
        self.width
    }

    #[verifier::when_used_as_spec(spec_height)]
    pub fn height(&self) -> (r: u32)
        ensures
            r == self.spec_height(),
    {
        self.height
    }

    /// A fresh framebuffer: both buffers hold the power-on color, zero, in
    /// every cell.
    pub fn new(width: u32, height: u32) -> (r: Framebuffer)
        requires
            width >= 1,
            height >= 1,
            (width as int) * (height as int) <= usize::MAX as int,
        ensures
            r.wf(),
            r.spec_width() == width,
            r.spec_height() == height,
            r.front_view() == Seq::new((width as nat) * (height as nat), |i: int| 0u32),
            r.back_view() == Seq::new((width as nat) * (height as nat), |i: int| 0u32),
    {
        let wide: u64 = (width as u64) * (height as u64);
        let size: usize = wide as usize;
        Framebuffer {
            width,
            height,
            plane_a: zero_cells(size),
            plane_b: zero_cells(size),
            front_is_a: true,
        }
    }

    /// Exchanges the front and back roles in constant time. Called by the
    /// scheduler exactly once per completed frame, after the step loop ends.
    pub fn swap(&mut self)
        ensures
            final(self).wf() == old(self).wf(),
            final(self).spec_width() == old(self).spec_width(),
            final(self).spec_height() == old(self).spec_height(),
            final(self).front_view() == old(self).back_view(),
            final(self).back_view() == old(self).front_view(),
    {
        self.front_is_a = !self.front_is_a;
    }

    /// Read-only view of the front buffer, safe for the host to render from
    /// between frames.
    pub fn front(&self) -> (r: &Vec<u32>)
        ensures
            r@ == self.front_view(),
    {
        if self.front_is_a {
            &self.plane_a
        } else {
            &self.plane_b
        }
    }

    /// Stores one emitted pixel into the back buffer; a store outside the grid
    /// is discarded (the policy `write_one` documents). The front buffer and
    /// the dimensions are untouched.
    pub(crate) fn put(&mut self, w: PixelWrite)
        requires
            old(self).wf(),
        ensures
            final(self).wf(),
            final(self).spec_width() == old(self).spec_width(),
            final(self).spec_height() == old(self).spec_height(),
            final(self).front_view() == old(self).front_view(),
            final(self).back_view() == write_one(
                old(self).back_view(),
                old(self).spec_width() as nat,
                old(self).spec_height() as nat,
                w,
            ),
    {
        if w.x < self.width && w.y < self.height {
            proof {
                assert((w.y as int) * (self.width as int) + (w.x as int)
                    < (self.width as int) * (self.height as int)) by (nonlinear_arith)
                    requires
                        (w.y as int) < (self.height as int),
                        (w.x as int) < (self.width as int),
                        self.width >= 1,
                        self.height >= 1,
                ;
            }
            let idx: usize = (w.y as usize) * (self.width as usize) + (w.x as usize);
            if self.front_is_a {
                self.plane_b[idx] = w.color;
            } else {
                self.plane_a[idx] = w.color;
            }
        }
    }

    /// Writes one pixel of the back buffer, as a step of the active frame does;
    /// out-of-range coordinates are rejected with `OutOfBounds` and change
    /// nothing.
    pub fn write_pixel(&mut self, x: u32, y: u32, color: u32) -> (r: Result<(), CoreError>)
        requires
            old(self).wf(),
        ensures
            final(self).wf(),
            final(self).spec_width() == old(self).spec_width(),
            final(self).spec_height() == old(self).spec_height(),
            final(self).front_view() == old(self).front_view(),
            r is Ok <==> (x < old(self).spec_width() && y < old(self).spec_height()),
            r is Ok ==> final(self).back_view() == write_one(
                old(self).back_view(),
                old(self).spec_width() as nat,
                old(self).spec_height() as nat,
                PixelWrite { x, y, color },
            ),
            r is Err ==> final(self).back_view() == old(self).back_view()
                && r matches Err(CoreError::OutOfBounds),
    {
        if x < self.width && y < self.height {
            self.put(PixelWrite { x, y, color });
            Ok(())
        } else {
            Err(CoreError::OutOfBounds)
        }
    }
}

/// A vector of `len` zeroed cells: the power-on content of a buffer.
fn zero_cells(len: usize) -> (r: Vec<u32>)
    ensures
        r@ == Seq::new(len as nat, |i: int| 0u32),
{
    let mut cells: Vec<u32> = Vec::new();
    let mut i: usize = 0;
    while i < len
        invariant
            i <= len,
            cells@ == Seq::new(i as nat, |j: int| 0u32),
        decreases len - i,
    {
        cells.push(0u32);
        i = i + 1;
        proof {
            assert(cells@ =~= Seq::new(i as nat, |j: int| 0u32));
        }
    }
    cells
}

} // verus!
