//! A row-major pixel buffer and an interpreter for drawing commands over it.
//! `render_canvas` simulates one paint pass on the fixed canvas and is proved
//! to leave exactly the scene's pixels.

use vstd::prelude::*;
use vstd::arithmetic::div_mod::lemma_fundamental_div_mod_converse;
use vstd::arithmetic::mul::lemma_mul_inequality;
use crate::color::Rgb8;
use crate::scene::{
    DrawOp, op_pixel, ops_pixel, lemma_ops_pixel_push, lemma_paint_pass_scene, spec_scene_pixel,
    background, canvas_size, paint_ops, CANVAS_HEIGHT, CANVAS_WIDTH,
};

verus! {

/// Where the pixel at column x, row y sits in a row-major buffer of the
/// given width, and how the position is recovered from the flat index.
proof fn lemma_flat_index(width: int, height: int, x: int, y: int)
    requires
        0 <= x < width,
        0 <= y < height,
    ensures
        0 <= y * width + x < width * height,
        (y * width + x) % width == x,
        (y * width + x) / width == y,
{
    lemma_mul_inequality(y, height - 1, width);
    assert((height - 1) * width == height * width - width) by (nonlinear_arith);
    assert(width * height == height * width) by (nonlinear_arith);
    lemma_fundamental_div_mod_converse(y * width + x, width, y, x);
}

/// A width by height pixel buffer in row-major order.
pub struct Pixmap {
    width: usize,
    height: usize,
    pixels: Vec<Rgb8>,
}

impl Pixmap {
    /// Width of the buffer, in pixels.
    pub closed spec fn spec_width(self) -> int {
        self.width as int
    }

    /// Height of the buffer, in pixels.
    pub closed spec fn spec_height(self) -> int {
        self.height as int
    }

    /// A pixmap is well formed when it holds exactly width * height pixels.
    pub closed spec fn wf(self) -> bool {
        self.pixels@.len() == self.width as int * self.height as int
    }

    /// The pixel stored at column x, row y.
    pub closed spec fn spec_pixel(self, x: int, y: int) -> Rgb8 {
        self.pixels@[y * self.width as int + x]
    }

    /// A fresh buffer with every pixel set to `fill`.
    pub fn new(width: usize, height: usize, fill: Rgb8) -> (p: Pixmap)
        requires
            width as int * height as int <= usize::MAX as int,
        ensures
            p.wf(),
            p.spec_width() == width as int,
            p.spec_height() == height as int,
            forall|x: int, y: int|
                0 <= x < width as int && 0 <= y < height as int
                    ==> #[trigger] p.spec_pixel(x, y) == fill,
    {
        let n: usize = width * height;
        let mut pixels: Vec<Rgb8> = Vec::new();
        while pixels.len() < n
            invariant
                pixels@.len() <= n,
                forall|i: int| 0 <= i < pixels@.len() ==> pixels@[i] == fill,
            decreases n - pixels@.len(),
        {
            pixels.push(fill);
        }
        let p = Pixmap { width, height, pixels };
        proof {
            assert forall|x: int, y: int|
                0 <= x < width as int && 0 <= y < height as int
                    implies #[trigger] p.spec_pixel(x, y) == fill by {
                lemma_flat_index(width as int, height as int, x, y);
            }
        }
        p
    }

    /// Width of the buffer, in pixels.
    pub fn width(&self) -> (w: usize)
        ensures
            w as int == self.spec_width(),
    {
        self.width
    }

    /// Height of the buffer, in pixels.
    pub fn height(&self) -> (h: usize)
        ensures
            h as int == self.spec_height(),
    {
        self.height
    }

    /// The pixel at column x, row y.
    pub fn pixel(&self, x: usize, y: usize) -> (p: Rgb8)
        requires
            self.wf(),
            (x as int) < self.spec_width(),
            (y as int) < self.spec_height(),
        ensures
            p == self.spec_pixel(x as int, y as int),
    {
        let n = self.pixels.len();
        proof {
            lemma_flat_index(self.width as int, self.height as int, x as int, y as int);
            assert((y as int) * (self.width as int) + (x as int) < (n as int));
        }
        let idx: usize = y * self.width + x;
        self.pixels[idx]
    }

    /// Applies one drawing command to every pixel of the buffer.
    pub fn apply(&mut self, op: DrawOp)
        requires
            old(self).wf(),
            op.wf(),
        ensures
            final(self).wf(),
            final(self).spec_width() == old(self).spec_width(),
            final(self).spec_height() == old(self).spec_height(),
            forall|x: int, y: int|
                0 <= x < old(self).spec_width() && 0 <= y < old(self).spec_height()
                    ==> #[trigger] final(self).spec_pixel(x, y)
                        == op_pixel(op, x, y, old(self).spec_pixel(x, y)),
    {
        let w = self.width;
        let h = self.height;
        let n = self.pixels.len();
        match op {
            DrawOp::PaintAll(c) => {
                let v = c.to_rgb8();
                let mut i: usize = 0;
                while i < n
                    invariant
                        i <= n,
                        self.width == w,
                        self.height == h,
                        w == old(self).width,
                        h == old(self).height,
                        self.pixels@.len() == n,
                        n == old(self).pixels@.len(),
                        old(self).wf(),
                        forall|j: int| 0 <= j < i ==> self.pixels@[j] == v,
                        forall|j: int| i <= j < n ==> self.pixels@[j] == old(self).pixels@[j],
                    decreases n - i,
                {
                    self.pixels[i] = v;
                    i += 1;
                }
                proof {
                    assert forall|x: int, y: int|
                        0 <= x < old(self).spec_width() && 0 <= y < old(self).spec_height()
                            implies #[trigger] self.spec_pixel(x, y)
                                == op_pixel(op, x, y, old(self).spec_pixel(x, y)) by {
                        lemma_flat_index(w as int, h as int, x, y);
                    }
                }
            },
            DrawOp::FillRect(r, c) => {
                let v = c.to_rgb8();
                let mut i: usize = 0;
                while i < n
                    invariant
                        i <= n,
                        self.width == w,
                        self.height == h,
                        w == old(self).width,
                        h == old(self).height,
                        self.pixels@.len() == n,
                        n == old(self).pixels@.len(),
                        old(self).wf(),
                        op == DrawOp::FillRect(r, c),
                        v == crate::color::spec_to_rgb8(c),
                        forall|j: int| 0 <= j < i
                            ==> self.pixels@[j]
                                == op_pixel(op, j % (w as int), j / (w as int), old(self).pixels@[j]),
                        forall|j: int| i <= j < n ==> self.pixels@[j] == old(self).pixels@[j],
                    decreases n - i,
                {
                    proof {
                        if w == 0 {
                            assert(w as int * h as int == 0) by (nonlinear_arith)
                                requires w == 0;
                            assert(n == 0);
                            assert(false);
                        }
                    }
                    let x = i % w;
                    let y = i / w;
                    if r.contains(x, y) {
                        self.pixels[i] = v;
                    }
                    i += 1;
                }
                proof {
                    assert forall|x: int, y: int|
                        0 <= x < old(self).spec_width() && 0 <= y < old(self).spec_height()
                            implies #[trigger] self.spec_pixel(x, y)
                                == op_pixel(op, x, y, old(self).spec_pixel(x, y)) by {
                        lemma_flat_index(w as int, h as int, x, y);
                    }
                }
            },
        }
    }

    /// Applies a command list in order to every pixel of the buffer.
    pub fn apply_all(&mut self, ops: &Vec<DrawOp>)
        requires
            old(self).wf(),
            forall|k: int| 0 <= k < ops@.len() ==> (#[trigger] ops@[k]).wf(),
        ensures
            final(self).wf(),
            final(self).spec_width() == old(self).spec_width(),
            final(self).spec_height() == old(self).spec_height(),
            forall|x: int, y: int|
                0 <= x < old(self).spec_width() && 0 <= y < old(self).spec_height()
                    ==> #[trigger] final(self).spec_pixel(x, y)
                        == ops_pixel(ops@, x, y, old(self).spec_pixel(x, y)),
    {
        let mut k: usize = 0;
        proof {
            assert(ops@.take(0) =~= Seq::<DrawOp>::empty());
        }
        while k < ops.len()
            invariant
                k <= ops@.len(),
                self.wf(),
                self.spec_width() == old(self).spec_width(),
                self.spec_height() == old(self).spec_height(),
                forall|kk: int| 0 <= kk < ops@.len() ==> (#[trigger] ops@[kk]).wf(),
                forall|x: int, y: int|
                    0 <= x < old(self).spec_width() && 0 <= y < old(self).spec_height()
                        ==> #[trigger] self.spec_pixel(x, y)
                            == ops_pixel(ops@.take(k as int), x, y, old(self).spec_pixel(x, y)),
            decreases ops@.len() - k,
        {
            let ghost prev = *self;
            let op = ops[k];
            self.apply(op);
            proof {
                assert(ops@.take(k as int + 1) =~= ops@.take(k as int).push(ops@[k as int]));
                assert forall|x: int, y: int|
                    0 <= x < old(self).spec_width() && 0 <= y < old(self).spec_height()
                        implies #[trigger] self.spec_pixel(x, y)
                            == ops_pixel(ops@.take(k as int + 1), x, y, old(self).spec_pixel(x, y)) by {
                    lemma_ops_pixel_push(
                        ops@.take(k as int),
                        ops@[k as int],
                        x,
                        y,
                        old(self).spec_pixel(x, y),
                    );
                    assert(self.spec_pixel(x, y) == op_pixel(op, x, y, prev.spec_pixel(x, y)));
                }
            }
            k += 1;
        }
        proof {
            assert(ops@.take(ops@.len() as int) =~= ops@);
        }
    }
}

/// One simulated paint pass on the fixed canvas: an `CANVAS_WIDTH` by
/// `CANVAS_HEIGHT` buffer holding exactly the scene — the rectangle's color
/// on the fixed rectangle, the background color everywhere else.
pub fn render_canvas() -> (p: Pixmap)
    ensures
        p.wf(),
        p.spec_width() == CANVAS_WIDTH as int,
        p.spec_height() == CANVAS_HEIGHT as int,
        forall|x: int, y: int|
            0 <= x < CANVAS_WIDTH as int && 0 <= y < CANVAS_HEIGHT as int
                ==> #[trigger] p.spec_pixel(x, y) == spec_scene_pixel(x, y),
{
    let (w, h) = canvas_size();
    let start = background().to_rgb8();
    let mut p = Pixmap::new(w, h, start);
    let ops = paint_ops();
    let ghost blank = p;
    p.apply_all(&ops);
    proof {
        assert forall|x: int, y: int|
            0 <= x < CANVAS_WIDTH as int && 0 <= y < CANVAS_HEIGHT as int
                implies #[trigger] p.spec_pixel(x, y) == spec_scene_pixel(x, y) by {
            lemma_paint_pass_scene(x, y, blank.spec_pixel(x, y));
        }
    }
    p
}

} // verus!
