//! The fixed scene: the canvas size, the two colors, the one rectangle, and
//! the command list a paint pass issues. The meaning of a command list is
//! given per pixel by `ops_pixel`, and the laws at the end pin down what one
//! paint pass leaves on a surface.

use vstd::prelude::*;
use crate::color::{Color, Rgb8, spec_to_rgb8};

verus! {

/// Width of the canvas content area, in pixels.
pub const CANVAS_WIDTH: usize = 800;

/// Height of the canvas content area, in pixels.
pub const CANVAS_HEIGHT: usize = 600;

/// An axis-aligned rectangle: origin (x, y), extent w by h, in pixels.
#[derive(Clone, Copy, Debug, PartialEq, Eq, Structural)]
pub struct Rect {
    pub x: u32,
    pub y: u32,
    pub w: u32,
    pub h: u32,
}

impl Rect {
    /// Whether the point (x, y) lies inside the rectangle.
    pub open spec fn spec_contains(self, x: int, y: int) -> bool {
        &&& self.x as int <= x < self.x as int + self.w as int
        &&& self.y as int <= y < self.y as int + self.h as int
    }

    /// Whether the pixel at column x, row y lies inside the rectangle.
    pub fn contains(self, x: usize, y: usize) -> (c: bool)
        ensures
            c == self.spec_contains(x as int, y as int),
    {
        let x64 = x as u64;
        let y64 = y as u64;
        (self.x as u64) <= x64 && x64 < (self.x as u64) + (self.w as u64)
            && (self.y as u64) <= y64 && y64 < (self.y as u64) + (self.h as u64)
    }
}

/// One immediate-mode drawing command.
#[derive(Clone, Copy, Debug, PartialEq, Eq, Structural)]
pub enum DrawOp {
    /// Set the source to the color and paint the whole surface.
    PaintAll(Color),
    /// Set the source to the color and fill the rectangle.
    FillRect(Rect, Color),
}

impl DrawOp {
    /// Every color the command carries is well formed.
    pub open spec fn wf(self) -> bool {
        match self {
            DrawOp::PaintAll(c) => c.wf(),
            DrawOp::FillRect(_r, c) => c.wf(),
        }
    }
}

/// The pixel one command leaves at (x, y), given the pixel already there.
pub open spec fn op_pixel(op: DrawOp, x: int, y: int, prev: Rgb8) -> Rgb8 {
    match op {
        DrawOp::PaintAll(c) => spec_to_rgb8(c),
        DrawOp::FillRect(r, c) => if r.spec_contains(x, y) {
            spec_to_rgb8(c)
        } else {
            prev
        },
    }
}

/// The pixel a command sequence leaves at (x, y), applied left to right.
pub open spec fn ops_pixel(ops: Seq<DrawOp>, x: int, y: int, prev: Rgb8) -> Rgb8
    decreases ops.len(),
{
    if ops.len() == 0 {
        prev
    } else {
        ops_pixel(ops.drop_first(), x, y, op_pixel(ops[0], x, y, prev))
    }
}

/// Appending a command to a sequence applies it last.
pub proof fn lemma_ops_pixel_push(ops: Seq<DrawOp>, op: DrawOp, x: int, y: int, prev: Rgb8)
    ensures
        ops_pixel(ops.push(op), x, y, prev) == op_pixel(op, x, y, ops_pixel(ops, x, y, prev)),
    decreases ops.len(),
{
    let s = ops.push(op);
    if ops.len() == 0 {
        assert(s[0] == op);
        assert(s.drop_first() =~= Seq::<DrawOp>::empty());
        assert(ops_pixel(s, x, y, prev)
            == ops_pixel(s.drop_first(), x, y, op_pixel(op, x, y, prev)));
        assert(ops_pixel(s.drop_first(), x, y, op_pixel(op, x, y, prev))
            == op_pixel(op, x, y, prev));
        assert(ops_pixel(ops, x, y, prev) == prev);
    } else {
        let after = op_pixel(ops[0], x, y, prev);
        assert(s[0] == ops[0]);
        assert(s.drop_first() =~= ops.drop_first().push(op));
        assert(ops_pixel(s, x, y, prev) == ops_pixel(s.drop_first(), x, y, after));
        lemma_ops_pixel_push(ops.drop_first(), op, x, y, after);
        assert(ops_pixel(ops, x, y, prev) == ops_pixel(ops.drop_first(), x, y, after));
    }
}

/// The background color, 0.2 of full intensity on every channel.
pub open spec fn spec_background() -> Color {
    Color { r: 200, g: 200, b: 200 }
}

/// The rectangle's fill color: 0.9 red, 0.4 green, 0.4 blue.
pub open spec fn spec_rect_color() -> Color {
    Color { r: 900, g: 400, b: 400 }
}

/// The one rectangle the scene shows.
pub open spec fn spec_rectangle() -> Rect {
    Rect { x: 100, y: 100, w: 200, h: 150 }
}

/// The background color the paint pass clears the surface to.
pub fn background() -> (c: Color)
    ensures
        c == spec_background(),
        c.wf(),
{
    Color { r: 200, g: 200, b: 200 }
}

/// The fill color of the scene's rectangle.
pub fn rect_color() -> (c: Color)
    ensures
        c == spec_rect_color(),
        c.wf(),
{
    Color { r: 900, g: 400, b: 400 }
}

/// The geometry of the scene's rectangle.
pub fn rectangle() -> (r: Rect)
    ensures
        r == spec_rectangle(),
{
    Rect { x: 100, y: 100, w: 200, h: 150 }
}

/// The canvas content size handed to the windowing toolkit: exactly
/// `CANVAS_WIDTH` by `CANVAS_HEIGHT` pixels.
pub fn canvas_size() -> (s: (usize, usize))
    ensures
        s.0 == CANVAS_WIDTH,
        s.1 == CANVAS_HEIGHT,
{
    (CANVAS_WIDTH, CANVAS_HEIGHT)
}

/// The commands one paint pass issues, in order.
pub open spec fn spec_paint_ops() -> Seq<DrawOp> {
    seq![
        DrawOp::PaintAll(spec_background()),
        DrawOp::FillRect(spec_rectangle(), spec_rect_color()),
    ]
}

/// The commands one paint pass issues: exactly two, a full-surface paint in
/// the background color, then one fill of the fixed rectangle in its fixed
/// color — the same list on every invocation.
pub fn paint_ops() -> (ops: Vec<DrawOp>)
    ensures
        ops@ == spec_paint_ops(),
        ops@.len() == 2,
        ops@[0] == DrawOp::PaintAll(spec_background()),
        ops@[1] == DrawOp::FillRect(spec_rectangle(), spec_rect_color()),
        forall|k: int| 0 <= k < ops@.len() ==> (#[trigger] ops@[k]).wf(),
{
    let mut ops: Vec<DrawOp> = Vec::new();
    ops.push(DrawOp::PaintAll(background()));
    ops.push(DrawOp::FillRect(rectangle(), rect_color()));
    proof {
        assert(ops@ =~= spec_paint_ops());
    }
    ops
}

/// The pixel the fixed scene shows at (x, y): the rectangle's color inside
/// the rectangle, the background color everywhere else.
pub open spec fn spec_scene_pixel(x: int, y: int) -> Rgb8 {
    if spec_rectangle().spec_contains(x, y) {
        spec_to_rgb8(spec_rect_color())
    } else {
        spec_to_rgb8(spec_background())
    }
}

/// Law: one paint pass leaves the fixed scene at every pixel, whatever the
/// surface held there before. In particular the background covers the full
/// surface and the rectangle's fill lands exactly on the fixed geometry.
pub proof fn lemma_paint_pass_scene(x: int, y: int, prev: Rgb8)
    ensures
        ops_pixel(spec_paint_ops(), x, y, prev) == spec_scene_pixel(x, y),
{
    let ops = spec_paint_ops();
    let after0 = op_pixel(ops[0], x, y, prev);
    let tail = ops.drop_first();
    assert(tail[0] == ops[1]);
    assert(tail.drop_first() =~= Seq::<DrawOp>::empty());
    assert(ops_pixel(ops, x, y, prev) == ops_pixel(tail, x, y, after0));
    assert(ops_pixel(tail, x, y, after0)
        == ops_pixel(tail.drop_first(), x, y, op_pixel(tail[0], x, y, after0)));
}

/// Law: a paint pass is deterministic — its result at a pixel does not
/// depend on what the surface held before, so two consecutive passes leave
/// identical contents, and repainting an already painted surface changes
/// nothing.
pub proof fn lemma_paint_pass_deterministic(x: int, y: int, prev1: Rgb8, prev2: Rgb8)
    ensures
        ops_pixel(spec_paint_ops(), x, y, prev1) == ops_pixel(spec_paint_ops(), x, y, prev2),
        ops_pixel(spec_paint_ops(), x, y, ops_pixel(spec_paint_ops(), x, y, prev1))
            == ops_pixel(spec_paint_ops(), x, y, prev1),
{
    lemma_paint_pass_scene(x, y, prev1);
    lemma_paint_pass_scene(x, y, prev2);
    lemma_paint_pass_scene(x, y, ops_pixel(spec_paint_ops(), x, y, prev1));
}

} // verus!
