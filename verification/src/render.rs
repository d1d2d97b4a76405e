//! The rasterizer's decision core: what each timeline command asks of the
//! GPU and of the frame stream.
//!
//! The GPU itself is outside this library.  Here every command is turned
//! into an exact plan: a triangle becomes normalized-device coordinates
//! for one draw call, a hold becomes a repeat count of the current frame,
//! and an unmapped primitive is skipped.  The pixel buffers read back from
//! the GPU arrive bottom-up and are flipped to the top-down row order the
//! encoder expects; both the flip and the frame-hold arithmetic are exact.
use vstd::prelude::*;
use vstd::arithmetic::div_mod::{
    lemma_fundamental_div_mod, lemma_fundamental_div_mod_converse_div,
    lemma_fundamental_div_mod_converse_mod, lemma_mod_division_less_than_divisor,
    lemma_multiply_divide_lt, lemma_div_pos_is_pos,
};
use vstd::arithmetic::mul::lemma_mul_inequality;
use crate::draw::DrawCommand;
use crate::registry::spec_snapshot;
use crate::shapes::Shape;

verus! {

/// The numerator of a normalized device coordinate.  Pixel space is
/// signed with the origin at the image centre, so a coordinate maps to
/// `2 * coord / dimension`; the denominator is the image width or height.
pub open spec fn ndc_num(coord: int) -> int {
    2 * coord
}

/// Where the byte at output index `k` of a vertical flip comes from: the
/// same column of the mirrored row.  Rows are `4 * width` bytes long.
pub open spec fn flip_index(k: int, width: int, height: int) -> int {
    let rb = 4 * width;
    (height - 1 - k / rb) * rb + k % rb
}

/// A pixel buffer with its row order reversed: row `0` becomes row
/// `height - 1`, byte for byte within each row.
pub open spec fn flip_spec(b: Seq<u8>, width: int, height: int) -> Seq<u8> {
    Seq::new(b.len(), |k: int| b[flip_index(k, width, height)])
}

/// The flip maps every in-range index to an in-range index, and applying
/// it twice returns to the starting index.
pub proof fn lemma_flip_index(k: int, width: int, height: int)
    requires
        width >= 1,
        height >= 1,
        0 <= k < 4 * width * height,
    ensures
        0 <= flip_index(k, width, height) < 4 * width * height,
        flip_index(flip_index(k, width, height), width, height) == k,
{
    let rb = 4 * width;
    let y = k / rb;
    let r = k % rb;
    lemma_mod_division_less_than_divisor(k, rb);
    lemma_div_pos_is_pos(k, rb);
    assert(4 * width * height == rb * height);
    lemma_multiply_divide_lt(k, rb, height);
    assert(0 <= y < height);
    let j = (height - 1 - y) * rb + r;
    assert((height - 1 - y) * rb + rb <= height * rb) by (nonlinear_arith)
        requires
            0 <= y,
            0 <= rb,
    ;
    lemma_mul_inequality(0, height - 1 - y, rb);
    assert(0 <= j < rb * height) by (nonlinear_arith)
        requires
            0 <= (height - 1 - y) * rb,
            (height - 1 - y) * rb + rb <= height * rb,
            0 <= r < rb,
            j == (height - 1 - y) * rb + r,
    ;
    lemma_fundamental_div_mod_converse_div(j, rb, height - 1 - y, r);
    lemma_fundamental_div_mod_converse_mod(j, rb, height - 1 - y, r);
    assert(j / rb == height - 1 - y);
    assert(j % rb == r);
    lemma_fundamental_div_mod(k, rb);
    assert(flip_index(j, width, height) == y * rb + r);
    assert(y * rb + r == k) by (nonlinear_arith)
        requires
            k == rb * y + r,
    ;
}

/// Vertical flip round-trips: flipping a buffer twice reproduces the
/// original buffer byte for byte.
pub proof fn lemma_flip_involution(b: Seq<u8>, width: int, height: int)
    requires
        width >= 1,
        height >= 1,
        b.len() == 4 * width * height,
    ensures
        flip_spec(flip_spec(b, width, height), width, height) == b,
{
    let f1 = flip_spec(b, width, height);
    assert forall|k: int| 0 <= k < b.len() implies flip_spec(f1, width, height)[k] == b[k] by {
        lemma_flip_index(k, width, height);
        let j = flip_index(k, width, height);
        assert(flip_spec(f1, width, height)[k] == f1[j]);
        assert(f1[j] == b[flip_index(j, width, height)]);
    }
    assert(flip_spec(f1, width, height) =~= b);
}

/// Coordinate mapping law: the pixel-space centre has both normalized
/// numerators zero, so it maps to normalized device coordinates `(0, 0)`;
/// and for an even dimension the pixel coordinate `width / 2` has
/// numerator equal to the denominator `width`, so it maps to a normalized
/// coordinate of exactly one.
pub proof fn lemma_ndc_mapping(width: u32)
    requires
        width >= 2,
        width % 2 == 0,
    ensures
        ndc_num(0) == 0,
        ndc_num((width / 2) as int) == width,
{
    lemma_fundamental_div_mod(width as int, 2);
}

/// Flips a pixel buffer of `height` rows of `4 * width` bytes each, so
/// that the GPU's bottom-up row order becomes the encoder's top-down one.
pub fn flip_vertical(buf: &Vec<u8>, width: u32, height: u32) -> (r: Vec<u8>)
    requires
        width >= 1,
        height >= 1,
        buf@.len() == 4 * width * height,
    ensures
        r@ == flip_spec(buf@, width as int, height as int),
        r@.len() == buf@.len(),
{
    let total: usize = buf.len();
    proof {
        assert(4 * width <= 4 * width * height) by (nonlinear_arith)
            requires
                height >= 1,
                width >= 1,
        ;
    }
    let rb: usize = 4 * (width as usize);
    let h: usize = height as usize;
    let mut r: Vec<u8> = Vec::new();
    let mut dy: usize = 0;
    while dy < h
        invariant
            rb == 4 * width,
            h == height,
            width >= 1,
            height >= 1,
            total == buf@.len(),
            buf@.len() == 4 * width * height,
            0 <= dy <= h,
            r@.len() == dy * rb,
            forall|k: int|
                0 <= k < r@.len() ==> r@[k] == flip_spec(
                    buf@,
                    width as int,
                    height as int,
                )[k],
        decreases h - dy,
    {
        let sy: usize = h - 1 - dy;
        proof {
            lemma_mul_inequality(sy as int, h - 1, rb as int);
            assert((h - 1) * rb + rb == h * rb) by (nonlinear_arith);
            assert(h * rb == buf@.len()) by (nonlinear_arith)
                requires
                    rb == 4 * width,
                    h == height,
                    buf@.len() == 4 * width * height,
            ;
        }
        let mut i: usize = 0;
        while i < rb
            invariant
                rb == 4 * width,
                h == height,
                width >= 1,
                height >= 1,
                total == buf@.len(),
                buf@.len() == 4 * width * height,
                0 <= dy < h,
                sy == h - 1 - dy,
                sy * rb + rb <= buf@.len(),
                0 <= i <= rb,
                r@.len() == dy * rb + i,
                forall|k: int|
                    0 <= k < r@.len() ==> r@[k] == flip_spec(
                        buf@,
                        width as int,
                        height as int,
                    )[k],
            decreases rb - i,
        {
            let idx: usize = sy * rb + i;
            let byte: u8 = buf[idx];
            proof {
                let k = dy * rb + i;
                assert(0 <= k < 4 * width * height) by (nonlinear_arith)
                    requires
                        0 <= dy < h,
                        0 <= i < rb,
                        k == dy * rb + i,
                        rb == 4 * width,
                        h == height,
                        buf@.len() == 4 * width * height,
                        h * rb == buf@.len(),
                ;
                lemma_fundamental_div_mod_converse_div(k, rb as int, dy as int, i as int);
                lemma_fundamental_div_mod_converse_mod(k, rb as int, dy as int, i as int);
                assert(flip_index(k, width as int, height as int) == idx);
                assert(flip_spec(buf@, width as int, height as int)[k] == buf@[idx as int]);
            }
            r.push(byte);
            i = i + 1;
        }
        proof {
            assert(dy * rb + rb == (dy + 1) * rb) by (nonlinear_arith);
        }
        dy = dy + 1;
    }
    proof {
        assert(h * rb == buf@.len()) by (nonlinear_arith)
            requires
                rb == 4 * width,
                h == height,
                buf@.len() == 4 * width * height,
        ;
        assert(r@ =~= flip_spec(buf@, width as int, height as int));
    }
    r
}

/// What the renderer must do for one timeline command.
#[derive(Clone, Copy, PartialEq, Eq, Structural, Debug)]
pub enum RenderAction {
    /// Upload a triangle whose normalized device coordinates are these
    /// numerators over the image width (for `x`) and height (for `y`),
    /// issue the draw call, and read the colour buffer back.
    Draw { x1: i64, y1: i64, x2: i64, y2: i64, x3: i64, y3: i64 },
    /// Write the current frame to the output stream this many times.
    Emit { frames: u64 },
    /// A primitive with no GPU mapping yet: a documented no-op.
    Skip,
}

/// The plan for one command at a given frame rate: a triangle is drawn
/// through the normalized-coordinate mapping, a hold of `millis`
/// milliseconds emits `millis * fps / 1000` copies of the current frame
/// (fractional frames are dropped, not carried over), and circles, lines
/// and dots are skipped as unmapped primitives.
pub open spec fn spec_plan(cmd: DrawCommand, fps: u32) -> RenderAction {
    match cmd {
        DrawCommand::Triangle { p1, p2, p3 } => RenderAction::Draw {
            x1: ndc_num(p1.x as int) as i64,
            y1: ndc_num(p1.y as int) as i64,
            x2: ndc_num(p2.x as int) as i64,
            y2: ndc_num(p2.y as int) as i64,
            x3: ndc_num(p3.x as int) as i64,
            y3: ndc_num(p3.y as int) as i64,
        },
        DrawCommand::Wait { millis } => RenderAction::Emit {
            frames: ((millis * fps) / 1000) as u64,
        },
        DrawCommand::Circle { p, radius } => RenderAction::Skip,
        DrawCommand::Line { p1, p2 } => RenderAction::Skip,
        DrawCommand::Dot { p } => RenderAction::Skip,
    }
}

/// How many frames a timeline asks the streamer for: the sum over its
/// holds of `millis * fps / 1000`.  Geometric commands emit nothing by
/// themselves; they only change what the next hold repeats.
pub open spec fn spec_total_frames(cmds: Seq<DrawCommand>, fps: u32) -> int
    decreases cmds.len(),
{
    if cmds.len() == 0 {
        0
    } else {
        spec_total_frames(cmds.drop_last(), fps) + match cmds.last() {
            DrawCommand::Wait { millis } => (millis * fps) / 1000,
            _ => 0,
        }
    }
}

/// The frame demand of a concatenation is the sum of the parts' demands.
pub proof fn lemma_total_frames_add(a: Seq<DrawCommand>, b: Seq<DrawCommand>, fps: u32)
    ensures
        spec_total_frames(a + b, fps) == spec_total_frames(a, fps) + spec_total_frames(b, fps),
    decreases b.len(),
{
    if b.len() == 0 {
        assert(a + b =~= a);
    } else {
        lemma_total_frames_add(a, b.drop_last(), fps);
        assert((a + b).drop_last() =~= a + b.drop_last());
        assert((a + b).last() == b.last());
    }
}

/// A scene snapshot is all geometry: it demands no frames of its own.
pub proof fn lemma_snapshot_demands_no_frames(entries: Seq<(usize, Shape)>, fps: u32)
    ensures
        spec_total_frames(spec_snapshot(entries), fps) == 0,
    decreases entries.len(),
{
    if entries.len() > 0 {
        lemma_snapshot_demands_no_frames(entries.drop_last(), fps);
        let s = entries.last().1;
        lemma_total_frames_add(spec_snapshot(entries.drop_last()), s.spec_draw(), fps);
        let cmds = s.spec_draw();
        assert(cmds.drop_last() =~= Seq::<DrawCommand>::empty());
        assert(spec_total_frames(Seq::<DrawCommand>::empty(), fps) == 0);
        match s {
            Shape::Triangle(t) => {
                assert(cmds.last() == (DrawCommand::Triangle { p1: t.p1, p2: t.p2, p3: t.p3 }));
                assert(spec_total_frames(cmds, fps) == 0);
            },
            Shape::Circle(c) => {
                assert(cmds.last() == (DrawCommand::Circle { p: c.position, radius: c.radius }));
                assert(spec_total_frames(cmds, fps) == 0);
            },
            Shape::Line(l) => {
                assert(cmds.last() == (DrawCommand::Line { p1: l.start, p2: l.end }));
                assert(spec_total_frames(cmds, fps) == 0);
            },
        }
    }
}

/// A timeline never demands a negative number of frames.
pub proof fn lemma_total_frames_nonneg(cmds: Seq<DrawCommand>, fps: u32)
    ensures
        spec_total_frames(cmds, fps) >= 0,
    decreases cmds.len(),
{
    if cmds.len() > 0 {
        lemma_total_frames_nonneg(cmds.drop_last(), fps);
        match cmds.last() {
            DrawCommand::Wait { millis } => {
                lemma_div_pos_is_pos(millis * fps, 1000);
            },
            _ => {},
        }
    }
}

/// Counts the frames a whole timeline will ask the streamer for, or
/// `None` if that count does not fit in a machine word.
pub fn frames_for_timeline(cmds: &crate::draw::DrawCommands, fps: u32) -> (r: Option<u64>)
    requires
        cmds.wf(),
    ensures
        match r {
            Some(n) => n == spec_total_frames(cmds.commands@, fps),
            None => spec_total_frames(cmds.commands@, fps) > u64::MAX,
        },
{
    let n: usize = cmds.commands.len();
    let mut acc: u64 = 0;
    let mut i: usize = 0;
    while i < n
        invariant
            cmds.wf(),
            0 <= i <= n,
            n == cmds.commands@.len(),
            acc == spec_total_frames(cmds.commands@.take(i as int), fps),
        decreases n - i,
    {
        let cmd: DrawCommand = cmds.commands[i];
        proof {
            assert(cmds.commands@[i as int].wf());
            assert(cmds.commands@.take(i + 1).drop_last() =~= cmds.commands@.take(i as int));
            assert(cmds.commands@.take(i + 1).last() == cmds.commands@[i as int]);
        }
        match cmd {
            DrawCommand::Wait { millis } => {
                proof {
                    assert(millis * fps <= crate::draw::WAIT_LIMIT * u32::MAX)
                        by (nonlinear_arith)
                        requires
                            0 <= millis <= crate::draw::WAIT_LIMIT,
                            0 <= fps <= u32::MAX,
                    ;
                }
                let term: u64 = millis * (fps as u64) / 1000;
                match acc.checked_add(term) {
                    Some(next) => {
                        acc = next;
                    },
                    None => {
                        proof {
                            let pre = cmds.commands@.take(i + 1);
                            assert(cmds.commands@ =~= pre + cmds.commands@.skip(i + 1));
                            lemma_total_frames_add(pre, cmds.commands@.skip(i + 1), fps);
                            lemma_total_frames_nonneg(cmds.commands@.skip(i + 1), fps);
                            assert(spec_total_frames(pre, fps) == acc + term);
                        }
                        return None;
                    },
                }
            },
            _ => {},
        }
        i = i + 1;
    }
    proof {
        assert(cmds.commands@.take(n as int) =~= cmds.commands@);
    }
    Some(acc)
}

/// Advancing scene time by one hold adds exactly `millis * fps / 1000`
/// frames to a session's demand, whatever shapes are visible: the
/// timeline recorded by a `wait` is the old timeline, then the snapshot
/// of the scene, then the hold itself.
pub proof fn lemma_wait_adds_frames(
    before: Seq<DrawCommand>,
    entries: Seq<(usize, Shape)>,
    millis: u64,
    fps: u32,
)
    ensures
        spec_total_frames(
            before + spec_snapshot(entries) + seq![DrawCommand::Wait { millis }],
            fps,
        ) == spec_total_frames(before, fps) + (millis * fps) / 1000,
{
    let snap = spec_snapshot(entries);
    let hold = seq![DrawCommand::Wait { millis }];
    lemma_total_frames_add(before + snap, hold, fps);
    lemma_total_frames_add(before, snap, fps);
    lemma_snapshot_demands_no_frames(entries, fps);
    assert(hold.drop_last() =~= Seq::<DrawCommand>::empty());
    assert(spec_total_frames(Seq::<DrawCommand>::empty(), fps) == 0);
    assert(hold.last() == (DrawCommand::Wait { millis }));
    assert(spec_total_frames(hold, fps) == (millis * fps) / 1000);
}

/// The frame synthesizer: the persistent raster state of one render
/// session.  It owns the current frame, initially all zero bytes, and
/// decides what every timeline command asks of the GPU and the stream.
pub struct FrameSynth {
    pub width: u32,
    pub height: u32,
    pub fps: u32,
    pub frame: Vec<u8>,
}

impl FrameSynth {
    /// The byte size of one frame: four bytes per pixel, `width * height`
    /// pixels.
    pub open spec fn area_bytes(self) -> int {
        4 * self.width * self.height
    }

    pub open spec fn wf(self) -> bool {
        &&& self.width >= 1
        &&& self.height >= 1
        &&& self.fps >= 1
        &&& self.frame@.len() == self.area_bytes()
    }

    /// A fresh session: the current frame is a blank (all-zero) buffer of
    /// exactly one frame's bytes.
    pub fn new(width: u32, height: u32, fps: u32) -> (r: FrameSynth)
        requires
            width >= 1,
            height >= 1,
            fps >= 1,
            4 * width * height <= usize::MAX,
        ensures
            r.wf(),
            r.width == width,
            r.height == height,
            r.fps == fps,
            forall|k: int| 0 <= k < r.frame@.len() ==> r.frame@[k] == 0,
    {
        proof {
            assert(4 * width <= 4 * width * height) by (nonlinear_arith)
                requires
                    width >= 1,
                    height >= 1,
            ;
            assert(4 * width * height == (4 * (width as int)) * (height as int))
                by (nonlinear_arith);
        }
        let total: usize = 4 * (width as usize) * (height as usize);
        let mut frame: Vec<u8> = Vec::new();
        let mut k: usize = 0;
        while k < total
            invariant
                0 <= k <= total,
                frame@.len() == k,
                forall|j: int| 0 <= j < frame@.len() ==> frame@[j] == 0,
            decreases total - k,
        {
            frame.push(0u8);
            k = k + 1;
        }
        FrameSynth { width, height, fps, frame }
    }

    /// The plan for one command: what the renderer does next.
    pub fn plan(&self, cmd: &DrawCommand) -> (a: RenderAction)
        requires
            cmd.wf(),
        ensures
            a == spec_plan(*cmd, self.fps),
    {
        match cmd {
            DrawCommand::Triangle { p1, p2, p3 } => RenderAction::Draw {
                x1: 2 * p1.x,
                y1: 2 * p1.y,
                x2: 2 * p2.x,
                y2: 2 * p2.y,
                x3: 2 * p3.x,
                y3: 2 * p3.y,
            },
            DrawCommand::Wait { millis } => {
                proof {
                    assert(*millis * self.fps <= crate::draw::WAIT_LIMIT * u32::MAX)
                        by (nonlinear_arith)
                        requires
                            0 <= *millis <= crate::draw::WAIT_LIMIT,
                            0 <= self.fps <= u32::MAX,
                    ;
                }
                let frames: u64 = *millis * (self.fps as u64) / 1000;
                RenderAction::Emit { frames }
            },
            DrawCommand::Circle { p: _, radius: _ } => RenderAction::Skip,
            DrawCommand::Line { p1: _, p2: _ } => RenderAction::Skip,
            DrawCommand::Dot { p: _ } => RenderAction::Skip,
        }
    }

    /// Takes a buffer read back from the GPU (bottom-up row order) and
    /// makes its vertical flip the current frame.
    pub fn load_frame(&mut self, raw: &Vec<u8>)
        requires
            old(self).wf(),
            raw@.len() == old(self).area_bytes(),
        ensures
            final(self).wf(),
            final(self).width == old(self).width,
            final(self).height == old(self).height,
            final(self).fps == old(self).fps,
            final(self).frame@ == flip_spec(
                raw@,
                old(self).width as int,
                old(self).height as int,
            ),
    {
        let flipped: Vec<u8> = flip_vertical(raw, self.width, self.height);
        self.frame = flipped;
    }

    /// An exact copy of the current frame's bytes.
    pub fn frame_copy(&self) -> (r: Vec<u8>)
        ensures
            r@ == self.frame@,
    {
        let n: usize = self.frame.len();
        let mut r: Vec<u8> = Vec::new();
        let mut k: usize = 0;
        while k < n
            invariant
                n == self.frame@.len(),
                0 <= k <= n,
                r@ == self.frame@.take(k as int),
            decreases n - k,
        {
            r.push(self.frame[k]);
            proof {
                assert(self.frame@.take(k + 1) =~= self.frame@.take(k as int).push(
                    self.frame@[k as int],
                ));
            }
            k = k + 1;
        }
        proof {
            assert(self.frame@.take(n as int) =~= self.frame@);
        }
        r
    }

    /// The frames a hold emits: exactly `count` copies of the current
    /// frame, each reproducing the same bytes.
    pub fn held_frames(&self, count: u64) -> (v: Vec<Vec<u8>>)
        requires
            self.wf(),
            count <= usize::MAX,
        ensures
            v@.len() == count,
            forall|i: int| 0 <= i < v@.len() ==> #[trigger] v@[i]@ == self.frame@,
    {
        let n: usize = count as usize;
        let mut v: Vec<Vec<u8>> = Vec::new();
        let mut k: usize = 0;
        while k < n
            invariant
                0 <= k <= n,
                v@.len() == k,
                forall|i: int| 0 <= i < v@.len() ==> #[trigger] v@[i]@ == self.frame@,
            decreases n - k,
        {
            let copy: Vec<u8> = self.frame_copy();
            v.push(copy);
            k = k + 1;
        }
        v
    }
}

} // verus!
