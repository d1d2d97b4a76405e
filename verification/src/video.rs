//! The top-level video session: output path, resolution and frame rate,
//! the scene registry, and the command timeline.
//!
//! A session is built up by `add_shape`, `edit_shape` and `wait`; the
//! recorded timeline is then drained once by the renderer.  The exact
//! argument list of the external encoder is also built here, so that the
//! byte-stream contract (raw RGBA frames, declared size and rate) is
//! pinned down inside the library.
use vstd::prelude::*;
use crate::draw::{DrawCommand, DrawCommands, WAIT_LIMIT};
use crate::registry::{lemma_snapshot_wf, spec_snapshot, SceneRegistry};
use crate::shapes::Shape;

verus! {

/// The output resolution in pixels.  Both sides must be positive and
/// even for encoder compatibility with 4:2:0 chroma subsampling.
#[derive(Clone, Copy, PartialEq, Eq, Structural, Debug)]
pub struct Resolution {
    pub width: u32,
    pub height: u32,
}

impl Resolution {
    pub open spec fn wf(self) -> bool {
        &&& self.width >= 2
        &&& self.width % 2 == 0
        &&& self.height >= 2
        &&& self.height % 2 == 0
    }
}

/// The decimal digit character for a value below ten.
pub open spec fn dec_digit(d: int) -> char {
    if d == 0 {
        '0'
    } else if d == 1 {
        '1'
    } else if d == 2 {
        '2'
    } else if d == 3 {
        '3'
    } else if d == 4 {
        '4'
    } else if d == 5 {
        '5'
    } else if d == 6 {
        '6'
    } else if d == 7 {
        '7'
    } else if d == 8 {
        '8'
    } else {
        '9'
    }
}

/// The decimal representation of a number, most significant digit first,
/// with no leading zeros (a single zero for zero itself).
pub open spec fn dec_rep(n: nat) -> Seq<char>
    decreases n,
{
    if n < 10 {
        seq![dec_digit(n as int)]
    } else {
        dec_rep(n / 10) + seq![dec_digit((n % 10) as int)]
    }
}

/// Appends the digit character of `d` to the string.
fn push_digit(s: &mut String, d: u32)
    requires
        d < 10,
    ensures
        final(s)@ == old(s)@ + seq![dec_digit(d as int)],
{
    if d == 0 {
        proof {
            reveal_strlit("0");
            assert("0"@ =~= seq![dec_digit(0)]);
        }
        s.append("0");
    } else if d == 1 {
        proof {
            reveal_strlit("1");
            assert("1"@ =~= seq![dec_digit(1)]);
        }
        s.append("1");
    } else if d == 2 {
        proof {
            reveal_strlit("2");
            assert("2"@ =~= seq![dec_digit(2)]);
        }
        s.append("2");
    } else if d == 3 {
        proof {
            reveal_strlit("3");
            assert("3"@ =~= seq![dec_digit(3)]);
        }
        s.append("3");
    } else if d == 4 {
        proof {
            reveal_strlit("4");
            assert("4"@ =~= seq![dec_digit(4)]);
        }
        s.append("4");
    } else if d == 5 {
        proof {
            reveal_strlit("5");
            assert("5"@ =~= seq![dec_digit(5)]);
        }
        s.append("5");
    } else if d == 6 {
        proof {
            reveal_strlit("6");
            assert("6"@ =~= seq![dec_digit(6)]);
        }
        s.append("6");
    } else if d == 7 {
        proof {
            reveal_strlit("7");
            assert("7"@ =~= seq![dec_digit(7)]);
        }
        s.append("7");
    } else if d == 8 {
        proof {
            reveal_strlit("8");
            assert("8"@ =~= seq![dec_digit(8)]);
        }
        s.append("8");
    } else {
        proof {
            reveal_strlit("9");
            assert("9"@ =~= seq![dec_digit(9)]);
        }
        s.append("9");
    }
}

/// The decimal string of a number, exactly `dec_rep` of it.
pub fn u32_dec(n: u32) -> (s: String)
    ensures
        s@ == dec_rep(n as nat),
    decreases n,
{
    if n < 10 {
        let mut s: String = String::new();
        push_digit(&mut s, n);
        proof {
            assert(s@ =~= dec_rep(n as nat));
        }
        s
    } else {
        let mut s: String = u32_dec(n / 10);
        push_digit(&mut s, n % 10);
        proof {
            assert(s@ =~= dec_rep(n as nat));
        }
        s
    }
}

/// The encoder's size argument: `width`, the letter `x`, `height`.
pub open spec fn size_arg(width: u32, height: u32) -> Seq<char> {
    dec_rep(width as nat) + seq!['x'] + dec_rep(height as nat)
}

/// The video session.
pub struct Video {
    pub path: String,
    pub resolution: Resolution,
    pub fps: u32,
    pub draw_commands: DrawCommands,
    pub shapes: SceneRegistry,
}

impl Video {
    /// A valid session: sound resolution and frame rate, a registry of
    /// well-formed shapes under unique increasing ids, and a timeline of
    /// well-formed commands.
    pub open spec fn wf(self) -> bool {
        &&& self.resolution.wf()
        &&& self.fps >= 1
        &&& self.shapes.wf()
        &&& self.shapes.shapes_wf()
        &&& self.draw_commands.wf()
    }

    /// A fresh session for the given output path, resolution and frame
    /// rate, with no shapes and an empty timeline.
    pub fn new(path: String, resolution: (u32, u32), fps: u32) -> (v: Video)
        requires
            resolution.0 >= 2,
            resolution.0 % 2 == 0,
            resolution.1 >= 2,
            resolution.1 % 2 == 0,
            fps >= 1,
        ensures
            v.wf(),
            v.path == path,
            v.resolution == (Resolution { width: resolution.0, height: resolution.1 }),
            v.fps == fps,
            v.draw_commands.commands@ == Seq::<DrawCommand>::empty(),
            v.shapes.entries@ == Seq::<(usize, Shape)>::empty(),
            v.shapes.next_id == 0,
    {
        Video {
            path,
            resolution: Resolution { width: resolution.0, height: resolution.1 },
            fps,
            draw_commands: DrawCommands::new(),
            shapes: SceneRegistry::new(),
        }
    }

    /// Registers a shape and returns its fresh id.  The timeline is not
    /// touched: the shape becomes visible at the next `wait`.
    pub fn add_shape(&mut self, shape: Shape) -> (id: usize)
        requires
            old(self).wf(),
            shape.wf(),
            old(self).shapes.next_id < usize::MAX,
        ensures
            final(self).wf(),
            id == old(self).shapes.next_id,
            final(self).shapes.entries@ == old(self).shapes.entries@.push((id, shape)),
            final(self).shapes.next_id == old(self).shapes.next_id + 1,
            final(self).draw_commands == old(self).draw_commands,
            final(self).path == old(self).path,
            final(self).resolution == old(self).resolution,
            final(self).fps == old(self).fps,
    {
        self.shapes.add(shape)
    }

    /// Applies the pure transform to the shape under `id`, atomically;
    /// an absent id leaves the registry exactly as it was.
    pub fn edit_shape<F: Fn(Shape) -> Shape>(&mut self, id: usize, transform: F)
        requires
            old(self).wf(),
            forall|args: (Shape,)| #[trigger] call_requires(transform, args),
            forall|s: Shape, v: Shape|
                #[trigger] call_ensures(transform, (s,), v) ==> s.wf() ==> v.wf(),
        ensures
            final(self).wf(),
            final(self).shapes.next_id == old(self).shapes.next_id,
            final(self).shapes.entries@.len() == old(self).shapes.entries@.len(),
            forall|i: int|
                0 <= i < old(self).shapes.entries@.len() && old(self).shapes.entries@[i].0 != id
                    ==> final(self).shapes.entries@[i] == old(self).shapes.entries@[i],
            forall|i: int|
                0 <= i < old(self).shapes.entries@.len() && (#[trigger] old(
                    self,
                ).shapes.entries@[i]).0 == id ==> final(self).shapes.entries@[i].0 == id
                    && call_ensures(
                    transform,
                    (old(self).shapes.entries@[i].1,),
                    final(self).shapes.entries@[i].1,
                ),
            !old(self).shapes.spec_contains(id) ==> final(self).shapes.entries@ == old(
                self,
            ).shapes.entries@,
            final(self).draw_commands == old(self).draw_commands,
            final(self).path == old(self).path,
            final(self).resolution == old(self).resolution,
            final(self).fps == old(self).fps,
    {
        self.shapes.edit(id, transform);
        proof {
            assert forall|i: int|
                0 <= i < self.shapes.entries@.len() implies (#[trigger] self.shapes.entries@[i]).1.wf() by {
                if old(self).shapes.entries@[i].0 == id {
                    assert(call_ensures(
                        transform,
                        (old(self).shapes.entries@[i].1,),
                        self.shapes.entries@[i].1,
                    ));
                    assert(old(self).shapes.entries@[i].1.wf());
                } else {
                    assert(self.shapes.entries@[i] == old(self).shapes.entries@[i]);
                }
            }
        }
    }

    /// Advances scene time: appends the drawing commands of every
    /// registered shape, in registry order, and then a hold of `millis`
    /// milliseconds, during which the composited image stays visible.
    pub fn wait(&mut self, millis: u64)
        requires
            old(self).wf(),
            millis <= WAIT_LIMIT,
        ensures
            final(self).wf(),
            final(self).draw_commands.commands@ == old(self).draw_commands.commands@
                + spec_snapshot(old(self).shapes.entries@)
                + seq![DrawCommand::Wait { millis }],
            final(self).shapes == old(self).shapes,
            final(self).path == old(self).path,
            final(self).resolution == old(self).resolution,
            final(self).fps == old(self).fps,
    {
        self.shapes.snapshot_into(&mut self.draw_commands);
        self.draw_commands.push(DrawCommand::Wait { millis });
        proof {
            lemma_snapshot_wf(old(self).shapes.entries@);
        }
    }

    /// The exact invocation of the external encoder: overwrite the
    /// output; read raw RGBA video of the declared size and frame rate
    /// from its standard input; write H.264 with 4:2:0 chroma subsampling
    /// to the configured path.
    pub fn encoder_args(&self) -> (args: Vec<String>)
        ensures
            args@.len() == 16,
            args@[0]@ == "-y"@,
            args@[1]@ == "-f"@,
            args@[2]@ == "rawvideo"@,
            args@[3]@ == "-pix_fmt"@,
            args@[4]@ == "rgba"@,
            args@[5]@ == "-s"@,
            args@[6]@ == size_arg(self.resolution.width, self.resolution.height),
            args@[7]@ == "-r"@,
            args@[8]@ == dec_rep(self.fps as nat),
            args@[9]@ == "-i"@,
            args@[10]@ == "-"@,
            args@[11]@ == "-c:v"@,
            args@[12]@ == "libx264"@,
            args@[13]@ == "-pix_fmt"@,
            args@[14]@ == "yuv420p"@,
            args@[15]@ == self.path@,
    {
        let mut size: String = u32_dec(self.resolution.width);
        proof {
            reveal_strlit("x");
            assert("x"@ =~= seq!['x']);
        }
        size.append("x");
        let height_str: String = u32_dec(self.resolution.height);
        size.append(height_str.as_str());
        proof {
            assert(size@ =~= size_arg(self.resolution.width, self.resolution.height));
        }
        let mut args: Vec<String> = Vec::new();
        args.push(String::from_str("-y"));
        args.push(String::from_str("-f"));
        args.push(String::from_str("rawvideo"));
        args.push(String::from_str("-pix_fmt"));
        args.push(String::from_str("rgba"));
        args.push(String::from_str("-s"));
        args.push(size);
        args.push(String::from_str("-r"));
        args.push(u32_dec(self.fps));
        args.push(String::from_str("-i"));
        args.push(String::from_str("-"));
        args.push(String::from_str("-c:v"));
        args.push(String::from_str("libx264"));
        args.push(String::from_str("-pix_fmt"));
        args.push(String::from_str("yuv420p"));
        args.push(String::from_str(self.path.as_str()));
        args
    }
}

} // verus!
