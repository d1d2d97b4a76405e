use framesynth::draw::DrawCommand;
use framesynth::render::{flip_vertical, frames_for_timeline, FrameSynth, RenderAction};
use framesynth::shapes::{Circle, Point, ScaleFactor, Shape, Triangle};
use framesynth::video::{u32_dec, Video};

fn pt(x: i64, y: i64, z: i64) -> Point {
    Point::new(x, y, z)
}

fn tri() -> Shape {
    Shape::Triangle(Triangle::new(pt(0, 16, 0), pt(-16, -16, 0), pt(16, -16, 0)))
}

/// Runs the renderer's decision core over a recorded timeline, standing in
/// for the GPU with `raster`: the bottom-up pixel buffer any draw call
/// would read back.  Returns the frames handed to the encoder, in order.
fn run_pipeline(video: &Video, synth: &mut FrameSynth, raster: &[u8]) -> Vec<Vec<u8>> {
    let mut frames: Vec<Vec<u8>> = Vec::new();
    for cmd in &video.draw_commands.commands {
        match synth.plan(cmd) {
            RenderAction::Draw { .. } => {
                let buf: Vec<u8> = raster.to_vec();
                synth.load_frame(&buf);
            }
            RenderAction::Emit { frames: n } => {
                let mut held = synth.held_frames(n);
                frames.append(&mut held);
            }
            RenderAction::Skip => {}
        }
    }
    frames
}

#[test]
fn flip_reverses_rows() {
    // One pixel per row, two rows.
    let buf: Vec<u8> = vec![1, 2, 3, 4, 5, 6, 7, 8];
    let flipped = flip_vertical(&buf, 1, 2);
    assert_eq!(flipped, vec![5, 6, 7, 8, 1, 2, 3, 4]);
}

#[test]
fn flip_round_trips() {
    let buf: Vec<u8> = (0u16..2 * 3 * 4).map(|b| (b % 251) as u8).collect();
    let once = flip_vertical(&buf, 2, 3);
    let twice = flip_vertical(&once, 2, 3);
    assert_eq!(twice, buf);
}

#[test]
fn wait_two_seconds_at_thirty_fps_emits_sixty_identical_frames() {
    let mut video = Video::new(String::from("out.mp4"), (4, 4), 30);
    video.add_shape(tri());
    video.wait(2000);
    let mut synth = FrameSynth::new(4, 4, 30);
    let raster: Vec<u8> = (0u16..4 * 4 * 4).map(|b| b as u8).collect();
    let frames = run_pipeline(&video, &mut synth, &raster);
    assert_eq!(frames.len(), 60);
    let expected = flip_vertical(&raster, 4, 4);
    for frame in &frames {
        assert_eq!(frame.len(), 4 * 4 * 4);
        assert_eq!(frame, &expected);
    }
}

#[test]
fn hold_count_drops_fractional_frames() {
    let synth = FrameSynth::new(4, 4, 30);
    // 50 ms at 30 fps is 1.5 frames: exactly one frame is emitted.
    match synth.plan(&DrawCommand::Wait { millis: 50 }) {
        RenderAction::Emit { frames } => assert_eq!(frames, 1),
        _ => panic!("a hold must emit frames"),
    }
}

#[test]
fn centre_maps_to_ndc_origin_and_half_width_to_one() {
    let synth = FrameSynth::new(64, 64, 10);
    let cmd = DrawCommand::Triangle {
        p1: pt(0, 0, 0),
        p2: pt(32, 0, 0),
        p3: pt(0, 32, 0),
    };
    match synth.plan(&cmd) {
        RenderAction::Draw { x1, y1, x2, y2, x3, y3 } => {
            // The centre has both numerators zero: it maps to (0, 0).
            assert_eq!((x1, y1), (0, 0));
            // Pixel x = width / 2 has numerator equal to the denominator
            // 64: it maps to normalized x = 1.0.
            assert_eq!((x2, y2), (64, 0));
            assert_eq!((x3, y3), (0, 64));
        }
        _ => panic!("a triangle must be drawn"),
    }
}

#[test]
fn end_to_end_triangle_ten_frames() {
    let mut video = Video::new(String::from("out.mp4"), (64, 64), 10);
    video.add_shape(tri());
    video.wait(1000);
    let mut synth = FrameSynth::new(64, 64, 10);
    let raster: Vec<u8> = (0u32..64 * 64 * 4).map(|b| (b % 256) as u8).collect();
    let frames = run_pipeline(&video, &mut synth, &raster);
    assert_eq!(frames.len(), 10);
    let expected = flip_vertical(&raster, 64, 64);
    for frame in &frames {
        assert_eq!(frame.len(), 64 * 64 * 4);
        assert_eq!(frame, &expected);
    }
}

#[test]
fn end_to_end_circle_degrades_to_blank_frames() {
    let mut video = Video::new(String::from("out.mp4"), (64, 64), 10);
    video.add_shape(Shape::Circle(Circle::new(pt(0, 0, 0), 20)));
    video.wait(1000);
    let mut synth = FrameSynth::new(64, 64, 10);
    let raster: Vec<u8> = vec![255; 64 * 64 * 4];
    let frames = run_pipeline(&video, &mut synth, &raster);
    // The circle has no GPU mapping: it is skipped, never rasterized, and
    // the session still emits correctly sized (blank) frames.
    assert_eq!(frames.len(), 10);
    for frame in &frames {
        assert_eq!(frame.len(), 64 * 64 * 4);
        assert!(frame.iter().all(|&b| b == 0));
    }
}

#[test]
fn edit_absent_id_is_a_no_op() {
    let mut video = Video::new(String::from("out.mp4"), (4, 4), 10);
    let id = video.add_shape(tri());
    assert_eq!(id, 0);
    let before = video.shapes.entries.clone();
    video.edit_shape(7, |s: Shape| s.scale(ScaleFactor::new(2, 1)));
    assert_eq!(video.shapes.entries, before);
    assert_eq!(video.shapes.next_id, 1);
}

#[test]
fn edit_present_id_replaces_in_place() {
    let mut video = Video::new(String::from("out.mp4"), (4, 4), 10);
    video.add_shape(Shape::Circle(Circle::new(pt(0, 0, 0), 10)));
    video.edit_shape(0, |s: Shape| s.scale(ScaleFactor::new(2, 1)));
    assert_eq!(video.shapes.entries.len(), 1);
    assert_eq!(video.shapes.entries[0].0, 0);
    match video.shapes.entries[0].1 {
        Shape::Circle(c) => assert_eq!(c.radius, 20),
        _ => panic!("the circle must stay a circle"),
    }
}

#[test]
fn ids_increase_monotonically() {
    let mut video = Video::new(String::from("out.mp4"), (4, 4), 10);
    assert_eq!(video.add_shape(tri()), 0);
    assert_eq!(video.add_shape(tri()), 1);
    assert_eq!(video.add_shape(tri()), 2);
}

#[test]
fn wait_snapshots_shapes_then_holds() {
    let mut video = Video::new(String::from("out.mp4"), (4, 4), 10);
    video.add_shape(tri());
    video.wait(500);
    let cmds = &video.draw_commands.commands;
    assert_eq!(cmds.len(), 2);
    assert!(matches!(cmds[0], DrawCommand::Triangle { .. }));
    assert!(matches!(cmds[1], DrawCommand::Wait { millis: 500 }));
}

#[test]
fn wait_with_no_shapes_records_only_the_hold() {
    let mut video = Video::new(String::from("out.mp4"), (4, 4), 10);
    video.wait(100);
    assert_eq!(video.draw_commands.commands.len(), 1);
    assert!(matches!(video.draw_commands.commands[0], DrawCommand::Wait { millis: 100 }));
}

#[test]
fn timeline_frame_count_sums_the_holds() {
    let mut video = Video::new(String::from("out.mp4"), (4, 4), 30);
    video.add_shape(tri());
    video.wait(2000);
    video.wait(500);
    video.wait(50);
    // 60 + 15 + 1 frames: fractional remainders are dropped per hold.
    assert_eq!(frames_for_timeline(&video.draw_commands, 30), Some(76));
    let empty = Video::new(String::from("out.mp4"), (4, 4), 30);
    assert_eq!(frames_for_timeline(&empty.draw_commands, 30), Some(0));
}

#[test]
fn decimal_strings() {
    assert_eq!(u32_dec(0), "0");
    assert_eq!(u32_dec(7), "7");
    assert_eq!(u32_dec(60), "60");
    assert_eq!(u32_dec(3840), "3840");
    assert_eq!(u32_dec(u32::MAX), "4294967295");
}

#[test]
fn encoder_invocation_is_exact() {
    let video = Video::new(String::from("out.mp4"), (64, 48), 10);
    let args = video.encoder_args();
    let expected = vec![
        "-y", "-f", "rawvideo", "-pix_fmt", "rgba", "-s", "64x48", "-r", "10", "-i", "-",
        "-c:v", "libx264", "-pix_fmt", "yuv420p", "out.mp4",
    ];
    assert_eq!(args, expected);
}
