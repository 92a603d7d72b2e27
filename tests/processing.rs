use image_proc::command::{ImageCommand, Op, Operator, Resize, Rotate};
use image_proc::pipeline::{plan, Next, Pipeline};
use image_proc::raster::{ProcessingError, Raster};

fn resize(w: u32, h: u32) -> Op {
    Op::Resize(Resize { w, h })
}

fn rotate(angle: f32) -> Op {
    Op::Rotate(Rotate { angle_bits: angle.to_bits() })
}

fn slot(op: Op) -> Operator {
    Operator { op: Some(op) }
}

fn empty() -> Operator {
    Operator { op: None }
}

fn checker(width: u32, height: u32) -> Raster {
    let mut pixels = Vec::new();
    for y in 0..height {
        for x in 0..width {
            let v = if (x + y) % 2 == 0 { 255 } else { 0 };
            pixels.extend_from_slice(&[v, v, v, 255]);
        }
    }
    Raster { pixels, width, height }
}

fn command(ops: Vec<Operator>) -> ImageCommand {
    ImageCommand { image_url: "http://x/img.png".to_string(), ops }
}

#[test]
fn empty_slots_are_dropped() {
    let ops = vec![empty(), slot(resize(1, 2)), empty(), empty(), slot(rotate(90.0)), empty()];
    assert_eq!(plan(&ops), vec![resize(1, 2), rotate(90.0)]);
    assert_eq!(plan(&vec![empty(), empty()]), Vec::<Op>::new());
    assert_eq!(plan(&vec![]), Vec::<Op>::new());
}

#[test]
fn full_slots_keep_their_order() {
    let ops = vec![slot(rotate(45.0)), slot(resize(3, 4)), slot(resize(3, 4)), slot(rotate(-10.0))];
    assert_eq!(
        plan(&ops),
        vec![rotate(45.0), resize(3, 4), resize(3, 4), rotate(-10.0)]
    );
}

#[test]
fn pipeline_runs_every_step_in_order() {
    let cmd = command(vec![slot(resize(100, 50)), empty(), slot(rotate(90.0))]);
    let mut p = Pipeline::new(&cmd);
    assert_eq!(p.next(), Next::Apply(resize(100, 50)));
    p.report(Ok(()));
    assert_eq!(p.next(), Next::Apply(rotate(90.0)));
    p.report(Ok(()));
    assert_eq!(p.next(), Next::Complete);
}

#[test]
fn pipeline_without_steps_completes() {
    let p = Pipeline::new(&command(vec![empty()]));
    assert_eq!(p.next(), Next::Complete);
}

#[test]
fn first_failure_aborts_the_pipeline() {
    let cmd = command(vec![slot(resize(10, 10)), slot(rotate(f32::NAN)), slot(resize(5, 5))]);
    let mut p = Pipeline::new(&cmd);
    let mut applied = Vec::new();
    loop {
        match p.next() {
            Next::Apply(op) => {
                applied.push(op);
                let outcome = match op {
                    Op::Resize(_) => Ok(()),
                    Op::Rotate(r) => r.check(),
                };
                p.report(outcome);
            }
            Next::Complete => panic!("the pipeline should not complete"),
            Next::Abort(e) => {
                assert_eq!(e, ProcessingError::InvalidParameters);
                break;
            }
        }
    }
    assert_eq!(applied.len(), 2);
    assert_eq!(applied[0], resize(10, 10));
    assert!(matches!(applied[1], Op::Rotate(_)));
    assert_eq!(p.next(), Next::Abort(ProcessingError::InvalidParameters));
}

#[test]
fn resize_gives_the_requested_size() {
    let img = checker(200, 200);
    let out = Resize { w: 100, h: 50 }.process(&img).unwrap();
    assert_eq!((out.width, out.height), (100, 50));
    assert_eq!(out.pixels.len(), 4 * 100 * 50);
    assert_ne!(out.pixels, img.pixels);
}

#[test]
fn resize_to_the_same_size_copies() {
    let img = checker(3, 2);
    let out = Resize { w: 3, h: 2 }.process(&img).unwrap();
    assert_eq!(out.pixels, img.pixels);
    let empty = Raster { pixels: vec![], width: 0, height: 0 };
    let same = Resize { w: 0, h: 0 }.process(&empty).unwrap();
    assert_eq!(same.pixels.len(), 0);
}

#[test]
fn resize_of_an_empty_image_is_zero_filled() {
    let empty = Raster { pixels: vec![], width: 0, height: 5 };
    let out = Resize { w: 4, h: 4 }.process(&empty).unwrap();
    assert_eq!((out.width, out.height), (4, 4));
    assert_eq!(out.pixels, vec![0u8; 4 * 4 * 4]);
    let none = Raster { pixels: vec![], width: 0, height: 0 };
    let one = Resize { w: 1, h: 1 }.process(&none).unwrap();
    assert_eq!((one.width, one.height), (1, 1));
    assert_eq!(one.pixels, vec![0u8; 4]);
}

#[test]
fn finite_angles_pass_the_check() {
    for angle in [0.0f32, 90.0, -45.5, 720.0, f32::MAX, f32::MIN_POSITIVE] {
        assert_eq!(Rotate { angle_bits: angle.to_bits() }.check(), Ok(()));
    }
}

#[test]
fn non_finite_angles_are_refused() {
    for angle in [f32::NAN, f32::INFINITY, f32::NEG_INFINITY] {
        assert_eq!(
            Rotate { angle_bits: angle.to_bits() }.check(),
            Err(ProcessingError::InvalidParameters)
        );
    }
}

#[test]
fn several_empty_slots_change_nothing() {
    let bare = vec![slot(resize(8, 9)), slot(rotate(30.0))];
    let padded = vec![empty(), empty(), slot(resize(8, 9)), empty(), empty(), empty(), slot(rotate(30.0)), empty()];
    assert_eq!(plan(&bare), plan(&padded));
}

#[test]
fn resize_beyond_any_allocation_fails() {
    let img = checker(2, 2);
    assert_eq!(
        Resize { w: u32::MAX, h: u32::MAX }.process(&img).unwrap_err(),
        ProcessingError::InvalidParameters
    );
}

#[test]
fn resize_then_rotate_round_trip() {
    let img = checker(200, 200);
    let cmd = command(vec![slot(resize(100, 50)), slot(rotate(90.0))]);
    assert_eq!(cmd.image_url, "http://x/img.png");
    let mut p = Pipeline::new(&cmd);
    let mut current = img;
    while let Next::Apply(op) = p.next() {
        current = match op {
            Op::Resize(r) => r.process(&current).unwrap(),
            Op::Rotate(r) => {
                let photo = photon_rs::PhotonImage::new(current.pixels.clone(), current.width, current.height);
                let turned = photon_rs::transform::rotate(&photo, f32::from_bits(r.angle_bits));
                Raster {
                    pixels: turned.get_raw_pixels(),
                    width: turned.get_width(),
                    height: turned.get_height(),
                }
            }
        };
        p.report(Ok(()));
    }
    assert_eq!(p.next(), Next::Complete);
    assert_eq!((current.width, current.height), (50, 100));
    let jpeg = current.to_jpeg().unwrap();
    assert_eq!(&jpeg[..2], &[0xff, 0xd8]);
}

#[test]
fn jpeg_of_a_small_image() {
    let jpeg = checker(2, 2).to_jpeg().unwrap();
    assert!(jpeg.len() > 2);
    assert_eq!(&jpeg[..2], &[0xff, 0xd8]);
    assert_eq!(jpeg, checker(2, 2).to_jpeg().unwrap());
}

#[test]
fn jpeg_needs_pixels_and_a_side_that_fits() {
    let none = Raster { pixels: vec![], width: 0, height: 0 };
    assert!(none.to_jpeg().is_none());
    let flat = Raster { pixels: vec![], width: 3, height: 0 };
    assert!(flat.to_jpeg().is_none());
    let wide = Raster { pixels: vec![0; 4 * 65536], width: 65536, height: 1 };
    assert!(wide.to_jpeg().is_none());
}
