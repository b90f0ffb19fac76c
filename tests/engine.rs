use fractal_video::generator::assembly::FrameAssembly;
use fractal_video::generator::partition::{chunk_size, pixel_position, worker_pixel_index};
use fractal_video::generator::view::ConstrainedValue;
use fractal_video::generator::{
    FractalGenerationError, FractalThreadMessage, FractalThreadState, RGBAColor,
};
use fractal_video::progress::ReportTimer;

fn test_color(x: u32, y: u32) -> RGBAColor {
    RGBAColor::new((x * 37 % 256) as u8, (y * 11 % 256) as u8, ((x + y) % 256) as u8, 255)
}

/// Runs every worker of a split, taking one step from each worker in turn,
/// and returns the assembled frame.
fn render(width: u32, height: u32, workers: usize) -> Vec<u8> {
    let pixel_count = width as usize * height as usize;
    let mut assembly = FrameAssembly::new(pixel_count, workers);
    let longest = chunk_size(pixel_count, workers, 0);
    for step in 0..longest {
        for worker in 0..workers {
            if step < chunk_size(pixel_count, workers, worker) {
                let index = worker_pixel_index(pixel_count, workers, worker, step);
                let (x, y) = pixel_position(index, width, height);
                assembly.accept(FractalThreadMessage { index, color: test_color(x, y) });
            }
        }
    }
    assert!(assembly.is_complete());
    assembly.finish().unwrap()
}

#[test]
fn one_and_four_workers_give_identical_frames() {
    let one = render(7, 5, 1);
    let four = render(7, 5, 4);
    assert_eq!(one.len(), 7 * 5 * 4);
    assert_eq!(one, four);
    // pixel (3, 2) is pixel 17
    assert_eq!(&one[17 * 4..17 * 4 + 4], &test_color(3, 2).to_bytes());
}

#[test]
fn frame_does_not_depend_on_worker_count() {
    let reference = render(6, 4, 1);
    for workers in 2..30 {
        assert_eq!(render(6, 4, workers), reference);
    }
}

#[test]
fn shares_cover_the_frame() {
    // 10 pixels among 4 workers: 3, 3, 2, 2
    assert_eq!(chunk_size(10, 4, 0), 3);
    assert_eq!(chunk_size(10, 4, 1), 3);
    assert_eq!(chunk_size(10, 4, 2), 2);
    assert_eq!(chunk_size(10, 4, 3), 2);
    assert_eq!(chunk_size(10, 1, 0), 10);
    assert_eq!(chunk_size(3, 5, 4), 0);
    let mut seen = vec![0u32; 10];
    for worker in 0..4 {
        for step in 0..chunk_size(10, 4, worker) {
            seen[worker_pixel_index(10, 4, worker, step)] += 1;
        }
    }
    assert_eq!(seen, vec![1u32; 10]);
    assert_eq!(worker_pixel_index(10, 4, 1, 2), 9);
}

#[test]
fn pixel_positions_run_row_by_row() {
    assert_eq!(pixel_position(0, 4, 3), (0, 0));
    assert_eq!(pixel_position(5, 4, 3), (1, 1));
    assert_eq!(pixel_position(11, 4, 3), (3, 2));
}

#[test]
fn missing_pixel_names_its_worker() {
    let mut assembly = FrameAssembly::new(6, 3);
    for index in 0..6 {
        if index != 4 {
            assembly.accept(FractalThreadMessage { index, color: RGBAColor::new(1, 2, 3, 4) });
        }
    }
    assert!(!assembly.is_complete());
    assert_eq!(
        assembly.finish(),
        Err(FractalGenerationError::WorkerFailed { worker: 1 })
    );
}

#[test]
fn progress_follows_the_latest_step() {
    let mut assembly = FrameAssembly::new(10, 4);
    assert_eq!(assembly.progress_report(), vec![(0, 3), (0, 3), (0, 2), (0, 2)]);
    assembly.accept(FractalThreadMessage { index: 1, color: RGBAColor::new(0, 0, 0, 255) });
    assembly.accept(FractalThreadMessage { index: 5, color: RGBAColor::new(0, 0, 0, 255) });
    assembly.accept(FractalThreadMessage { index: 2, color: RGBAColor::new(0, 0, 0, 255) });
    assert_eq!(assembly.progress(1), (2, 3));
    assert_eq!(assembly.progress(2), (1, 2));
    assert_eq!(assembly.progress_report(), vec![(0, 3), (2, 3), (1, 2), (0, 2)]);
}

#[test]
fn accepted_pixel_lands_at_its_bytes() {
    let mut assembly = FrameAssembly::new(3, 2);
    assembly.accept(FractalThreadMessage { index: 1, color: RGBAColor::new(9, 8, 7, 6) });
    assembly.accept(FractalThreadMessage { index: 0, color: RGBAColor::new(1, 2, 3, 4) });
    assembly.accept(FractalThreadMessage { index: 2, color: RGBAColor::new(5, 5, 5, 5) });
    assert_eq!(
        assembly.finish().unwrap(),
        vec![1, 2, 3, 4, 9, 8, 7, 6, 5, 5, 5, 5]
    );
}

#[test]
fn empty_frame_is_complete() {
    let assembly = FrameAssembly::new(0, 3);
    assert!(assembly.is_complete());
    assert_eq!(assembly.finish(), Ok(vec![]));
}

#[test]
fn report_timer_waits_for_more_than_the_interval() {
    let mut timer = ReportTimer::new(1_000, 100);
    assert!(!timer.is_due(1_050));
    assert!(!timer.is_due(1_100));
    assert!(timer.is_due(1_101));
    assert!(!timer.is_due(1_150));
    assert!(!timer.is_due(500));
    assert!(timer.is_due(1_202));
}

#[test]
fn worker_starts_once() {
    let mut state = FractalThreadState::NotStarted;
    assert!(state.begin());
    assert_eq!(state, FractalThreadState::Running);
    assert!(!state.begin());
    let mut finished = FractalThreadState::Finished;
    assert!(finished.begin());
}

#[test]
fn axis_constraint_bounds() {
    assert_eq!(ConstrainedValue::from_axis(false, 3, 10), ConstrainedValue::LessThanConstraint);
    assert_eq!(ConstrainedValue::from_axis(false, 30, 10), ConstrainedValue::LessThanConstraint);
    assert_eq!(ConstrainedValue::from_axis(true, 3, 10), ConstrainedValue::WithinConstraint(3));
    assert_eq!(ConstrainedValue::from_axis(true, 0, 10), ConstrainedValue::WithinConstraint(0));
    assert_eq!(ConstrainedValue::from_axis(true, 9, 10), ConstrainedValue::WithinConstraint(9));
    assert_eq!(ConstrainedValue::from_axis(true, 10, 10), ConstrainedValue::GreaterThanConstraint);
    assert_eq!(ConstrainedValue::from_axis(true, 11, 10), ConstrainedValue::GreaterThanConstraint);
}

#[test]
fn hue_sectors_place_channels() {
    let (b, i, o, f, a) = (200u8, 150u8, 100u8, 10u8, 255u8);
    assert_eq!(RGBAColor::from_sector(0, b, i, o, f, a), RGBAColor::new(b, i, f, a));
    assert_eq!(RGBAColor::from_sector(1, b, i, o, f, a), RGBAColor::new(o, b, f, a));
    assert_eq!(RGBAColor::from_sector(2, b, i, o, f, a), RGBAColor::new(f, b, i, a));
    assert_eq!(RGBAColor::from_sector(3, b, i, o, f, a), RGBAColor::new(f, o, b, a));
    assert_eq!(RGBAColor::from_sector(4, b, i, o, f, a), RGBAColor::new(i, f, b, a));
    assert_eq!(RGBAColor::from_sector(5, b, i, o, f, a), RGBAColor::new(b, f, o, a));
}

#[test]
fn color_bytes_are_rgba() {
    let c = RGBAColor::new(1, 2, 3, 4);
    assert_eq!(c.to_bytes(), [1, 2, 3, 4]);
    assert_eq!(RGBAColor::new(0, 0, 0, 255).to_bytes(), [0, 0, 0, 255]);
}
