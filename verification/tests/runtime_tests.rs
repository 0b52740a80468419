use sss::controls::{camera_step, window_action, CameraStep, Direction, Key, WindowAction, WindowInput};
use sss::sampling::{default_samples_per_frame, idle_step, redraw_step, IdleAction, RedrawAction, SampleCounter};

#[test]
fn samples_per_frame_defaults_to_ten() {
    assert_eq!(default_samples_per_frame(), 10);
}

#[test]
fn counter_starts_empty() {
    let c = SampleCounter::new(100, 10);
    assert_eq!(c.sample_count(), 0);
    assert_eq!(c.target_samples(), 100);
    assert_eq!(c.samples_per_frame(), 10);
    assert!(!c.is_complete());
}

#[test]
fn batches_stop_at_the_target() {
    let mut c = SampleCounter::new(25, 10);
    let mut frames = Vec::new();
    while !c.is_complete() {
        let n = c.batch_size();
        frames.push(n);
        for _ in 0..n {
            c.record_sample();
        }
    }
    assert_eq!(frames, vec![10, 10, 5]);
    assert_eq!(c.sample_count(), 25);
    assert_eq!(c.batch_size(), 0);
}

#[test]
fn zero_target_is_complete_at_once() {
    let c = SampleCounter::new(0, 10);
    assert!(c.is_complete());
    assert_eq!(c.batch_size(), 0);
}

#[test]
fn record_sample_saturates() {
    let mut c = SampleCounter::new(u32::MAX, u32::MAX);
    for _ in 0..3 {
        c.record_sample();
    }
    assert_eq!(c.sample_count(), 3);
    assert_eq!(c.batch_size(), u32::MAX - 3);
}

#[test]
fn reset_discards_samples() {
    let mut c = SampleCounter::new(5, 3);
    c.record_sample();
    c.record_sample();
    c.reset();
    assert_eq!(c.sample_count(), 0);
    assert_eq!(c.batch_size(), 3);
    assert_eq!(c.target_samples(), 5);
}

#[test]
fn redraw_renders_then_finishes_then_presents() {
    let mut c = SampleCounter::new(1, 1);
    assert_eq!(redraw_step(&c, false), (RedrawAction::RenderBatch, false));
    assert_eq!(redraw_step(&c, true), (RedrawAction::RenderBatch, true));
    c.record_sample();
    assert_eq!(redraw_step(&c, false), (RedrawAction::Finish, true));
    assert_eq!(redraw_step(&c, true), (RedrawAction::Present, true));
}

#[test]
fn image_is_saved_once_over_many_redraws() {
    let mut c = SampleCounter::new(3, 2);
    let mut saved = false;
    let mut finishes = 0;
    for _ in 0..10 {
        let (action, now) = redraw_step(&c, saved);
        saved = now;
        match action {
            RedrawAction::RenderBatch => {
                for _ in 0..c.batch_size() {
                    c.record_sample();
                }
            }
            RedrawAction::Finish => finishes += 1,
            RedrawAction::Present => {}
        }
    }
    assert_eq!(finishes, 1);
    assert!(saved);
    assert_eq!(c.sample_count(), 3);
}

#[test]
fn frames_progress_by_per_frame() {
    let mut c = SampleCounter::new(100, 7);
    for k in 1..=20u32 {
        for _ in 0..c.batch_size() {
            c.record_sample();
        }
        assert_eq!(c.sample_count(), (7 * k).min(100));
    }
}

#[test]
fn interrupt_saves_once() {
    assert_eq!(idle_step(true, false), (IdleAction::SaveAndExit, true));
    assert_eq!(idle_step(true, true), (IdleAction::RequestRedraw, true));
    assert_eq!(idle_step(false, false), (IdleAction::RequestRedraw, false));
    assert_eq!(idle_step(false, true), (IdleAction::RequestRedraw, true));
}

#[test]
fn keys_map_to_camera_steps() {
    assert_eq!(camera_step(Key::KeyW), Some(CameraStep::Forward(Direction::Positive)));
    assert_eq!(camera_step(Key::KeyS), Some(CameraStep::Forward(Direction::Negative)));
    assert_eq!(camera_step(Key::KeyD), Some(CameraStep::Right(Direction::Positive)));
    assert_eq!(camera_step(Key::KeyA), Some(CameraStep::Right(Direction::Negative)));
    assert_eq!(camera_step(Key::Space), Some(CameraStep::Up(Direction::Positive)));
    assert_eq!(camera_step(Key::ControlLeft), Some(CameraStep::Up(Direction::Negative)));
    assert_eq!(camera_step(Key::ControlRight), Some(CameraStep::Up(Direction::Negative)));
    assert_eq!(camera_step(Key::ArrowLeft), Some(CameraStep::Yaw(Direction::Negative)));
    assert_eq!(camera_step(Key::ArrowRight), Some(CameraStep::Yaw(Direction::Positive)));
    assert_eq!(camera_step(Key::ArrowUp), Some(CameraStep::Pitch(Direction::Positive)));
    assert_eq!(camera_step(Key::ArrowDown), Some(CameraStep::Pitch(Direction::Negative)));
    assert_eq!(camera_step(Key::Escape), None);
    assert_eq!(camera_step(Key::Other), None);
}

#[test]
fn window_events_map_to_actions() {
    assert_eq!(window_action(WindowInput::CloseRequested), WindowAction::Exit);
    assert_eq!(window_action(WindowInput::KeyPressed { key: Key::Escape, repeat: true }), WindowAction::Exit);
    assert_eq!(window_action(WindowInput::KeyPressed { key: Key::KeyW, repeat: true }), WindowAction::Ignore);
    assert_eq!(
        window_action(WindowInput::KeyPressed { key: Key::KeyW, repeat: false }),
        WindowAction::CameraKey(Key::KeyW)
    );
    assert_eq!(
        window_action(WindowInput::KeyPressed { key: Key::Other, repeat: false }),
        WindowAction::CameraKey(Key::Other)
    );
    assert_eq!(window_action(WindowInput::KeyReleased), WindowAction::Ignore);
    assert_eq!(
        window_action(WindowInput::Resized { width: 640, height: 480 }),
        WindowAction::ResizeSurface { width: 640, height: 480 }
    );
    assert_eq!(window_action(WindowInput::RedrawRequested), WindowAction::Redraw);
    assert_eq!(window_action(WindowInput::Other), WindowAction::Ignore);
}
