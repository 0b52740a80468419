//! Keyboard and window input decisions of the interactive viewer.
use vstd::prelude::*;

verus! {

/// The physical keys the viewer reacts to.
#[derive(PartialEq, Eq, Structural, Debug, Clone, Copy)]
pub enum Key {
    KeyW,
    KeyS,
    KeyD,
    KeyA,
    Space,
    ControlLeft,
    ControlRight,
    ArrowLeft,
    ArrowRight,
    ArrowUp,
    ArrowDown,
    Escape,
    Other,
}

/// Sign of a camera step.
#[derive(PartialEq, Eq, Structural, Debug, Clone, Copy)]
pub enum Direction {
    Positive,
    Negative,
}

/// One camera step: a move along the camera's flattened axes or a turn.
#[derive(PartialEq, Eq, Structural, Debug, Clone, Copy)]
pub enum CameraStep {
    Forward(Direction),
    Right(Direction),
    Up(Direction),
    Yaw(Direction),
    Pitch(Direction),
}

/// The camera step bound to each key.
pub open spec fn spec_camera_step(key: Key) -> Option<CameraStep> {
    match key {
        Key::KeyW => Some(CameraStep::Forward(Direction::Positive)),
        Key::KeyS => Some(CameraStep::Forward(Direction::Negative)),
        Key::KeyD => Some(CameraStep::Right(Direction::Positive)),
        Key::KeyA => Some(CameraStep::Right(Direction::Negative)),
        Key::Space => Some(CameraStep::Up(Direction::Positive)),
        Key::ControlLeft => Some(CameraStep::Up(Direction::Negative)),
        Key::ControlRight => Some(CameraStep::Up(Direction::Negative)),
        Key::ArrowLeft => Some(CameraStep::Yaw(Direction::Negative)),
        Key::ArrowRight => Some(CameraStep::Yaw(Direction::Positive)),
        Key::ArrowUp => Some(CameraStep::Pitch(Direction::Positive)),
        Key::ArrowDown => Some(CameraStep::Pitch(Direction::Negative)),
        Key::Escape => None,
        Key::Other => None,
    }
}

/// Each camera step has its own key (both Control keys move down): W/S move
/// forward/back, D/A right/left, Space/Control up/down, the right/left arrows
/// turn right/left and the up/down arrows tilt up/down; Escape and all other
/// keys move nothing.
pub proof fn lemma_camera_key_bindings(key: Key)
    ensures
        spec_camera_step(key) is None <==> (key == Key::Escape || key == Key::Other),
        spec_camera_step(key) == Some(CameraStep::Forward(Direction::Positive)) <==> key == Key::KeyW,
        spec_camera_step(key) == Some(CameraStep::Forward(Direction::Negative)) <==> key == Key::KeyS,
        spec_camera_step(key) == Some(CameraStep::Right(Direction::Positive)) <==> key == Key::KeyD,
        spec_camera_step(key) == Some(CameraStep::Right(Direction::Negative)) <==> key == Key::KeyA,
        spec_camera_step(key) == Some(CameraStep::Up(Direction::Positive)) <==> key == Key::Space,
        spec_camera_step(key) == Some(CameraStep::Up(Direction::Negative)) <==> (key == Key::ControlLeft
            || key == Key::ControlRight),
        spec_camera_step(key) == Some(CameraStep::Yaw(Direction::Positive)) <==> key == Key::ArrowRight,
        spec_camera_step(key) == Some(CameraStep::Yaw(Direction::Negative)) <==> key == Key::ArrowLeft,
        spec_camera_step(key) == Some(CameraStep::Pitch(Direction::Positive)) <==> key == Key::ArrowUp,
        spec_camera_step(key) == Some(CameraStep::Pitch(Direction::Negative)) <==> key == Key::ArrowDown,
{
}

/// The camera step bound to `key`, or `None` for a key that moves nothing.
pub fn camera_step(key: Key) -> (r: Option<CameraStep>)
    ensures
        r == spec_camera_step(key),
        r is None <==> (key == Key::Escape || key == Key::Other),
        r == Some(CameraStep::Forward(Direction::Positive)) <==> key == Key::KeyW,
        r == Some(CameraStep::Forward(Direction::Negative)) <==> key == Key::KeyS,
        r == Some(CameraStep::Right(Direction::Positive)) <==> key == Key::KeyD,
        r == Some(CameraStep::Right(Direction::Negative)) <==> key == Key::KeyA,
        r == Some(CameraStep::Up(Direction::Positive)) <==> key == Key::Space,
        r == Some(CameraStep::Up(Direction::Negative)) <==> (key == Key::ControlLeft || key == Key::ControlRight),
        r == Some(CameraStep::Yaw(Direction::Positive)) <==> key == Key::ArrowRight,
        r == Some(CameraStep::Yaw(Direction::Negative)) <==> key == Key::ArrowLeft,
        r == Some(CameraStep::Pitch(Direction::Positive)) <==> key == Key::ArrowUp,
        r == Some(CameraStep::Pitch(Direction::Negative)) <==> key == Key::ArrowDown,
{
    match key {
        Key::KeyW => Some(CameraStep::Forward(Direction::Positive)),
        Key::KeyS => Some(CameraStep::Forward(Direction::Negative)),
        Key::KeyD => Some(CameraStep::Right(Direction::Positive)),
        Key::KeyA => Some(CameraStep::Right(Direction::Negative)),
        Key::Space => Some(CameraStep::Up(Direction::Positive)),
        Key::ControlLeft => Some(CameraStep::Up(Direction::Negative)),
        Key::ControlRight => Some(CameraStep::Up(Direction::Negative)),
        Key::ArrowLeft => Some(CameraStep::Yaw(Direction::Negative)),
        Key::ArrowRight => Some(CameraStep::Yaw(Direction::Positive)),
        Key::ArrowUp => Some(CameraStep::Pitch(Direction::Positive)),
        Key::ArrowDown => Some(CameraStep::Pitch(Direction::Negative)),
        Key::Escape => None,
        Key::Other => None,
    }
}

/// A window event as the viewer sees it.
#[derive(PartialEq, Eq, Structural, Debug, Clone, Copy)]
pub enum WindowInput {
    CloseRequested,
    KeyPressed { key: Key, repeat: bool },
    KeyReleased,
    Resized { width: u32, height: u32 },
    RedrawRequested,
    Other,
}

/// What the viewer does with a window event.
#[derive(PartialEq, Eq, Structural, Debug, Clone, Copy)]
pub enum WindowAction {
    /// Leave the event loop.
    Exit,
    /// Apply the camera step bound to the key.
    CameraKey(Key),
    /// Resize the presentation surface.
    ResizeSurface { width: u32, height: u32 },
    /// Render and present a frame.
    Redraw,
    /// Nothing to do.
    Ignore,
}

/// The window-event decision: closing or Escape exits, held-key repeats are
/// ignored, other key presses step the camera.
pub fn window_action(input: WindowInput) -> (r: WindowAction)
    ensures
        r == (match input {
            WindowInput::CloseRequested => WindowAction::Exit,
            WindowInput::KeyPressed { key, repeat } => if key == Key::Escape {
                WindowAction::Exit
            } else if repeat {
                WindowAction::Ignore
            } else {
                WindowAction::CameraKey(key)
            },
            WindowInput::KeyReleased => WindowAction::Ignore,
            WindowInput::Resized { width, height } => WindowAction::ResizeSurface { width, height },
            WindowInput::RedrawRequested => WindowAction::Redraw,
            WindowInput::Other => WindowAction::Ignore,
        }),
{
    match input {
        WindowInput::CloseRequested => WindowAction::Exit,
        WindowInput::KeyPressed { key, repeat } => {
            if key == Key::Escape {
                WindowAction::Exit
            } else if repeat {
                WindowAction::Ignore
            } else {
                WindowAction::CameraKey(key)
            }
        },
        WindowInput::KeyReleased => WindowAction::Ignore,
        WindowInput::Resized { width, height } => WindowAction::ResizeSurface { width, height },
        WindowInput::RedrawRequested => WindowAction::Redraw,
        WindowInput::Other => WindowAction::Ignore,
    }
}

} // verus!
