//! Screen colour sampling for ambient lighting.
//!
//! The crate holds the decisions of a screen-capture pipeline: which pixel
//! formats a compositor may advertise, how one capture request moves from its
//! first event to a finished frame, how the shared-memory buffer behind the
//! frames is obtained and reused, how a raw frame is brought into canonical
//! byte order, and which colour of a frame counts as its most prominent one.
//! Talking to the compositor, to the kernel and to the light is left to the
//! program around it.

pub mod capture;
pub mod emit;
pub mod error;
pub mod frame;
pub mod normalize;
pub mod prominent_color;
pub mod shm;
pub mod single;

pub use capture::{
    capture_output_frame, setup_capture, BufferAction, CaptureAction, FrameCaptureState, FrameCapturer,
    FrameEvent,
};
pub use emit::ColorEmitter;
pub use error::CaptureError;
pub use frame::{ColorLayout, FrameCopy, FrameFormat, PixelFormat};
pub use normalize::{normalize, normalize_advertised};
pub use prominent_color::{determine_prominent_color, Color};
pub use shm::{Outcome, ShmAction, ShmAllocation, ShmState, SysError};
