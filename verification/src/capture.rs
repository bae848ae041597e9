//! One capture request, from its first event to a frame.
//!
//! The compositor answers a capture request with a series of events. The
//! state of the request is kept in a value of its own and moved on event by
//! event; what the program has to do next comes back as an action. The
//! program performs the action and hands in the next event.

use vstd::prelude::*;
use crate::error::CaptureError;
use crate::frame::{ColorLayout, FrameCopy, FrameFormat, PixelFormat, MAX_POOL_SIZE};
use crate::normalize::{normalize, normalized};

verus! {

/// Lowest version of the screen-copy capability that announces the end of
/// the buffer advertisements.
pub const SCREENCOPY_VERSION: u32 = 3;

/// Lowest version of the shared-memory capability.
pub const SHM_VERSION: u32 = 1;

/// An event of a capture request, reduced to what the capture depends on.
#[derive(Clone, Copy, Debug, PartialEq, Eq, Structural)]
pub enum FrameEvent {
    /// A shared-memory buffer layout is advertised; `format` is its wire code.
    Buffer { format: u32, width: u32, height: u32, stride: u32 },
    /// A layout for buffers of another kind is advertised.
    LinuxDmabuf,
    /// All layouts have been advertised.
    BufferDone,
    /// Flags of the frame, sent before it is ready.
    Flags,
    /// A damaged region of the frame.
    Damage,
    /// The frame has been copied into the buffer.
    Ready,
    /// The capture failed.
    Failed,
    /// An event this crate knows nothing of.
    Unknown,
}

/// How far a capture request has come.
#[derive(Clone, Copy, Debug, PartialEq, Eq, Structural)]
pub enum FrameCaptureState {
    /// No supported layout has been advertised yet.
    AwaitingFormat,
    /// A supported layout is known; the advertisements are not yet over.
    AwaitingBufferDone(FrameFormat),
    /// The copy has been asked for and has not yet ended.
    Copying(FrameFormat),
    /// The frame is in the buffer.
    Finished(FrameFormat),
    /// The request has come to nothing.
    Failed(CaptureError),
}

/// What the program has to do after an event.
#[derive(Clone, Copy, Debug, PartialEq, Eq, Structural)]
pub enum CaptureAction {
    /// Take the next event.
    Wait,
    /// Ask for the copy into a buffer of this format.
    Copy(FrameFormat),
    /// Read the frame of this format from the buffer.
    Finish(FrameFormat),
    /// Give the capture up with this error.
    Fail(CaptureError),
}

impl FrameEvent {
    /// The layout that a buffer advertisement carries, if its format is a
    /// supported one; `None` for every other event.
    pub open spec fn spec_advertised(self) -> Option<FrameFormat> {
        match self {
            FrameEvent::Buffer { format, width, height, stride } => match PixelFormat::spec_from_code(
                format,
            ) {
                Some(format) => Some(FrameFormat { format, width, height, stride }),
                None => None,
            },
            _ => None,
        }
    }

    /// The layout that a buffer advertisement carries, if its format is a
    /// supported one.
    pub fn advertised(self) -> (layout: Option<FrameFormat>)
        ensures
            layout == self.spec_advertised(),
    {
        match self {
            FrameEvent::Buffer { format, width, height, stride } => match PixelFormat::from_code(
                format,
            ) {
                Some(format) => Some(FrameFormat { format, width, height, stride }),
                None => None,
            },
            _ => None,
        }
    }
}

impl FrameCaptureState {
    /// Whether the request has ended, with a frame or without.
    pub open spec fn is_terminal(self) -> bool {
        self is Finished || self is Failed
    }

    /// The state after `event`.
    ///
    /// A failure ends the request from any state that is not yet an end. The
    /// last supported layout advertised before the end of the advertisements
    /// is the one copied; an end of the advertisements without any is a
    /// failure for want of a supported format. The copy ends with the first
    /// ready or failed event. Every other event leaves the state as it is.
    pub open spec fn spec_step(self, event: FrameEvent) -> FrameCaptureState {
        match self {
            FrameCaptureState::AwaitingFormat => match event {
                FrameEvent::Failed => FrameCaptureState::Failed(CaptureError::CaptureFailed),
                FrameEvent::BufferDone => FrameCaptureState::Failed(CaptureError::UnsupportedFormat),
                _ => match event.spec_advertised() {
                    Some(layout) => FrameCaptureState::AwaitingBufferDone(layout),
                    None => self,
                },
            },
            FrameCaptureState::AwaitingBufferDone(known) => match event {
                FrameEvent::Failed => FrameCaptureState::Failed(CaptureError::CaptureFailed),
                FrameEvent::BufferDone => FrameCaptureState::Copying(known),
                _ => match event.spec_advertised() {
                    Some(layout) => FrameCaptureState::AwaitingBufferDone(layout),
                    None => self,
                },
            },
            FrameCaptureState::Copying(layout) => match event {
                FrameEvent::Failed => FrameCaptureState::Failed(CaptureError::CaptureFailed),
                FrameEvent::Ready => FrameCaptureState::Finished(layout),
                _ => self,
            },
            FrameCaptureState::Finished(_) => self,
            FrameCaptureState::Failed(_) => self,
        }
    }

    /// What is to be done on entering state `next` from this one.
    pub open spec fn spec_action(self, next: FrameCaptureState) -> CaptureAction {
        if self.is_terminal() {
            CaptureAction::Wait
        } else {
            match next {
                FrameCaptureState::Copying(layout) if !(self is Copying) => CaptureAction::Copy(
                    layout,
                ),
                FrameCaptureState::Finished(layout) => CaptureAction::Finish(layout),
                FrameCaptureState::Failed(error) => CaptureAction::Fail(error),
                _ => CaptureAction::Wait,
            }
        }
    }

    /// The state after all of `events`, taken in order.
    pub open spec fn spec_run(self, events: Seq<FrameEvent>) -> FrameCaptureState
        decreases events.len(),
    {
        if events.len() == 0 {
            self
        } else {
            self.spec_step(events[0]).spec_run(events.drop_first())
        }
    }

    /// The state of a request that has just been made.
    pub fn new() -> (state: FrameCaptureState)
        ensures
            state == FrameCaptureState::AwaitingFormat,
    {
        FrameCaptureState::AwaitingFormat
    }

    /// Moves the request on by one event and says what is to be done next.
    /// The copy is asked for once, when the advertisements end; the frame is
    /// read once, when the copy is ready; a failure is reported once.
    pub fn step(&mut self, event: FrameEvent) -> (action: CaptureAction)
        ensures
            *final(self) == old(self).spec_step(event),
            action == old(self).spec_action(*final(self)),
    {
        let next = match *self {
            FrameCaptureState::AwaitingFormat => match event {
                FrameEvent::Failed => FrameCaptureState::Failed(CaptureError::CaptureFailed),
                FrameEvent::BufferDone => FrameCaptureState::Failed(CaptureError::UnsupportedFormat),
                _ => match event.advertised() {
                    Some(layout) => FrameCaptureState::AwaitingBufferDone(layout),
                    None => FrameCaptureState::AwaitingFormat,
                },
            },
            FrameCaptureState::AwaitingBufferDone(known) => match event {
                FrameEvent::Failed => FrameCaptureState::Failed(CaptureError::CaptureFailed),
                FrameEvent::BufferDone => FrameCaptureState::Copying(known),
                _ => match event.advertised() {
                    Some(layout) => FrameCaptureState::AwaitingBufferDone(layout),
                    None => FrameCaptureState::AwaitingBufferDone(known),
                },
            },
            FrameCaptureState::Copying(layout) => match event {
                FrameEvent::Failed => FrameCaptureState::Failed(CaptureError::CaptureFailed),
                FrameEvent::Ready => FrameCaptureState::Finished(layout),
                _ => FrameCaptureState::Copying(layout),
            },
            FrameCaptureState::Finished(layout) => FrameCaptureState::Finished(layout),
            FrameCaptureState::Failed(error) => FrameCaptureState::Failed(error),
        };
        let action = match *self {
            FrameCaptureState::Finished(_) => CaptureAction::Wait,
            FrameCaptureState::Failed(_) => CaptureAction::Wait,
            FrameCaptureState::Copying(_) => match next {
                FrameCaptureState::Finished(layout) => CaptureAction::Finish(layout),
                FrameCaptureState::Failed(error) => CaptureAction::Fail(error),
                _ => CaptureAction::Wait,
            },
            _ => match next {
                FrameCaptureState::Copying(layout) => CaptureAction::Copy(layout),
                FrameCaptureState::Finished(layout) => CaptureAction::Finish(layout),
                FrameCaptureState::Failed(error) => CaptureAction::Fail(error),
                _ => CaptureAction::Wait,
            },
        };
        *self = next;
        action
    }

    /// Moves the request on by all of `events`, in order.
    pub fn run(&mut self, events: &[FrameEvent])
        ensures
            *final(self) == old(self).spec_run(events@),
    {
        let mut i: usize = 0;
        proof {
            assert(events@.skip(0) =~= events@);
        }
        while i < events.len()
            invariant
                i <= events.len(),
                self.spec_run(events@.skip(i as int)) == old(self).spec_run(events@),
            decreases events.len() - i,
        {
            proof {
                assert(events@.skip(i as int).drop_first() =~= events@.skip(i + 1));
            }
            let _ = self.step(events[i]);
            i = i + 1;
        }
    }
}

/// A request that has ended stays as it ended, whatever events follow.
pub proof fn lemma_terminal_is_final(state: FrameCaptureState, events: Seq<FrameEvent>)
    requires
        state.is_terminal(),
    ensures
        state.spec_run(events) == state,
    decreases events.len(),
{
    if events.len() > 0 {
        lemma_terminal_is_final(state, events.drop_first());
    }
}

/// A failed event that comes before any ready event keeps the request from
/// ever finishing: no frame comes of it.
pub proof fn lemma_failed_before_ready_never_finishes(
    state: FrameCaptureState,
    events: Seq<FrameEvent>,
    i: int,
)
    requires
        !(state is Finished),
        0 <= i < events.len(),
        events[i] is Failed,
        forall|j: int| 0 <= j < i ==> !(events[j] is Ready),
    ensures
        state.spec_run(events) is Failed,
    decreases events.len(),
{
    let next = state.spec_step(events[0]);
    let rest = events.drop_first();
    if i == 0 || next is Failed {
        lemma_terminal_is_final(next, rest);
    } else {
        assert forall|j: int| 0 <= j < i - 1 implies !(rest[j] is Ready) by {
            assert(rest[j] == events[j + 1]);
        }
        lemma_failed_before_ready_never_finishes(next, rest, i - 1);
    }
}

/// Once the copy has been asked for, a failed event that comes before any
/// ready event ends the request as a failed capture: whatever the buffer
/// holds, the result is that error and never a frame.
pub proof fn lemma_failed_copy_is_capture_failed(
    layout: FrameFormat,
    events: Seq<FrameEvent>,
    i: int,
)
    requires
        0 <= i < events.len(),
        events[i] is Failed,
        forall|j: int| 0 <= j < i ==> !(events[j] is Ready),
    ensures
        FrameCaptureState::Copying(layout).spec_run(events) == FrameCaptureState::Failed(
            CaptureError::CaptureFailed,
        ),
        forall|len: nat| #[trigger]
            spec_captured_layout(FrameCaptureState::Copying(layout).spec_run(events), len) is None,
        spec_capture_error(FrameCaptureState::Copying(layout).spec_run(events))
            == CaptureError::CaptureFailed,
    decreases events.len(),
{
    let state = FrameCaptureState::Copying(layout);
    let next = state.spec_step(events[0]);
    let rest = events.drop_first();
    if events[0] is Failed {
        lemma_terminal_is_final(next, rest);
    } else {
        assert forall|j: int| 0 <= j < i - 1 implies !(rest[j] is Ready) by {
            assert(rest[j] == events[j + 1]);
        }
        lemma_failed_copy_is_capture_failed(layout, rest, i - 1);
    }
}

/// The copy is asked for at most once in a request: once it is under way,
/// or the request has ended, no event makes the program ask for it again, and
/// the request never goes back to waiting for advertisements.
pub proof fn lemma_copy_is_asked_once(state: FrameCaptureState, event: FrameEvent)
    requires
        state is Copying || state.is_terminal(),
    ensures
        !(state.spec_action(state.spec_step(event)) is Copy),
        state.spec_step(event) is Copying || state.spec_step(event).is_terminal(),
{
}

/// The end of a request is reported once: after it, every event is answered
/// by waiting.
pub proof fn lemma_end_is_reported_once(state: FrameCaptureState, event: FrameEvent)
    ensures
        state.is_terminal() ==> state.spec_action(state.spec_step(event)) == CaptureAction::Wait,
        !state.is_terminal() && state.spec_step(event).is_terminal() ==> state.spec_action(
            state.spec_step(event),
        ) != CaptureAction::Wait,
{
}

/// A request finishes only by a ready event that arrives while the copy is
/// under way.
pub proof fn lemma_finished_only_from_copying(state: FrameCaptureState, event: FrameEvent)
    requires
        !(state is Finished),
        state.spec_step(event) is Finished,
    ensures
        state is Copying,
        event is Ready,
{
}

/// Decides whether the compositor offers what a capture needs: the
/// screen-copy capability and the shared-memory capability, each at the
/// version required or a later one. The arguments are the versions
/// advertised, `None` where the capability is not advertised at all.
pub fn check_capabilities(screencopy: Option<u32>, shm: Option<u32>) -> (r: Result<
    (),
    CaptureError,
>)
    ensures
        r is Ok <==> (screencopy matches Some(v) && v >= SCREENCOPY_VERSION) && (shm matches Some(v)
            && v >= SHM_VERSION),
        r matches Err(e) ==> e == CaptureError::ProtocolError,
{
    match (screencopy, shm) {
        (Some(screencopy), Some(shm)) => {
            if screencopy >= SCREENCOPY_VERSION && shm >= SHM_VERSION {
                Ok(())
            } else {
                Err(CaptureError::ProtocolError)
            }
        },
        _ => Err(CaptureError::ProtocolError),
    }
}

/// What a capture session retains between requests: the layout of the buffer
/// it copies into and the number of bytes of shared memory behind it.
#[derive(Clone, Copy, Debug, PartialEq, Eq, Structural)]
pub struct FrameCapturer {
    pub frame_format: FrameFormat,
    pub buffer_size: u64,
}

/// What has to happen to the retained buffer before the next copy.
#[derive(Clone, Copy, Debug, PartialEq, Eq, Structural)]
pub enum BufferAction {
    /// Nothing: the layout is the one the buffer was made for.
    Reuse,
    /// The shared memory is large enough, but the buffer over it has to be
    /// made anew for the changed layout.
    Rebind,
    /// The shared memory has to grow to `size` bytes, and the buffer over it
    /// has to be made anew.
    Grow { size: u64 },
}

impl FrameCapturer {
    /// The retained layout fits the retained memory, and a pool can be made
    /// of that memory.
    pub open spec fn well_formed(self) -> bool {
        self.frame_format.spec_byte_size() <= self.buffer_size <= MAX_POOL_SIZE
    }

    /// The session as it starts out for `frame_format`: memory for exactly
    /// one frame.
    pub open spec fn spec_setup(frame_format: FrameFormat) -> FrameCapturer {
        FrameCapturer { frame_format, buffer_size: frame_format.spec_byte_size() as u64 }
    }

    /// What has to happen to the buffer before a frame of `frame_format` can
    /// be copied into it.
    pub open spec fn spec_buffer_action(self, frame_format: FrameFormat) -> BufferAction {
        if frame_format.spec_byte_size() > self.buffer_size {
            BufferAction::Grow { size: frame_format.spec_byte_size() as u64 }
        } else if frame_format == self.frame_format {
            BufferAction::Reuse
        } else {
            BufferAction::Rebind
        }
    }

    /// The session after it has been prepared for `frame_format`: the memory
    /// has grown where it had to and is never given back.
    pub open spec fn spec_prepare(self, frame_format: FrameFormat) -> FrameCapturer {
        FrameCapturer {
            frame_format,
            buffer_size: if frame_format.spec_byte_size() > self.buffer_size {
                frame_format.spec_byte_size() as u64
            } else {
                self.buffer_size
            },
        }
    }

    /// Prepares the session for a frame of `frame_format` and says what has
    /// to happen to the buffer. A layout no pool can be made for is refused,
    /// and the session stays as it was.
    pub fn prepare(&mut self, frame_format: FrameFormat) -> (r: Result<BufferAction, CaptureError>)
        ensures
            frame_format.spec_fits_pool() ==> r == Ok::<BufferAction, CaptureError>(
                old(self).spec_buffer_action(frame_format),
            ) && *final(self) == old(self).spec_prepare(frame_format),
            !frame_format.spec_fits_pool() ==> r == Err::<BufferAction, CaptureError>(
                CaptureError::AllocationError,
            ) && *final(self) == *old(self),
            old(self).well_formed() ==> final(self).well_formed(),
    {
        if !frame_format.fits_pool() {
            return Err(CaptureError::AllocationError);
        }
        let size = frame_format.byte_size();
        let action = if size > self.buffer_size {
            self.buffer_size = size;
            BufferAction::Grow { size }
        } else if frame_format == self.frame_format {
            BufferAction::Reuse
        } else {
            BufferAction::Rebind
        };
        self.frame_format = frame_format;
        Ok(action)
    }
}

/// Plans the session for a compositor that advertised `frame_format`: the
/// shared memory to obtain is that of one frame. A layout no pool can be made
/// for is refused.
pub fn setup_capture(frame_format: FrameFormat) -> (r: Result<FrameCapturer, CaptureError>)
    ensures
        frame_format.spec_fits_pool() ==> r == Ok::<FrameCapturer, CaptureError>(
            FrameCapturer::spec_setup(frame_format),
        ),
        !frame_format.spec_fits_pool() ==> r == Err::<FrameCapturer, CaptureError>(
            CaptureError::AllocationError,
        ),
        r matches Ok(capturer) ==> capturer.well_formed(),
{
    if !frame_format.fits_pool() {
        return Err(CaptureError::AllocationError);
    }
    Ok(FrameCapturer { frame_format, buffer_size: frame_format.byte_size() })
}

/// The layout of the frame that a request in `state` gives from a buffer of
/// `len` bytes: that of a finished request whose frame takes exactly `len`
/// bytes, and none otherwise.
pub open spec fn spec_captured_layout(state: FrameCaptureState, len: nat) -> Option<FrameFormat> {
    match state {
        FrameCaptureState::Finished(layout) if len == layout.spec_byte_size() => Some(layout),
        _ => None,
    }
}

/// The error with which a request in `state` ends when it gives no frame.
pub open spec fn spec_capture_error(state: FrameCaptureState) -> CaptureError {
    match state {
        FrameCaptureState::Finished(_) => CaptureError::AllocationError,
        FrameCaptureState::Failed(error) => error,
        _ => CaptureError::ProtocolError,
    }
}

/// Turns the end of a capture request into its result. `frame_mmap` is the
/// mapped buffer the compositor copied into.
///
/// A finished request gives the frame: the buffer is brought into canonical
/// order in place and lent to the frame. The buffer must hold exactly the
/// bytes of one frame; one of another length is refused as a failure of the
/// allocation. A failed request gives its error. A request that has not
/// ended gives a protocol error. Whenever no frame is given the buffer is
/// left as it was.
pub fn capture_output_frame<'a>(state: FrameCaptureState, frame_mmap: &'a mut [u8]) -> (r: Result<
    FrameCopy<'a>,
    CaptureError,
>)
    ensures
        match spec_captured_layout(state, old(frame_mmap)@.len()) {
            Some(layout) => {
                &&& r matches Ok(copy)
                &&& copy.frame_format == layout
                &&& copy.frame_color_type == ColorLayout::Rgba8
                &&& copy.frame_mmap@ == normalized(old(frame_mmap)@, layout.format)
                &&& copy.well_formed()
                &&& final(frame_mmap)@ == normalized(old(frame_mmap)@, layout.format)
            },
            None => {
                &&& r matches Err(e)
                &&& e == spec_capture_error(state)
                &&& final(frame_mmap)@ == old(frame_mmap)@
            },
        },
{
    match state {
        FrameCaptureState::Finished(layout) => {
            if frame_mmap.len() as u64 != layout.byte_size() {
                return Err(CaptureError::AllocationError);
            }
            let frame_color_type = normalize(frame_mmap, layout.format);
            Ok(FrameCopy { frame_format: layout, frame_color_type, frame_mmap: &*frame_mmap })
        },
        FrameCaptureState::Failed(error) => Err(error),
        _ => Err(CaptureError::ProtocolError),
    }
}

/// Two requests in a row for the same layout: the second finds the buffer as
/// the first left it and reuses it, with no memory obtained or grown.
pub proof fn lemma_same_layout_reuses_buffer(capturer: FrameCapturer, frame_format: FrameFormat)
    requires
        frame_format.spec_fits_pool(),
    ensures
        capturer.spec_prepare(frame_format).spec_buffer_action(frame_format) == BufferAction::Reuse,
        capturer.spec_prepare(frame_format).spec_prepare(frame_format) == capturer.spec_prepare(
            frame_format,
        ),
        FrameCapturer::spec_setup(frame_format).spec_buffer_action(frame_format)
            == BufferAction::Reuse,
        FrameCapturer::spec_setup(frame_format).spec_prepare(frame_format)
            == FrameCapturer::spec_setup(frame_format),
{
}

/// A request for a larger frame after a smaller one grows the memory already
/// there to the size of the larger frame.
pub proof fn lemma_larger_layout_grows_buffer(small: FrameFormat, large: FrameFormat)
    requires
        small.spec_fits_pool(),
        large.spec_fits_pool(),
        small.spec_byte_size() < large.spec_byte_size(),
    ensures
        FrameCapturer::spec_setup(small).spec_buffer_action(large) == (BufferAction::Grow {
            size: large.spec_byte_size() as u64,
        }),
        FrameCapturer::spec_setup(small).spec_prepare(large).buffer_size == large.spec_byte_size(),
{
}

/// The shared memory of a session never shrinks, and it grows only when a
/// frame does not fit.
pub proof fn lemma_buffer_never_shrinks(capturer: FrameCapturer, frame_format: FrameFormat)
    requires
        frame_format.spec_fits_pool(),
    ensures
        capturer.spec_prepare(frame_format).buffer_size >= capturer.buffer_size,
        capturer.spec_prepare(frame_format).buffer_size > capturer.buffer_size
            <==> capturer.spec_buffer_action(frame_format) is Grow,
{
}

} // verus!
