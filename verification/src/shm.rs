//! Obtaining the shared memory behind the frames.
//!
//! The memory is an anonymous object of the kernel, known by a descriptor.
//! Two ways of making one are tried in order: an anonymous memory file, and,
//! where the kernel has none, a named shared-memory object whose name is taken
//! away again as soon as it is open. The steps are system calls, which this
//! crate does not make; it decides, from the outcome of each, which comes
//! next.

use vstd::prelude::*;
use crate::error::CaptureError;

verus! {

/// Why a system call failed, as far as the allocation tells failures apart.
#[derive(Clone, Copy, Debug, PartialEq, Eq, Structural)]
pub enum SysError {
    /// The call was interrupted before it did anything.
    Interrupted,
    /// The kernel does not have the call.
    Unsupported,
    /// An object of the chosen name exists already.
    AlreadyExists,
    /// Any other failure, with the number the system gave it.
    Other(i32),
}

/// How the system call that was asked for came out.
#[derive(Clone, Copy, Debug, PartialEq, Eq, Structural)]
pub enum Outcome {
    /// It succeeded and gave this descriptor.
    Descriptor(i32),
    /// It succeeded and gave nothing.
    Done,
    /// It failed.
    Error(SysError),
}

/// The system call to make next, or the end of the allocation.
#[derive(Clone, Copy, Debug, PartialEq, Eq, Structural)]
pub enum ShmAction {
    /// Create an anonymous memory file, closed on exec and open to sealing.
    CreateMemfd,
    /// Seal the file against shrinking and against further seals.
    Seal { descriptor: i32 },
    /// Create a named object for reading and writing, to the user alone,
    /// closed on exec, failing if the name is taken. With `fresh_name` a new
    /// name is to be made up first; without, the last name is tried again.
    OpenNamed { fresh_name: bool },
    /// Take the name of the object just opened away.
    Unlink { descriptor: i32 },
    /// Close the descriptor: the allocation is being given up.
    Close { descriptor: i32 },
    /// Extend the object to `size` bytes.
    Resize { descriptor: i32, size: u64 },
    /// The allocation has succeeded: the descriptor is the caller's.
    Return { descriptor: i32 },
    /// The allocation has failed, and no descriptor is left open.
    Fail(CaptureError),
}

/// How far an allocation has come.
#[derive(Clone, Copy, Debug, PartialEq, Eq, Structural)]
pub enum ShmState {
    /// An anonymous memory file is being created.
    CreatingMemfd,
    /// The memory file is being sealed.
    Sealing { descriptor: i32 },
    /// A named object is being created.
    OpeningNamed,
    /// The name of the object is being taken away.
    Unlinking { descriptor: i32 },
    /// The object is being extended to the size asked for.
    Resizing { descriptor: i32 },
    /// The descriptor is being closed after a failure.
    Closing { descriptor: i32 },
    /// The memory is there.
    Ready { descriptor: i32 },
    /// No memory could be had.
    Failed,
}

/// An allocation of at least `min_size` bytes of shared memory, under way.
#[derive(Clone, Copy, Debug, PartialEq, Eq, Structural)]
pub struct ShmAllocation {
    pub state: ShmState,
    pub min_size: u64,
}

impl ShmState {
    /// The descriptor that is open in this state, if one is.
    pub open spec fn spec_descriptor(self) -> Option<i32> {
        match self {
            ShmState::Sealing { descriptor } => Some(descriptor),
            ShmState::Unlinking { descriptor } => Some(descriptor),
            ShmState::Resizing { descriptor } => Some(descriptor),
            ShmState::Closing { descriptor } => Some(descriptor),
            ShmState::Ready { descriptor } => Some(descriptor),
            _ => None,
        }
    }

    /// The state after the system call asked for in this state came out as
    /// `outcome`.
    ///
    /// An interrupted call is made again. A kernel without memory files makes
    /// the allocation fall back on a named object; a name that is taken makes
    /// it try another. Failing to seal is of no account. A descriptor that
    /// cannot be freed of its name, or not be extended, is closed before the
    /// allocation fails. Every other failure ends the allocation at once.
    pub open spec fn spec_step(self, outcome: Outcome) -> ShmState {
        match self {
            ShmState::CreatingMemfd => match outcome {
                Outcome::Descriptor(descriptor) => ShmState::Sealing { descriptor },
                Outcome::Error(SysError::Interrupted) => ShmState::CreatingMemfd,
                Outcome::Error(SysError::Unsupported) => ShmState::OpeningNamed,
                _ => ShmState::Failed,
            },
            ShmState::Sealing { descriptor } => ShmState::Resizing { descriptor },
            ShmState::OpeningNamed => match outcome {
                Outcome::Descriptor(descriptor) => ShmState::Unlinking { descriptor },
                Outcome::Error(SysError::Interrupted) => ShmState::OpeningNamed,
                Outcome::Error(SysError::AlreadyExists) => ShmState::OpeningNamed,
                _ => ShmState::Failed,
            },
            ShmState::Unlinking { descriptor } => match outcome {
                Outcome::Error(_) => ShmState::Closing { descriptor },
                _ => ShmState::Resizing { descriptor },
            },
            ShmState::Resizing { descriptor } => match outcome {
                Outcome::Error(SysError::Interrupted) => ShmState::Resizing { descriptor },
                Outcome::Error(_) => ShmState::Closing { descriptor },
                _ => ShmState::Ready { descriptor },
            },
            ShmState::Closing { descriptor } => ShmState::Failed,
            ShmState::Ready { descriptor } => self,
            ShmState::Failed => self,
        }
    }
}

impl ShmAllocation {
    /// The allocation as it starts: with the first way of making the memory.
    pub open spec fn spec_start(min_size: u64) -> ShmAllocation {
        ShmAllocation { state: ShmState::CreatingMemfd, min_size }
    }

    /// The system call that is asked for on entering `self.state` after
    /// `outcome`.
    pub open spec fn spec_action(self, outcome: Outcome) -> ShmAction {
        match self.state {
            ShmState::CreatingMemfd => ShmAction::CreateMemfd,
            ShmState::Sealing { descriptor } => ShmAction::Seal { descriptor },
            ShmState::OpeningNamed => ShmAction::OpenNamed {
                fresh_name: outcome != Outcome::Error(SysError::Interrupted),
            },
            ShmState::Unlinking { descriptor } => ShmAction::Unlink { descriptor },
            ShmState::Resizing { descriptor } => ShmAction::Resize {
                descriptor,
                size: self.min_size,
            },
            ShmState::Closing { descriptor } => ShmAction::Close { descriptor },
            ShmState::Ready { descriptor } => ShmAction::Return { descriptor },
            ShmState::Failed => ShmAction::Fail(CaptureError::AllocationError),
        }
    }

    /// The allocation after `outcome`.
    pub open spec fn spec_step(self, outcome: Outcome) -> ShmAllocation {
        ShmAllocation { state: self.state.spec_step(outcome), min_size: self.min_size }
    }

    /// The allocation after all of `outcomes`, taken in order.
    pub open spec fn spec_run(self, outcomes: Seq<Outcome>) -> ShmAllocation
        decreases outcomes.len(),
    {
        if outcomes.len() == 0 {
            self
        } else {
            self.spec_step(outcomes[0]).spec_run(outcomes.drop_first())
        }
    }

    /// Starts an allocation of at least `min_size` bytes. The first system
    /// call to make is the creation of an anonymous memory file.
    pub fn start(min_size: u64) -> (r: (ShmAllocation, ShmAction))
        ensures
            r.0 == Self::spec_start(min_size),
            r.1 == ShmAction::CreateMemfd,
    {
        (ShmAllocation { state: ShmState::CreatingMemfd, min_size }, ShmAction::CreateMemfd)
    }

    /// Takes the outcome of the system call last asked for and says which
    /// comes next.
    pub fn step(&mut self, outcome: Outcome) -> (action: ShmAction)
        ensures
            *final(self) == old(self).spec_step(outcome),
            action == final(self).spec_action(outcome),
    {
        let next = match self.state {
            ShmState::CreatingMemfd => match outcome {
                Outcome::Descriptor(descriptor) => ShmState::Sealing { descriptor },
                Outcome::Error(SysError::Interrupted) => ShmState::CreatingMemfd,
                Outcome::Error(SysError::Unsupported) => ShmState::OpeningNamed,
                _ => ShmState::Failed,
            },
            ShmState::Sealing { descriptor } => ShmState::Resizing { descriptor },
            ShmState::OpeningNamed => match outcome {
                Outcome::Descriptor(descriptor) => ShmState::Unlinking { descriptor },
                Outcome::Error(SysError::Interrupted) => ShmState::OpeningNamed,
                Outcome::Error(SysError::AlreadyExists) => ShmState::OpeningNamed,
                _ => ShmState::Failed,
            },
            ShmState::Unlinking { descriptor } => match outcome {
                Outcome::Error(_) => ShmState::Closing { descriptor },
                _ => ShmState::Resizing { descriptor },
            },
            ShmState::Resizing { descriptor } => match outcome {
                Outcome::Error(SysError::Interrupted) => ShmState::Resizing { descriptor },
                Outcome::Error(_) => ShmState::Closing { descriptor },
                _ => ShmState::Ready { descriptor },
            },
            ShmState::Closing { descriptor } => ShmState::Failed,
            ShmState::Ready { descriptor } => ShmState::Ready { descriptor },
            ShmState::Failed => ShmState::Failed,
        };
        self.state = next;
        match next {
            ShmState::CreatingMemfd => ShmAction::CreateMemfd,
            ShmState::Sealing { descriptor } => ShmAction::Seal { descriptor },
            ShmState::OpeningNamed => {
                let interrupted = match outcome {
                    Outcome::Error(SysError::Interrupted) => true,
                    _ => false,
                };
                ShmAction::OpenNamed { fresh_name: !interrupted }
            },
            ShmState::Unlinking { descriptor } => ShmAction::Unlink { descriptor },
            ShmState::Resizing { descriptor } => ShmAction::Resize {
                descriptor,
                size: self.min_size,
            },
            ShmState::Closing { descriptor } => ShmAction::Close { descriptor },
            ShmState::Ready { descriptor } => ShmAction::Return { descriptor },
            ShmState::Failed => ShmAction::Fail(CaptureError::AllocationError),
        }
    }
}

/// An interrupted system call never ends an allocation and never changes its
/// course: the same call is asked for again.
pub proof fn lemma_interruption_is_retried(allocation: ShmAllocation)
    requires
        allocation.state is CreatingMemfd || allocation.state is OpeningNamed
            || allocation.state is Resizing,
    ensures
        allocation.spec_step(Outcome::Error(SysError::Interrupted)) == allocation,
        allocation.state is OpeningNamed ==> allocation.spec_step(
            Outcome::Error(SysError::Interrupted),
        ).spec_action(Outcome::Error(SysError::Interrupted)) == (ShmAction::OpenNamed {
            fresh_name: false,
        }),
{
}

/// A descriptor, once open, stays the one the allocation works on until it is
/// returned or closed; and an allocation that fails while a descriptor is
/// open has asked for its closing first.
pub proof fn lemma_descriptor_is_returned_or_closed(state: ShmState, outcome: Outcome)
    requires
        state.spec_descriptor() is Some,
    ensures
        state.spec_step(outcome) is Failed ==> state is Closing,
        !(state.spec_step(outcome) is Failed) ==> state.spec_step(outcome).spec_descriptor()
            == state.spec_descriptor(),
{
}

/// The memory is ready only after it has been extended to the size asked for,
/// and failing to seal does not stand in the way.
pub proof fn lemma_ready_only_after_resize(state: ShmState, outcome: Outcome)
    requires
        !(state is Ready),
        state.spec_step(outcome) is Ready,
    ensures
        state is Resizing,
        !(outcome is Error),
        state.spec_step(outcome).spec_descriptor() == state.spec_descriptor(),
{
}

/// Where the kernel has memory files, the allocation is two calls after the
/// creation: sealing, whose outcome is of no account, and extending.
pub proof fn lemma_memfd_path(min_size: u64, descriptor: i32, sealed: Outcome)
    ensures
        ShmAllocation::spec_start(min_size).spec_run(
            seq![Outcome::Descriptor(descriptor), sealed, Outcome::Done],
        ).state == (ShmState::Ready { descriptor }),
{
    let start = ShmAllocation::spec_start(min_size);
    let outcomes = seq![Outcome::Descriptor(descriptor), sealed, Outcome::Done];
    let first = start.spec_step(outcomes[0]);
    let second = first.spec_step(sealed);
    let third = second.spec_step(Outcome::Done);
    assert(outcomes.drop_first() =~= seq![sealed, Outcome::Done]);
    assert(seq![sealed, Outcome::Done].drop_first() =~= seq![Outcome::Done]);
    assert(seq![Outcome::Done].drop_first() =~= Seq::<Outcome>::empty());
    assert(third.spec_run(Seq::<Outcome>::empty()) == third);
    assert(second.spec_run(seq![Outcome::Done]) == third);
    assert(first.spec_run(seq![sealed, Outcome::Done]) == third);
}

/// Where the kernel has no memory files, a named object is made instead; if
/// its name cannot be taken away, the descriptor is closed and the allocation
/// fails, so that no named object is left behind open.
pub proof fn lemma_failed_unlink_closes(min_size: u64, descriptor: i32, error: SysError)
    ensures
        ({
            let opened = ShmAllocation::spec_start(min_size).spec_step(
                Outcome::Error(SysError::Unsupported),
            ).spec_step(Outcome::Descriptor(descriptor));
            &&& opened.state == ShmState::Unlinking { descriptor }
            &&& opened.spec_step(Outcome::Error(error)).spec_action(Outcome::Error(error))
                == ShmAction::Close { descriptor }
        }),
{
}

} // verus!
