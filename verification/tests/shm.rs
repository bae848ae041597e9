use pxlha::error::CaptureError;
use pxlha::shm::{Outcome, ShmAction, ShmAllocation, ShmState, SysError};

const FAIL: ShmAction = ShmAction::Fail(CaptureError::AllocationError);

fn interrupted() -> Outcome {
    Outcome::Error(SysError::Interrupted)
}

fn named(min_size: u64) -> ShmAllocation {
    let (mut allocation, _) = ShmAllocation::start(min_size);
    allocation.step(Outcome::Error(SysError::Unsupported));
    allocation
}

#[test]
fn allocation_starts_with_a_memory_file() {
    let (allocation, action) = ShmAllocation::start(4096);
    assert_eq!(action, ShmAction::CreateMemfd);
    assert_eq!(allocation, ShmAllocation { state: ShmState::CreatingMemfd, min_size: 4096 });
}

#[test]
fn memory_file_is_sealed_and_extended() {
    let (mut allocation, _) = ShmAllocation::start(4096);
    assert_eq!(allocation.step(Outcome::Descriptor(7)), ShmAction::Seal { descriptor: 7 });
    assert_eq!(allocation.step(Outcome::Done), ShmAction::Resize { descriptor: 7, size: 4096 });
    assert_eq!(allocation.step(Outcome::Done), ShmAction::Return { descriptor: 7 });
    assert_eq!(allocation.state, ShmState::Ready { descriptor: 7 });
    assert_eq!(allocation.step(Outcome::Done), ShmAction::Return { descriptor: 7 });
}

#[test]
fn failing_to_seal_is_of_no_account() {
    let (mut allocation, _) = ShmAllocation::start(64);
    allocation.step(Outcome::Descriptor(3));
    assert_eq!(
        allocation.step(Outcome::Error(SysError::Other(22))),
        ShmAction::Resize { descriptor: 3, size: 64 }
    );
    assert_eq!(allocation.step(Outcome::Done), ShmAction::Return { descriptor: 3 });
}

#[test]
fn interrupted_creation_is_tried_again() {
    let (mut allocation, _) = ShmAllocation::start(64);
    for _ in 0..5 {
        assert_eq!(allocation.step(interrupted()), ShmAction::CreateMemfd);
        assert_eq!(allocation.state, ShmState::CreatingMemfd);
    }
    assert_eq!(allocation.step(Outcome::Descriptor(4)), ShmAction::Seal { descriptor: 4 });
}

#[test]
fn a_kernel_without_memory_files_falls_back_on_a_named_object() {
    let (mut allocation, _) = ShmAllocation::start(64);
    assert_eq!(
        allocation.step(Outcome::Error(SysError::Unsupported)),
        ShmAction::OpenNamed { fresh_name: true }
    );
    assert_eq!(allocation.step(Outcome::Descriptor(9)), ShmAction::Unlink { descriptor: 9 });
    assert_eq!(allocation.step(Outcome::Done), ShmAction::Resize { descriptor: 9, size: 64 });
    assert_eq!(allocation.step(Outcome::Done), ShmAction::Return { descriptor: 9 });
}

#[test]
fn other_failures_of_the_memory_file_end_the_allocation() {
    for error in [SysError::AlreadyExists, SysError::Other(24), SysError::Other(12)] {
        let (mut allocation, _) = ShmAllocation::start(64);
        assert_eq!(allocation.step(Outcome::Error(error)), FAIL);
        assert_eq!(allocation.state, ShmState::Failed);
        assert_eq!(allocation.step(Outcome::Descriptor(1)), FAIL);
    }
    let (mut allocation, _) = ShmAllocation::start(64);
    assert_eq!(allocation.step(Outcome::Done), FAIL);
}

#[test]
fn a_taken_name_is_replaced() {
    let mut allocation = named(64);
    assert_eq!(
        allocation.step(Outcome::Error(SysError::AlreadyExists)),
        ShmAction::OpenNamed { fresh_name: true }
    );
    assert_eq!(allocation.state, ShmState::OpeningNamed);
}

#[test]
fn an_interrupted_open_is_tried_again_under_the_same_name() {
    let mut allocation = named(64);
    assert_eq!(allocation.step(interrupted()), ShmAction::OpenNamed { fresh_name: false });
    assert_eq!(allocation.state, ShmState::OpeningNamed);
}

#[test]
fn other_failures_of_the_named_object_end_the_allocation() {
    for error in [SysError::Unsupported, SysError::Other(13)] {
        let mut allocation = named(64);
        assert_eq!(allocation.step(Outcome::Error(error)), FAIL);
        assert_eq!(allocation.state, ShmState::Failed);
    }
}

#[test]
fn a_name_that_cannot_be_taken_away_closes_the_descriptor() {
    for error in [SysError::Interrupted, SysError::Other(2), SysError::AlreadyExists] {
        let mut allocation = named(64);
        allocation.step(Outcome::Descriptor(11));
        assert_eq!(allocation.step(Outcome::Error(error)), ShmAction::Close { descriptor: 11 });
        assert_eq!(allocation.step(Outcome::Done), FAIL);
    }
    let mut allocation = named(64);
    allocation.step(Outcome::Descriptor(11));
    allocation.step(Outcome::Error(SysError::Other(2)));
    assert_eq!(allocation.step(Outcome::Error(SysError::Other(9))), FAIL);
}

#[test]
fn memory_that_cannot_be_extended_closes_the_descriptor() {
    let (mut allocation, _) = ShmAllocation::start(1 << 40);
    allocation.step(Outcome::Descriptor(5));
    allocation.step(Outcome::Done);
    assert_eq!(
        allocation.step(interrupted()),
        ShmAction::Resize { descriptor: 5, size: 1 << 40 }
    );
    assert_eq!(
        allocation.step(Outcome::Error(SysError::Other(28))),
        ShmAction::Close { descriptor: 5 }
    );
    assert_eq!(allocation.step(Outcome::Done), FAIL);
    assert_eq!(allocation.state, ShmState::Failed);
}
