use bellperson::gpu::locks::PriorityLock;
use bellperson::gpu::LockedKernel;
use std::cell::Cell;

#[test]
fn a_kernel_is_made_when_first_needed_and_kept() {
    let made = Cell::new(0u32);
    let mut locked = LockedKernel::new(|| {
        made.set(made.get() + 1);
        Some(made.get())
    });
    assert_eq!(made.get(), 0);
    assert_eq!(*locked.get(true), Some(1));
    assert_eq!(*locked.get(true), Some(1));
    assert_eq!(made.get(), 1);
}

#[test]
fn a_kernel_is_dropped_when_the_device_is_claimed() {
    let made = Cell::new(0u32);
    let mut locked = LockedKernel::new(|| {
        made.set(made.get() + 1);
        Some(made.get())
    });
    assert_eq!(*locked.get(true), Some(1));
    assert_eq!(*locked.get(false), None);
    assert_eq!(*locked.get(false), None);
    assert_eq!(made.get(), 1);
    assert_eq!(*locked.get(true), Some(2));
}

#[test]
fn no_kernel_is_made_while_the_device_is_claimed() {
    let made = Cell::new(0u32);
    let mut locked = LockedKernel::new(|| {
        made.set(made.get() + 1);
        Some(made.get())
    });
    assert_eq!(*locked.get(false), None);
    assert_eq!(made.get(), 0);
}

#[test]
fn a_factory_without_a_device_is_asked_again() {
    let asked = Cell::new(0u32);
    let mut locked: LockedKernel<u8, _> = LockedKernel::new(|| {
        asked.set(asked.get() + 1);
        None
    });
    assert_eq!(*locked.get(true), None);
    assert_eq!(*locked.get(true), None);
    assert_eq!(asked.get(), 2);
}

#[test]
fn the_kernel_handed_out_can_be_taken() {
    let mut locked = LockedKernel::new(|| Some(7u8));
    let taken = locked.get(true).take();
    assert_eq!(taken, Some(7));
    assert_eq!(*locked.get(false), None);
}

#[test]
fn the_holder_of_precedence_may_use_the_device() {
    let mut lock = PriorityLock::new();
    assert!(lock.can_lock(true));
    assert!(!lock.can_lock(false));
    lock.lock();
    assert!(lock.can_lock(false));
    assert!(lock.can_lock(true));
    lock.unlock();
    assert!(!lock.can_lock(false));
    assert!(lock.can_lock(true));
}
