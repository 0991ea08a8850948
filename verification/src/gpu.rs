//! Sharing one accelerator among processes of different priority.

pub mod custom;
pub mod locks;
pub mod utils;

use vstd::prelude::*;

verus! {

/// The accelerator kernel of a process, made when it is first needed and
/// given up as soon as a process of higher priority wants the device.
#[verifier::reject_recursive_types(K)]
pub struct LockedKernel<K, F> where F: Fn() -> Option<K> {
    f: F,
    kernel: Option<K>,
}

impl<K, F> LockedKernel<K, F> where F: Fn() -> Option<K> {
    /// The function that makes a kernel.
    pub closed spec fn factory(&self) -> F {
        self.f
    }

    /// The kernel that is held, if one is.
    pub closed spec fn kernel(&self) -> Option<K> {
        self.kernel
    }

    /// A handle that holds no kernel yet and will make one with `f`.
    pub fn new(f: F) -> (locked: LockedKernel<K, F>)
        ensures
            locked.factory() == f,
            locked.kernel().is_none(),
    {
        LockedKernel::<K, F> { f, kernel: None }
    }

    /// The kernel to work with, or none.
    ///
    /// Where the device may not be used, a kernel that is held is dropped
    /// and none is handed out. Where it may, the kernel that is held is
    /// handed out, and if none is held the factory is asked for one, once;
    /// what it answers is kept and handed out.
    pub fn get(&mut self, may_use_device: bool) -> (kernel: &mut Option<K>)
        requires
            call_requires(old(self).factory(), ()),
        ensures
            final(self).factory() == old(self).factory(),
            final(self).kernel() == *final(kernel),
            !may_use_device ==> kernel.is_none(),
            may_use_device && old(self).kernel().is_some() ==> *kernel == old(self).kernel(),
            may_use_device && old(self).kernel().is_none() ==> call_ensures(
                old(self).factory(),
                (),
                *kernel,
            ),
    {
        if !may_use_device {
            self.kernel = None;
        } else if self.kernel.is_none() {
            self.kernel = (self.f)();
        }
        &mut self.kernel
    }
}

} // verus!
