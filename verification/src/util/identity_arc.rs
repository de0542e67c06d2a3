use std::sync::Arc;
use vstd::prelude::*;

verus! {

/// A number that tells shared values apart by where they are, not by what they hold.
pub trait Identity {
    /// The number of this value. It stays the same while the value lives, and no two
    /// values that live at the same time have the same one.
    fn id(&self) -> u64;
}

/// The address that the pointer points to, from `Arc::as_ptr`. Nothing is claimed of
/// it: an address is no function of what the pointer holds.
#[verifier::external_body]
fn address<T>(pointer: &Arc<T>) -> (a: u64) {
    Arc::as_ptr(pointer) as usize as u64
}

impl<T> Identity for Arc<T> {
    fn id(&self) -> u64 {
        address(self)
    }
}

} // verus!
