//! The identity of a channel or a semaphore.

use std::rc::Rc;
use vstd::prelude::*;

verus! {

/// Returns the address of the allocation behind `token`, by calling
/// `Rc::as_ptr`.
///
/// Which address it is, is up to the allocator. Two allocations that live at
/// the same time have different addresses, which is not stated here.
#[verifier::external_body]
fn address_of(token: &Rc<u8>) -> usize {
    Rc::as_ptr(token) as usize
}

/// The identity of a channel or a semaphore, which it shares with its handles.
///
/// An identity is the address of an allocation that lives as long as any copy
/// of the identity. The view of an identity is that address.
pub struct InstanceId {
    token: Rc<u8>,
    address: usize,
}

impl View for InstanceId {
    type V = usize;

    closed spec fn view(&self) -> usize {
        self.address
    }
}

impl InstanceId {
    /// Returns the identity of a new instance, which is the address of a new
    /// allocation.
    ///
    /// The allocator decides which address it is.
    pub fn new() -> Self {
        let token: Rc<u8> = Rc::new(0);
        let address: usize = address_of(&token);
        InstanceId::at(token, address)
    }

    /// Returns the identity of the instance whose `token` is allocated at
    /// `address`.
    fn at(token: Rc<u8>, address: usize) -> (id: Self)
        ensures
            id@ == address,
    {
        InstanceId { token, address }
    }

    /// Returns another copy of the same identity.
    pub fn share(&self) -> (id: Self)
        ensures
            id@ == self@,
    {
        InstanceId { token: Rc::clone(&self.token), address: self.address }
    }

    /// Returns `true` if both identities are those of the same instance.
    pub fn same(&self, other: &Self) -> (result: bool)
        ensures
            result == (self@ == other@),
    {
        self.address == other.address
    }
}

} // verus!
