//! The auth-proxy injector component. Its install step is not implemented
//! yet: it contributes nothing to the install state.

use vstd::prelude::*;

use crate::component::{ComponentEnum, Error, State, Version};

verus! {

#[derive(Debug, Clone, PartialEq, Eq)]
pub struct AuthlibInjector {
    pub version: Version,
}

impl AuthlibInjector {
    /// Installing this component currently leaves the accumulator untouched.
    pub fn install(&self, result: &mut State) -> (r: Result<(), Error>)
        ensures
            r is Ok,
            *final(result) == *old(result),
    {
        Ok(())
    }

    /// Conflict detection placeholder, as on every component kind.
    pub fn is_compatible(&self, component: &ComponentEnum) {
    }
}

} // verus!
