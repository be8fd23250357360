//! The mod-loader component. A stub: it carries its version selector but is
//! not wired into the component dispatch yet.

use vstd::prelude::*;

use crate::component::Version;

verus! {

#[derive(Debug, Clone, PartialEq, Eq)]
pub struct FabricLoader {
    pub version: Version,
}

impl From<Version> for FabricLoader {
    fn from(version: Version) -> (r: Self) {
        FabricLoader { version }
    }
}

impl vstd::std_specs::convert::FromSpecImpl<Version> for FabricLoader {
    open spec fn obeys_from_spec() -> bool {
        true
    }

    open spec fn from_spec(version: Version) -> Self {
        FabricLoader { version }
    }
}

} // verus!
