//! Traits that types deriving the Evenframe macros implement.

use vstd::prelude::*;
use crate::types::{StructConfig, TaggedUnion};

verus! {

/// A struct implemented as a plain application object.
pub trait EvenframeAppStruct {
    /// The configuration of the struct.
    fn struct_config() -> StructConfig;
}

/// An enum implemented as a tagged union.
pub trait EvenframeTaggedUnion {
    /// The variants of the enum.
    fn variants() -> TaggedUnion;
}

} // verus!
