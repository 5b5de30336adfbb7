//! The failures that registry operations report.

use vstd::prelude::*;

verus! {

/// Why a registry operation did not take effect. Every operation reports
/// its failure as a value; none aborts.
#[derive(Debug, Clone, Copy, PartialEq, Eq, Structural)]
pub enum RegistryError {
    /// The operation named a client that the registry does not hold.
    UnknownClient,
    /// A registration named a client that the registry already holds.
    AlreadyRegistered,
    /// An unregistration named a client that the registry does not hold.
    NotFound,
}

} // verus!
