//! Definition identities and resolution errors.

use vstd::prelude::*;
use crate::ast::{NodeId, Span};

verus! {

/// The link-order index of an already-compiled package.
pub type PackageId = u32;

/// Where a definition comes from: the package being compiled, or a
/// previously linked package identified by its link-order index.
#[derive(Clone, Copy, Debug, PartialEq, Eq, Hash, Structural)]
pub enum PackageSrc {
    Local,
    Extern(PackageId),
}

/// A globally unique identity for a declaration. Two identities are equal
/// exactly when both the origin and the declaring node agree, so definitions
/// of different packages never collide on a shared node id.
#[derive(Clone, Copy, Debug, PartialEq, Eq, Hash, Structural)]
pub struct DefId {
    pub package: PackageSrc,
    pub node: NodeId,
}

/// A resolution error. Resolution is total: errors accumulate and the walk
/// goes on, so one pass surfaces every broken name.
#[derive(Clone, Debug, PartialEq, Eq)]
pub enum Error {
    /// No shadowing tier produced a candidate: the name and the occurrence's
    /// span.
    NotFound(String, Span),
    /// Two or more distinct definitions were reachable through explicit opens:
    /// the name, the occurrence's span, and the two earliest conflicting open
    /// directives' spans in increasing order.
    Ambiguous(String, Span, Span, Span),
}

/// The mathematical shape of an error, with names as character sequences.
pub enum ErrorV {
    NotFound(Seq<char>, Span),
    Ambiguous(Seq<char>, Span, Span, Span),
}

impl View for Error {
    type V = ErrorV;

    open spec fn view(&self) -> ErrorV {
        match self {
            Error::NotFound(name, span) => ErrorV::NotFound(name@, *span),
            Error::Ambiguous(name, span, first, second) => ErrorV::Ambiguous(
                name@,
                *span,
                *first,
                *second,
            ),
        }
    }
}

} // verus!
