//! Disclosure budgets of member references.
use vstd::prelude::*;

verus! {

/// What a reader must hold to interpret a member reference.
#[derive(Clone, Copy, Debug, PartialEq, Eq, Hash, Structural)]
pub enum DisclosureBudget {
    /// Readable by anyone.
    Public,
    /// Readable only within the controlling authority domain.
    AuthorityScoped,
}

} // verus!
