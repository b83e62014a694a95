use vstd::prelude::*;

use crate::names::Name;
use crate::role::RoleKind;
use crate::state::Phase;

verus! {

/// Why a request was refused. A refused request changes nothing.
#[derive(Debug)]
pub enum Error {
    /// The game is not in the phase the request needs.
    InvalidState { found: Phase, expected: Phase },
    /// The sender's role may not make this request.
    InvalidRole(RoleKind),
    /// The request may not name this player.
    InvalidTarget(Name),
    /// The sender is no longer alive.
    SurvivorsOnly,
    /// The sender has already acted in this phase.
    MultipleActions,
}

} // verus!
