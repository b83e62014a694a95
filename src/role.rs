use vstd::prelude::*;

use crate::names::{Name, NameMap};

verus! {

/// The side whose victory a player plays for.
#[derive(Clone, Copy, Debug, PartialEq, Eq, Structural)]
pub enum Team {
    /// The villagers and everyone who helps them.
    Citizen,
    /// The wolves.
    Wolf,
}

/// The kind of a role, without its night-time data.
#[derive(Clone, Copy, Debug, PartialEq, Eq, Structural)]
pub enum RoleKind {
    Citizen,
    Wolf,
    Seer,
    Hunter,
}

/// A player's secret role, with what the role holds between actions.
#[derive(Debug)]
pub enum Role {
    /// A villager without a night action.
    Citizen,
    /// A wolf; `killing` is tonight's chosen victim.
    Wolf { killing: Option<Name> },
    /// A seer; `prediction` records the team found for each divined player.
    Seer { prediction: NameMap<Team> },
    /// A hunter; `guarding` is tonight's protected player and `guarded` the
    /// one protected on the last night that was resolved.
    Hunter { guarding: Option<Name>, guarded: Option<Name> },
}

/// What a role holds, over plain values.
pub enum RoleView {
    Citizen,
    Wolf { killing: Option<Seq<char>> },
    Seer { prediction: Map<Seq<char>, Team> },
    Hunter { guarding: Option<Seq<char>>, guarded: Option<Seq<char>> },
}

/// The character sequence of an optional name.
pub open spec fn opt_view(n: Option<Name>) -> Option<Seq<char>> {
    match n {
        Some(s) => Some(s@),
        None => None,
    }
}

impl View for Role {
    type V = RoleView;

    open spec fn view(&self) -> RoleView {
        match self {
            Role::Citizen => RoleView::Citizen,
            Role::Wolf { killing } => RoleView::Wolf { killing: opt_view(*killing) },
            Role::Seer { prediction } => RoleView::Seer { prediction: prediction@ },
            Role::Hunter { guarding, guarded } => RoleView::Hunter {
                guarding: opt_view(*guarding),
                guarded: opt_view(*guarded),
            },
        }
    }
}

impl RoleView {
    pub open spec fn kind(self) -> RoleKind {
        match self {
            RoleView::Citizen => RoleKind::Citizen,
            RoleView::Wolf { .. } => RoleKind::Wolf,
            RoleView::Seer { .. } => RoleKind::Seer,
            RoleView::Hunter { .. } => RoleKind::Hunter,
        }
    }

    /// A wolf plays for the wolves; every other role for the citizens.
    pub open spec fn team(self) -> Team {
        if self is Wolf {
            Team::Wolf
        } else {
            Team::Citizen
        }
    }

    /// The role as it stands at the start of a game.
    pub open spec fn fresh(kind: RoleKind) -> RoleView {
        match kind {
            RoleKind::Citizen => RoleView::Citizen,
            RoleKind::Wolf => RoleView::Wolf { killing: None },
            RoleKind::Seer => RoleView::Seer { prediction: Map::empty() },
            RoleKind::Hunter => RoleView::Hunter { guarding: None, guarded: None },
        }
    }

    /// The role once its holder passes the night: a wolf forfeits tonight's
    /// kill and a hunter tonight's guard.
    pub open spec fn skipped(self) -> RoleView {
        match self {
            RoleView::Wolf { .. } => RoleView::Wolf { killing: None },
            RoleView::Hunter { guarded, .. } => RoleView::Hunter { guarding: None, guarded },
            _ => self,
        }
    }

    /// The role once a night has been resolved: tonight's kill and guard are
    /// cleared, and the guard is remembered as the last one.
    pub open spec fn after_night(self) -> RoleView {
        match self {
            RoleView::Wolf { .. } => RoleView::Wolf { killing: None },
            RoleView::Hunter { guarding, .. } => RoleView::Hunter { guarding: None, guarded: guarding },
            _ => self,
        }
    }
}

fn duplicate_name(n: &Option<Name>) -> (r: Option<Name>)
    ensures
        opt_view(r) == opt_view(*n),
{
    match n {
        Some(s) => Some(s.clone()),
        None => None,
    }
}

impl Role {
    /// The team the role plays for.
    pub fn team(&self) -> (r: Team)
        ensures
            r == self@.team(),
    {
        match self {
            Self::Citizen | Self::Seer { .. } | Self::Hunter { .. } => Team::Citizen,
            Self::Wolf { .. } => Team::Wolf,
        }
    }

    /// The kind of the role.
    pub fn kind(&self) -> (r: RoleKind)
        ensures
            r == self@.kind(),
    {
        match self {
            Self::Citizen => RoleKind::Citizen,
            Self::Wolf { .. } => RoleKind::Wolf,
            Self::Seer { .. } => RoleKind::Seer,
            Self::Hunter { .. } => RoleKind::Hunter,
        }
    }

    /// A role of the given kind as it stands at the start of a game.
    pub fn fresh(kind: RoleKind) -> (r: Role)
        ensures
            r@ == RoleView::fresh(kind),
    {
        match kind {
            RoleKind::Citizen => Role::Citizen,
            RoleKind::Wolf => Role::Wolf { killing: None },
            RoleKind::Seer => Role::Seer { prediction: NameMap::new() },
            RoleKind::Hunter => Role::Hunter { guarding: None, guarded: None },
        }
    }

    /// A copy of the role.
    pub fn duplicate(&self) -> (r: Role)
        ensures
            r@ == self@,
    {
        match self {
            Role::Citizen => Role::Citizen,
            Role::Wolf { killing } => Role::Wolf { killing: duplicate_name(killing) },
            Role::Seer { prediction } => Role::Seer { prediction: prediction.duplicate() },
            Role::Hunter { guarding, guarded } => Role::Hunter {
                guarding: duplicate_name(guarding),
                guarded: duplicate_name(guarded),
            },
        }
    }

    /// The role once its holder passes the night.
    pub fn skipped(self) -> (r: Role)
        ensures
            r@ == self@.skipped(),
    {
        match self {
            Role::Wolf { .. } => Role::Wolf { killing: None },
            Role::Hunter { guarded, .. } => Role::Hunter { guarding: None, guarded },
            other => other,
        }
    }

    /// The role once a night has been resolved.
    pub fn after_night(self) -> (r: Role)
        ensures
            r@ == self@.after_night(),
    {
        match self {
            Role::Wolf { .. } => Role::Wolf { killing: None },
            Role::Hunter { guarding, .. } => Role::Hunter { guarding: None, guarded: guarding },
            other => other,
        }
    }
}

} // verus!
