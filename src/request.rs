use vstd::prelude::*;

mod error;

pub use error::Error;

use crate::advance::{advance, advanced};
use crate::master::Config;
use crate::names::{Name, NameMap};
use crate::role::{Role, RoleKind, RoleView};
use crate::state::{roles_view, votes_view, Phase, State, StateView};

verus! {

/// An action a player submits. Each kind checks, in this order, the phase,
/// the sender's role, that the sender is alive, that the sender has not
/// acted yet in this phase, and the target; only then does it change the
/// state.
pub trait Request: Sized {
    /// What the request from `name` does to `s` under `config`: the state it
    /// leaves, or why it is refused.
    spec fn outcome(&self, name: Seq<char>, s: StateView, config: Config) -> Result<
        StateView,
        Error,
    >;

    /// Checks the request and applies it to `state`.
    fn modify(self, name: &Name, state: &mut State, config: &Config) -> (r: Result<(), Error>)
        requires
            old(state)@.wf(),
            old(state)@.admits(name@),
        ensures
            final(state)@.wf(),
            final(state)@.started() ==> final(state)@.roster() == old(state)@.roster(),
            match self.outcome(name@, old(state)@, *config) {
                Ok(next) => r is Ok && final(state)@ == next,
                Err(e) => r == Err::<(), Error>(e) && *final(state) == *old(state),
            },
    ;

    /// Checks the request, applies it to `state`, and then resolves the
    /// night or the day if every action of it is in.
    fn apply_to(self, state: &mut State, sender: &Name, config: &Config) -> (r: Result<(), Error>)
        requires
            old(state)@.wf(),
            old(state)@.admits(sender@),
        ensures
            final(state)@.wf(),
            final(state)@.started() ==> final(state)@.roster() == old(state)@.roster(),
            match self.outcome(sender@, old(state)@, *config) {
                Ok(next) => r is Ok && final(state)@ == advanced(next),
                Err(e) => r == Err::<(), Error>(e) && *final(state) == *old(state),
            },
    {
        let r = self.modify(sender, state, config);
        if r.is_ok() {
            advance(state);
        }
        r
    }
}

/// The role `name` holds in a game under way.
fn role_of<'a>(role: &'a NameMap<Role>, name: &Name) -> (r: &'a Role)
    requires
        role@.contains_key(name@),
    ensures
        *r == role@[name@],
{
    match role.get(name) {
        Some(r) => r,
        None => vstd::pervasive::unreached(),
    }
}

/// Replaces the draft configuration while players sign up.
pub struct UpdateConfig {
    /// The new configuration.
    pub config: Config,
}

impl Request for UpdateConfig {
    open spec fn outcome(&self, name: Seq<char>, s: StateView, config: Config) -> Result<
        StateView,
        Error,
    > {
        match s {
            StateView::Waiting { .. } => Ok(StateView::Waiting { config: self.config }),
            _ => Err(Error::InvalidState { found: s.phase(), expected: Phase::Waiting }),
        }
    }

    fn modify(self, name: &Name, state: &mut State, config: &Config) -> (r: Result<(), Error>) {
        match state {
            State::Waiting { config: draft } => {
                *draft = self.config;
                Ok(())
            },
            _ => Err(Error::InvalidState { found: state.phase(), expected: Phase::Waiting }),
        }
    }
}

/// A wolf's choice of tonight's victim.
pub struct Kill {
    /// The player to kill.
    pub target: Name,
}

impl Request for Kill {
    open spec fn outcome(&self, name: Seq<char>, s: StateView, config: Config) -> Result<
        StateView,
        Error,
    > {
        match s {
            StateView::Night { count, role, waiting, survivors } => {
                if !(role[name] is Wolf) {
                    Err(Error::InvalidRole(role[name].kind()))
                } else if !survivors.contains(name) {
                    Err(Error::SurvivorsOnly)
                } else if !waiting.contains(name) {
                    Err(Error::MultipleActions)
                } else if !survivors.contains(self.target@) || self.target@ == name {
                    Err(Error::InvalidTarget(self.target))
                } else {
                    Ok(
                        StateView::Night {
                            count,
                            role: role.insert(name, RoleView::Wolf { killing: Some(self.target@) }),
                            waiting: waiting.remove(name),
                            survivors,
                        },
                    )
                }
            },
            _ => Err(Error::InvalidState { found: s.phase(), expected: Phase::Night }),
        }
    }

    fn modify(self, name: &Name, state: &mut State, config: &Config) -> (r: Result<(), Error>) {
        match state {
            State::Night { role, waiting, survivors, .. } => {
                let kind = role_of(role, name).kind();
                if kind != RoleKind::Wolf {
                    return Err(Error::InvalidRole(kind));
                }
                if !survivors.contains(name) {
                    return Err(Error::SurvivorsOnly);
                }
                if !waiting.contains(name) {
                    return Err(Error::MultipleActions);
                }
                if !survivors.contains(&self.target) || *name == self.target {
                    return Err(Error::InvalidTarget(self.target));
                }
                let ghost before = roles_view(*role);
                let ghost target = self.target@;
                role.insert(name.clone(), Role::Wolf { killing: Some(self.target) });
                waiting.remove(name);
                proof {
                    assert(roles_view(*role) =~= before.insert(
                        name@,
                        RoleView::Wolf { killing: Some(target) },
                    ));
                    assert(role@.dom() =~= before.dom());
                }
                Ok(())
            },
            _ => Err(Error::InvalidState { found: state.phase(), expected: Phase::Night }),
        }
    }
}

/// A survivor's ballot on whom to exile.
pub struct Vote {
    /// The candidate voted for.
    pub target: Name,
}

impl Request for Vote {
    open spec fn outcome(&self, name: Seq<char>, s: StateView, config: Config) -> Result<
        StateView,
        Error,
    > {
        match s {
            StateView::Day { count, role, waiting, survivors, votes, candidates } => {
                if !survivors.contains(name) {
                    Err(Error::SurvivorsOnly)
                } else if !waiting.contains(name) {
                    Err(Error::MultipleActions)
                } else if !candidates.contains(self.target@) {
                    Err(Error::InvalidTarget(self.target))
                } else {
                    Ok(
                        StateView::Day {
                            count,
                            role,
                            waiting: waiting.remove(name),
                            survivors,
                            votes: votes.insert(name, self.target@),
                            candidates,
                        },
                    )
                }
            },
            _ => Err(Error::InvalidState { found: s.phase(), expected: Phase::Day }),
        }
    }

    fn modify(self, name: &Name, state: &mut State, config: &Config) -> (r: Result<(), Error>) {
        match state {
            State::Day { waiting, survivors, votes, candidates, .. } => {
                if !survivors.contains(name) {
                    return Err(Error::SurvivorsOnly);
                }
                if !waiting.contains(name) {
                    return Err(Error::MultipleActions);
                }
                if !candidates.contains(&self.target) {
                    return Err(Error::InvalidTarget(self.target));
                }
                let ghost before = votes_view(*votes);
                let ghost waiting0 = waiting@;
                let ghost target = self.target@;
                votes.insert(name.clone(), self.target);
                waiting.remove(name);
                proof {
                    let after = votes_view(*votes);
                    assert(after =~= before.insert(name@, target));
                    assert(after.dom() =~= survivors@.difference(waiting@));
                    assert forall|v| #[trigger] after.contains_key(v) implies candidates@.contains(
                        after[v],
                    ) by {
                        if v != name@ {
                            assert(before.contains_key(v));
                        }
                    }
                }
                Ok(())
            },
            _ => Err(Error::InvalidState { found: state.phase(), expected: Phase::Day }),
        }
    }
}

/// A seer's look at one survivor's team.
pub struct Divine {
    /// The player looked at.
    pub target: Name,
}

impl Request for Divine {
    open spec fn outcome(&self, name: Seq<char>, s: StateView, config: Config) -> Result<
        StateView,
        Error,
    > {
        match s {
            StateView::Night { count, role, waiting, survivors } => {
                if !(role[name] is Seer) {
                    Err(Error::InvalidRole(role[name].kind()))
                } else if !survivors.contains(name) {
                    Err(Error::SurvivorsOnly)
                } else if !waiting.contains(name) {
                    Err(Error::MultipleActions)
                } else if !survivors.contains(self.target@) {
                    Err(Error::InvalidTarget(self.target))
                } else {
                    Ok(
                        StateView::Night {
                            count,
                            role: role.insert(
                                name,
                                RoleView::Seer {
                                    prediction: role[name]->prediction.insert(
                                        self.target@,
                                        role[self.target@].team(),
                                    ),
                                },
                            ),
                            waiting: waiting.remove(name),
                            survivors,
                        },
                    )
                }
            },
            _ => Err(Error::InvalidState { found: s.phase(), expected: Phase::Night }),
        }
    }

    fn modify(self, name: &Name, state: &mut State, config: &Config) -> (r: Result<(), Error>) {
        match state {
            State::Night { role, waiting, survivors, .. } => {
                let kind = role_of(role, name).kind();
                if kind != RoleKind::Seer {
                    return Err(Error::InvalidRole(kind));
                }
                if !survivors.contains(name) {
                    return Err(Error::SurvivorsOnly);
                }
                if !waiting.contains(name) {
                    return Err(Error::MultipleActions);
                }
                if !survivors.contains(&self.target) {
                    return Err(Error::InvalidTarget(self.target));
                }
                let team = role_of(role, &self.target).team();
                let ghost before = roles_view(*role);
                let ghost target = self.target@;
                match role.remove(name) {
                    Some(Role::Seer { mut prediction }) => {
                        prediction.insert(self.target, team);
                        role.insert(name.clone(), Role::Seer { prediction });
                    },
                    _ => {},
                }
                waiting.remove(name);
                proof {
                    assert(roles_view(*role) =~= before.insert(
                        name@,
                        RoleView::Seer {
                            prediction: before[name@]->prediction.insert(target, before[target].team()),
                        },
                    ));
                    assert(role@.dom() =~= before.dom());
                }
                Ok(())
            },
            _ => Err(Error::InvalidState { found: state.phase(), expected: Phase::Night }),
        }
    }
}

/// A hunter's choice of whom to protect tonight.
pub struct Guard {
    /// The player to protect.
    pub target: Name,
}

impl Request for Guard {
    open spec fn outcome(&self, name: Seq<char>, s: StateView, config: Config) -> Result<
        StateView,
        Error,
    > {
        match s {
            StateView::Night { count, role, waiting, survivors } => {
                if !(role[name] is Hunter) {
                    Err(Error::InvalidRole(role[name].kind()))
                } else if !survivors.contains(name) {
                    Err(Error::SurvivorsOnly)
                } else if !waiting.contains(name) {
                    Err(Error::MultipleActions)
                } else if !survivors.contains(self.target@) || self.target@ == name {
                    Err(Error::InvalidTarget(self.target))
                } else if !config.hunter.consecutive_guard && role[name]->guarded == Some(
                    self.target@,
                ) {
                    Err(Error::InvalidTarget(self.target))
                } else {
                    Ok(
                        StateView::Night {
                            count,
                            role: role.insert(
                                name,
                                RoleView::Hunter {
                                    guarding: Some(self.target@),
                                    guarded: role[name]->guarded,
                                },
                            ),
                            waiting: waiting.remove(name),
                            survivors,
                        },
                    )
                }
            },
            _ => Err(Error::InvalidState { found: s.phase(), expected: Phase::Night }),
        }
    }

    fn modify(self, name: &Name, state: &mut State, config: &Config) -> (r: Result<(), Error>) {
        match state {
            State::Night { role, waiting, survivors, .. } => {
                let repeated = match role_of(role, name) {
                    Role::Hunter { guarded, .. } => match guarded {
                        Some(last) => *last == self.target,
                        None => false,
                    },
                    other => {
                        return Err(Error::InvalidRole(other.kind()));
                    },
                };
                if !survivors.contains(name) {
                    return Err(Error::SurvivorsOnly);
                }
                if !waiting.contains(name) {
                    return Err(Error::MultipleActions);
                }
                if !survivors.contains(&self.target) || *name == self.target {
                    return Err(Error::InvalidTarget(self.target));
                }
                if !config.hunter.consecutive_guard && repeated {
                    return Err(Error::InvalidTarget(self.target));
                }
                let ghost before = roles_view(*role);
                let ghost target = self.target@;
                match role.remove(name) {
                    Some(Role::Hunter { guarded, .. }) => {
                        role.insert(name.clone(), Role::Hunter { guarding: Some(self.target), guarded });
                    },
                    _ => {},
                }
                waiting.remove(name);
                proof {
                    assert(roles_view(*role) =~= before.insert(
                        name@,
                        RoleView::Hunter { guarding: Some(target), guarded: before[name@]->guarded },
                    ));
                    assert(role@.dom() =~= before.dom());
                }
                Ok(())
            },
            _ => Err(Error::InvalidState { found: state.phase(), expected: Phase::Night }),
        }
    }
}

/// Passing the night without acting, for the roles that may.
pub struct Skip();

impl Request for Skip {
    open spec fn outcome(&self, name: Seq<char>, s: StateView, config: Config) -> Result<
        StateView,
        Error,
    > {
        match s {
            StateView::Night { count, role, waiting, survivors } => {
                if !config.may_skip(role[name].kind()) {
                    Err(Error::InvalidRole(role[name].kind()))
                } else if !survivors.contains(name) {
                    Err(Error::SurvivorsOnly)
                } else if !waiting.contains(name) {
                    Err(Error::MultipleActions)
                } else {
                    Ok(
                        StateView::Night {
                            count,
                            role: role.insert(name, role[name].skipped()),
                            waiting: waiting.remove(name),
                            survivors,
                        },
                    )
                }
            },
            _ => Err(Error::InvalidState { found: s.phase(), expected: Phase::Night }),
        }
    }

    fn modify(self, name: &Name, state: &mut State, config: &Config) -> (r: Result<(), Error>) {
        match state {
            State::Night { role, waiting, survivors, .. } => {
                let held = role_of(role, name);
                if !config.skippable(held) {
                    return Err(Error::InvalidRole(held.kind()));
                }
                if !survivors.contains(name) {
                    return Err(Error::SurvivorsOnly);
                }
                if !waiting.contains(name) {
                    return Err(Error::MultipleActions);
                }
                let ghost before = roles_view(*role);
                match role.remove(name) {
                    Some(r) => {
                        role.insert(name.clone(), r.skipped());
                    },
                    None => {},
                }
                waiting.remove(name);
                proof {
                    assert(roles_view(*role) =~= before.insert(
                        name@,
                        before[name@].skipped(),
                    ));
                    assert(role@.dom() =~= before.dom());
                }
                Ok(())
            },
            _ => Err(Error::InvalidState { found: state.phase(), expected: Phase::Night }),
        }
    }
}

/// Any one of the requests a player can submit.
pub enum Any {
    UpdateConfig(UpdateConfig),
    Vote(Vote),
    Kill(Kill),
    Divine(Divine),
    Guard(Guard),
    Skip(Skip),
}

impl Request for Any {
    open spec fn outcome(&self, name: Seq<char>, s: StateView, config: Config) -> Result<
        StateView,
        Error,
    > {
        match self {
            Any::UpdateConfig(req) => req.outcome(name, s, config),
            Any::Vote(req) => req.outcome(name, s, config),
            Any::Kill(req) => req.outcome(name, s, config),
            Any::Divine(req) => req.outcome(name, s, config),
            Any::Guard(req) => req.outcome(name, s, config),
            Any::Skip(req) => req.outcome(name, s, config),
        }
    }

    fn modify(self, name: &Name, state: &mut State, config: &Config) -> (r: Result<(), Error>) {
        match self {
            Any::UpdateConfig(req) => req.modify(name, state, config),
            Any::Vote(req) => req.modify(name, state, config),
            Any::Kill(req) => req.modify(name, state, config),
            Any::Divine(req) => req.modify(name, state, config),
            Any::Guard(req) => req.modify(name, state, config),
            Any::Skip(req) => req.modify(name, state, config),
        }
    }
}

} // verus!
