use vstd::prelude::*;

use crate::master::Config;
use crate::names::{Name, NameMap, NameSet};
use crate::role::{Role, RoleView, Team};

verus! {

/// The stage of a game, without its data.
#[derive(Clone, Copy, Debug, PartialEq, Eq, Structural)]
pub enum Phase {
    Waiting,
    Night,
    Day,
    End,
}

/// The state of a game: its phase and the data that phase owns.
#[derive(Debug)]
pub enum State {
    /// Players are signing up; the configuration may still be edited.
    Waiting {
        /// The draft configuration.
        config: Config,
    },
    /// The night: players with a night action act.
    Night {
        /// How many days have ended.
        count: usize,
        /// The role of every player.
        role: NameMap<Role>,
        /// The survivors who have not acted yet.
        waiting: NameSet,
        /// The players still alive.
        survivors: NameSet,
    },
    /// The day: survivors vote on whom to exile.
    Day {
        /// How many days have ended.
        count: usize,
        /// The role of every player.
        role: NameMap<Role>,
        /// The survivors who have not voted yet.
        waiting: NameSet,
        /// The players still alive.
        survivors: NameSet,
        /// Who voted for whom on this ballot.
        votes: NameMap<Name>,
        /// Whom this ballot may exile.
        candidates: NameSet,
    },
    /// The game is over.
    End {
        /// The team that won.
        winner: Team,
    },
}

/// A game state over plain values.
pub enum StateView {
    Waiting { config: Config },
    Night {
        count: nat,
        role: Map<Seq<char>, RoleView>,
        waiting: Set<Seq<char>>,
        survivors: Set<Seq<char>>,
    },
    Day {
        count: nat,
        role: Map<Seq<char>, RoleView>,
        waiting: Set<Seq<char>>,
        survivors: Set<Seq<char>>,
        votes: Map<Seq<char>, Seq<char>>,
        candidates: Set<Seq<char>>,
    },
    End { winner: Team },
}

/// The roles of a role map, over plain values.
pub open spec fn roles_view(role: NameMap<Role>) -> Map<Seq<char>, RoleView> {
    role@.map_values(|r: Role| r@)
}

/// The ballots of a vote map, over plain values.
pub open spec fn votes_view(votes: NameMap<Name>) -> Map<Seq<char>, Seq<char>> {
    votes@.map_values(|n: Name| n@)
}

impl View for State {
    type V = StateView;

    open spec fn view(&self) -> StateView {
        match self {
            State::Waiting { config } => StateView::Waiting { config: *config },
            State::Night { count, role, waiting, survivors } => StateView::Night {
                count: *count as nat,
                role: roles_view(*role),
                waiting: waiting@,
                survivors: survivors@,
            },
            State::Day { count, role, waiting, survivors, votes, candidates } => StateView::Day {
                count: *count as nat,
                role: roles_view(*role),
                waiting: waiting@,
                survivors: survivors@,
                votes: votes_view(*votes),
                candidates: candidates@,
            },
            State::End { winner } => StateView::End { winner: *winner },
        }
    }
}

impl StateView {
    pub open spec fn phase(self) -> Phase {
        match self {
            StateView::Waiting { .. } => Phase::Waiting,
            StateView::Night { .. } => Phase::Night,
            StateView::Day { .. } => Phase::Day,
            StateView::End { .. } => Phase::End,
        }
    }

    /// The consistency every state of a game keeps: those still to act are
    /// survivors, survivors are players, a day's ballots come from survivors
    /// who have voted and go to candidates, and the count of ended days plus
    /// the survivors never exceeds the players.
    pub open spec fn wf(self) -> bool {
        match self {
            StateView::Waiting { .. } => true,
            StateView::Night { count, role, waiting, survivors } => {
                &&& role.dom().finite()
                &&& waiting.subset_of(survivors)
                &&& survivors.subset_of(role.dom())
                &&& count + survivors.len() <= role.dom().len()
            },
            StateView::Day { count, role, waiting, survivors, votes, candidates } => {
                &&& role.dom().finite()
                &&& waiting.subset_of(survivors)
                &&& survivors.subset_of(role.dom())
                &&& candidates.subset_of(survivors)
                &&& votes.dom() == survivors.difference(waiting)
                &&& forall|v| #[trigger] votes.contains_key(v) ==> candidates.contains(votes[v])
                &&& count + survivors.len() <= role.dom().len()
            },
            StateView::End { .. } => true,
        }
    }

    /// Whether the game is under way.
    pub open spec fn started(self) -> bool {
        self is Night || self is Day
    }

    /// The roles the state records, once the game is under way.
    pub open spec fn roles(self) -> Map<Seq<char>, RoleView> {
        match self {
            StateView::Night { role, .. } => role,
            StateView::Day { role, .. } => role,
            _ => Map::empty(),
        }
    }

    /// The players the state assigns roles to, once the game is under way.
    pub open spec fn roster(self) -> Set<Seq<char>> {
        self.roles().dom()
    }

    /// Whether `name` may act on the state: once the game has started, only
    /// its players may.
    pub open spec fn admits(self, name: Seq<char>) -> bool {
        match self {
            StateView::Night { role, .. } => role.contains_key(name),
            StateView::Day { role, .. } => role.contains_key(name),
            _ => true,
        }
    }

    /// What `viewer` may see of the state: every role but the viewer's own
    /// is left out.
    pub open spec fn masked_for(self, viewer: Seq<char>) -> StateView {
        match self {
            StateView::Night { count, role, waiting, survivors } => StateView::Night {
                count,
                role: role.restrict(set![viewer]),
                waiting,
                survivors,
            },
            StateView::Day { count, role, waiting, survivors, votes, candidates } => StateView::Day {
                count,
                role: role.restrict(set![viewer]),
                waiting,
                survivors,
                votes,
                candidates,
            },
            _ => self,
        }
    }
}

impl Default for State {
    fn default() -> (r: Self)
        ensures
            r matches State::Waiting { config } && config.total() == 0,
    {
        State::Waiting { config: Config::default() }
    }
}

impl State {
    /// The phase of the state.
    pub fn phase(&self) -> (r: Phase)
        ensures
            r == self@.phase(),
    {
        match self {
            State::Waiting { .. } => Phase::Waiting,
            State::Night { .. } => Phase::Night,
            State::Day { .. } => Phase::Day,
            State::End { .. } => Phase::End,
        }
    }

    /// A copy of the state as `viewer` may see it: the role map keeps only
    /// the viewer's own entry.
    pub fn mask_for(&self, viewer: &Name) -> (r: State)
        ensures
            r@ == self@.masked_for(viewer@),
    {
        match self {
            State::Waiting { config } => State::Waiting { config: *config },
            State::End { winner } => State::End { winner: *winner },
            State::Night { count, role, waiting, survivors } => {
                let own = own_role(role, viewer);
                State::Night {
                    count: *count,
                    role: own,
                    waiting: waiting.duplicate(),
                    survivors: survivors.duplicate(),
                }
            },
            State::Day { count, role, waiting, survivors, votes, candidates } => {
                let own = own_role(role, viewer);
                let votes_copy = votes.duplicate_names();
                assert(votes_view(votes_copy) =~= votes_view(*votes));
                State::Day {
                    count: *count,
                    role: own,
                    waiting: waiting.duplicate(),
                    survivors: survivors.duplicate(),
                    votes: votes_copy,
                    candidates: candidates.duplicate(),
                }
            },
        }
    }
}

/// The part of a role map that `viewer` may see: the viewer's own entry.
fn own_role(role: &NameMap<Role>, viewer: &Name) -> (r: NameMap<Role>)
    ensures
        roles_view(r) == roles_view(*role).restrict(set![viewer@]),
{
    let mut r: NameMap<Role> = NameMap::new();
    match role.get(viewer) {
        Some(mine) => {
            r.insert(viewer.clone(), mine.duplicate());
        },
        None => {},
    }
    assert(roles_view(r) =~= roles_view(*role).restrict(set![viewer@]));
    r
}

} // verus!
