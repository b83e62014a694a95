use vstd::prelude::*;

use crate::advance::{
    advanced,
    guard_targets,
    kill_targets,
    night_survivors,
    resolve_day,
    top_voted,
    winner,
    wolf_count,
};
use crate::master::Config;
use crate::request::{Any, Error, Request};
use crate::role::{RoleKind, RoleView, Team};
use crate::state::StateView;

verus! {

/// The kind of every player's role, once the game is under way.
pub open spec fn kinds(s: StateView) -> Map<Seq<char>, RoleKind> {
    s.roles().map_values(|r: RoleView| r.kind())
}

/// Roles are assigned once: an accepted request, with the resolution it may
/// set off, leaves every player of a game still under way with the kind of
/// role they had.
pub proof fn law_roles_fixed(req: Any, name: Seq<char>, s: StateView, config: Config)
    requires
        s.wf(),
        s.admits(name),
        req.outcome(name, s, config) is Ok,
    ensures
        ({
            let after = advanced(req.outcome(name, s, config)->Ok_0);
            after.started() ==> kinds(after) == kinds(s)
        }),
{
    let next = req.outcome(name, s, config)->Ok_0;
    assert(next.roles().dom() =~= s.roles().dom());
    assert(kinds(next) =~= kinds(s));
    let after = advanced(next);
    if after.started() {
        assert(after.roles().dom() =~= next.roles().dom());
        assert(kinds(after) =~= kinds(next));
    }
}

/// An accepted request, with the resolution it may set off, keeps a game
/// consistent: those still to act are survivors and survivors are players,
/// and the players stay the same.
pub proof fn law_consistency_kept(req: Any, name: Seq<char>, s: StateView, config: Config)
    requires
        s.wf(),
        s.admits(name),
        req.outcome(name, s, config) is Ok,
    ensures
        ({
            let after = advanced(req.outcome(name, s, config)->Ok_0);
            &&& after.wf()
            &&& after.started() ==> after.roster() == s.roster()
        }),
{
    let next = req.outcome(name, s, config)->Ok_0;
    assert(next.roles().dom() =~= s.roles().dom());
    match (s, next) {
        (
            StateView::Day { waiting: w0, survivors: s0, votes: v0, .. },
            StateView::Day { waiting, votes, candidates, .. },
        ) => {
            assert(votes.dom() =~= s0.difference(waiting));
            assert forall|v| #[trigger] votes.contains_key(v) implies candidates.contains(votes[v]) by {
                if !v0.contains_key(v) {
                    assert(votes[v] == req->Vote_0.target@);
                }
            }
        },
        (StateView::Night { role: r0, .. }, StateView::Night { role, .. }) => {
            assert(role.dom() =~= r0.dom());
        },
        _ => {},
    }
    assert(next.wf());
    crate::advance::lemma_advanced_wf(next);
}

/// A player who has acted in a phase that is still open is refused with
/// "multiple actions" when submitting the same action again.
pub proof fn law_second_submission_refused(
    req: Any,
    name: Seq<char>,
    s: StateView,
    config: Config,
)
    requires
        s.wf(),
        s.admits(name),
        !(req is UpdateConfig),
        req.outcome(name, s, config) is Ok,
        advanced(req.outcome(name, s, config)->Ok_0) == req.outcome(name, s, config)->Ok_0,
    ensures
        req.outcome(name, req.outcome(name, s, config)->Ok_0, config) == Err::<StateView, Error>(
            Error::MultipleActions,
        ),
{
}

/// The masked view holds a role for the viewer at most: every other
/// player's role is absent, and the viewer's own is kept as it is.
pub proof fn law_mask_shows_own_role_only(s: StateView, viewer: Seq<char>)
    ensures
        s.masked_for(viewer).roster().subset_of(set![viewer]),
        s.roster().contains(viewer) ==> s.masked_for(viewer).roles()[viewer] == s.roles()[viewer],
        s.roster().contains(viewer) ==> s.masked_for(viewer).roster().contains(viewer),
{
}

/// A kill target that some hunter guards survives the night.
pub proof fn law_guard_saves_kill(
    role: Map<Seq<char>, RoleView>,
    survivors: Set<Seq<char>>,
    wolf: Seq<char>,
    hunter: Seq<char>,
    target: Seq<char>,
)
    requires
        role.contains_key(wolf),
        role[wolf] == (RoleView::Wolf { killing: Some(target) }),
        role.contains_key(hunter),
        role[hunter] is Hunter,
        role[hunter]->guarding == Some(target),
        survivors.contains(target),
    ensures
        night_survivors(role, survivors).contains(target),
{
    assert(guard_targets(role).contains(target));
}

/// A kill target that no hunter guards dies in the night.
pub proof fn law_unguarded_kill(
    role: Map<Seq<char>, RoleView>,
    survivors: Set<Seq<char>>,
    wolf: Seq<char>,
    target: Seq<char>,
)
    requires
        role.contains_key(wolf),
        role[wolf] == (RoleView::Wolf { killing: Some(target) }),
        forall|h: Seq<char>|
            #![trigger role[h]]
            role.contains_key(h) && role[h] is Hunter ==> role[h]->guarding != Some(target),
    ensures
        !night_survivors(role, survivors).contains(target),
{
    assert(kill_targets(role).contains(target));
    assert(!guard_targets(role).contains(target));
}

/// With survivors left and no wolf among them, the citizens have won.
pub proof fn law_citizens_win_without_wolves(
    role: Map<Seq<char>, RoleView>,
    survivors: Set<Seq<char>>,
)
    requires
        survivors.finite(),
        survivors.len() > 0,
        forall|n: Seq<char>| #[trigger] survivors.contains(n) ==> !(role[n] is Wolf),
    ensures
        winner(role, survivors) == Some(Team::Citizen),
{
    let wolves = survivors.filter(crate::advance::is_wolf(role));
    assert(wolves =~= Set::empty());
    assert(wolf_count(role, survivors) == 0);
}

/// A ballot that every survivor has cast and whose lead is shared by two
/// or more players exiles nobody: a new ballot starts among the tied
/// players, with no votes and the same day count.
pub proof fn law_tie_starts_runoff(
    count: nat,
    role: Map<Seq<char>, RoleView>,
    survivors: Set<Seq<char>>,
    votes: Map<Seq<char>, Seq<char>>,
    candidates: Set<Seq<char>>,
)
    requires
        top_voted(votes).len() >= 2,
    ensures
        advanced(
            StateView::Day {
                count,
                role,
                waiting: Set::empty(),
                survivors,
                votes,
                candidates,
            },
        ) == (StateView::Day {
            count,
            role,
            waiting: survivors,
            survivors,
            votes: Map::empty(),
            candidates: top_voted(votes),
        }),
{
    assert(resolve_day(count, role, survivors, votes) == advanced(
        StateView::Day { count, role, waiting: Set::empty(), survivors, votes, candidates },
    ));
}

} // verus!
