use vstd::prelude::*;

use crate::names::{lemma_prefix_end, lemma_prefix_start, lemma_prefix_step, name_views, Name, NameMap, NameSet};
use crate::role::{Role, RoleView, Team};
use crate::state::{roles_view, votes_view, State, StateView};

verus! {

/// Whether a player is a wolf, as a predicate on names.
pub open spec fn is_wolf(role: Map<Seq<char>, RoleView>) -> spec_fn(Seq<char>) -> bool {
    |n: Seq<char>| role[n] is Wolf
}

/// The number of wolves among `survivors`.
pub open spec fn wolf_count(role: Map<Seq<char>, RoleView>, survivors: Set<Seq<char>>) -> nat {
    survivors.filter(is_wolf(role)).len()
}

/// The team that has won once only `survivors` are alive, if any: the wolves
/// as soon as they are at least half of the survivors, the citizens as soon
/// as no wolf is left.
pub open spec fn winner(role: Map<Seq<char>, RoleView>, survivors: Set<Seq<char>>) -> Option<Team> {
    if 2 * wolf_count(role, survivors) >= survivors.len() {
        Some(Team::Wolf)
    } else if wolf_count(role, survivors) == 0 {
        Some(Team::Citizen)
    } else {
        None
    }
}

/// Everyone some hunter guards tonight.
pub open spec fn guard_targets(role: Map<Seq<char>, RoleView>) -> Set<Seq<char>> {
    Set::new(
        |t: Seq<char>|
            exists|h: Seq<char>|
                #![trigger role[h]]
                role.contains_key(h) && role[h] is Hunter && role[h]->guarding == Some(t),
    )
}

/// Everyone some wolf chose to kill tonight.
pub open spec fn kill_targets(role: Map<Seq<char>, RoleView>) -> Set<Seq<char>> {
    Set::new(
        |t: Seq<char>|
            exists|w: Seq<char>|
                #![trigger role[w]]
                role.contains_key(w) && role[w] is Wolf && role[w]->killing == Some(t),
    )
}

/// The survivors of a night: every kill target that no hunter guards dies.
pub open spec fn night_survivors(
    role: Map<Seq<char>, RoleView>,
    survivors: Set<Seq<char>>,
) -> Set<Seq<char>> {
    survivors.difference(kill_targets(role).difference(guard_targets(role)))
}

/// The roles once the night is resolved.
pub open spec fn night_roles(role: Map<Seq<char>, RoleView>) -> Map<Seq<char>, RoleView> {
    role.map_values(|r: RoleView| r.after_night())
}

/// The state that follows a night whose actions are all in.
pub open spec fn resolve_night(
    count: nat,
    role: Map<Seq<char>, RoleView>,
    survivors: Set<Seq<char>>,
) -> StateView {
    let role2 = night_roles(role);
    let alive = night_survivors(role, survivors);
    match winner(role2, alive) {
        Some(team) => StateView::End { winner: team },
        None => StateView::Day {
            count,
            role: role2,
            waiting: alive,
            survivors: alive,
            votes: Map::empty(),
            candidates: alive,
        },
    }
}

/// Whether a voter's ballot went to `t`, as a predicate on names.
pub open spec fn voted_for(votes: Map<Seq<char>, Seq<char>>, t: Seq<char>) -> spec_fn(
    Seq<char>,
) -> bool {
    |v: Seq<char>| votes[v] == t
}

/// The number of ballots cast for `t`.
pub open spec fn tally(votes: Map<Seq<char>, Seq<char>>, t: Seq<char>) -> nat {
    votes.dom().filter(voted_for(votes, t)).len()
}

/// The players who received the most votes.
pub open spec fn top_voted(votes: Map<Seq<char>, Seq<char>>) -> Set<Seq<char>> {
    Set::new(
        |t: Seq<char>|
            {
                &&& exists|v: Seq<char>| #[trigger] votes.contains_key(v) && votes[v] == t
                &&& forall|u: Seq<char>| #[trigger]
                    votes.contains_key(u) ==> tally(votes, votes[u]) <= tally(votes, t)
            },
    )
}

/// The state that follows a ballot that every survivor has cast: a single
/// front-runner is exiled, and the night comes unless a team has won; a tie
/// starts a new ballot among the tied players.
pub open spec fn resolve_day(
    count: nat,
    role: Map<Seq<char>, RoleView>,
    survivors: Set<Seq<char>>,
    votes: Map<Seq<char>, Seq<char>>,
) -> StateView {
    let top = top_voted(votes);
    if top.len() == 1 {
        let alive = survivors.difference(top);
        match winner(role, alive) {
            Some(team) => StateView::End { winner: team },
            None => StateView::Night { count: count + 1, role, waiting: alive, survivors: alive },
        }
    } else {
        StateView::Day {
            count,
            role,
            waiting: survivors,
            survivors,
            votes: Map::empty(),
            candidates: top,
        }
    }
}

/// The state after the phase's actions are checked: a night or a day whose
/// actions are all in is resolved; any other state stays.
pub open spec fn advanced(s: StateView) -> StateView {
    match s {
        StateView::Night { count, role, waiting, survivors } => {
            if waiting.len() == 0 {
                resolve_night(count, role, survivors)
            } else {
                s
            }
        },
        StateView::Day { count, role, waiting, survivors, votes, .. } => {
            if waiting.len() == 0 {
                resolve_day(count, role, survivors, votes)
            } else {
                s
            }
        },
        _ => s,
    }
}

/// Counts the wolves among `survivors`.
pub fn count_wolves(role: &NameMap<Role>, survivors: &NameSet) -> (r: usize)
    requires
        survivors@.subset_of(role@.dom()),
    ensures
        r == wolf_count(roles_view(*role), survivors@),
        r <= survivors@.len(),
{
    let ghost p = is_wolf(roles_view(*role));
    let n = survivors.len();
    let mut w: usize = 0;
    let mut i: usize = 0;
    proof {
        lemma_prefix_start(survivors.order(), p);
    }
    while i < n
        invariant
            n == survivors.order().len(),
            survivors.order().no_duplicates(),
            survivors.order().to_set() == survivors@,
            survivors@.subset_of(role@.dom()),
            i <= n,
            w <= i,
            p == is_wolf(roles_view(*role)),
            w == survivors.order().take(i as int).to_set().filter(p).len(),
        decreases n - i,
    {
        let name = survivors.get(i);
        proof {
            lemma_prefix_step(survivors.order(), i as int, p);
            assert(survivors.order().to_set().contains(survivors.order()[i as int]));
        }
        let ghost seen = survivors.order().take(i as int).to_set().filter(p);
        assert(role@.contains_key(name@));
        assert(roles_view(*role)[name@] == role@[name@]@);
        match role.get(name) {
            Some(Role::Wolf { .. }) => {
                assert(role@[name@] is Wolf);
                assert(roles_view(*role)[name@] is Wolf);
                assert(p(name@));
                assert(seen.insert(name@).len() == seen.len() + 1);
                w += 1;
            },
            _ => {
                assert(!p(name@));
            },
        }
        i += 1;
    }
    proof {
        lemma_prefix_end(survivors.order());
    }
    w
}

/// The win evaluator: which team, if any, has won with `survivors` alive.
pub fn judge(role: &NameMap<Role>, survivors: &NameSet) -> (r: Option<Team>)
    requires
        survivors@.subset_of(role@.dom()),
    ensures
        r == winner(roles_view(*role), survivors@),
{
    let wolves = count_wolves(role, survivors);
    let alive = survivors.len();
    if wolves >= alive - wolves {
        Some(Team::Wolf)
    } else if wolves == 0 {
        Some(Team::Citizen)
    } else {
        None
    }
}

/// Everyone guarded by a hunter among the first entries `keys` of a role map.
spec fn guards_among(role: Map<Seq<char>, RoleView>, keys: Seq<Seq<char>>) -> Set<Seq<char>> {
    Set::new(
        |t: Seq<char>|
            exists|j: int|
                0 <= j < keys.len() && #[trigger] role[keys[j]] is Hunter && role[keys[j]]->guarding
                    == Some(t),
    )
}

/// Everyone a wolf chose to kill among the first entries `keys` of a role map.
spec fn kills_among(role: Map<Seq<char>, RoleView>, keys: Seq<Seq<char>>) -> Set<Seq<char>> {
    Set::new(
        |t: Seq<char>|
            exists|j: int|
                0 <= j < keys.len() && #[trigger] role[keys[j]] is Wolf && role[keys[j]]->killing
                    == Some(t),
    )
}

/// Collects tonight's guard targets and kill targets.
fn night_targets(role: &NameMap<Role>) -> (r: (NameSet, NameSet))
    ensures
        r.0@ == guard_targets(roles_view(*role)),
        r.1@ == kill_targets(roles_view(*role)),
{
    let ghost rv = roles_view(*role);
    let n = role.len();
    let mut guards = NameSet::new();
    let mut kills = NameSet::new();
    let mut i: usize = 0;
    proof {
        assert(guards@ =~= guards_among(rv, role.order().take(0)));
        assert(kills@ =~= kills_among(rv, role.order().take(0)));
    }
    while i < n
        invariant
            n == role.order().len(),
            role.order().to_set() == role@.dom(),
            rv == roles_view(*role),
            i <= n,
            guards@ == guards_among(rv, role.order().take(i as int)),
            kills@ == kills_among(rv, role.order().take(i as int)),
        decreases n - i,
    {
        let ghost key = role.order()[i as int];
        let ghost before = role.order().take(i as int);
        let ghost after = role.order().take(i + 1);
        proof {
            assert(role.order().to_set().contains(key));
            assert(rv[key] == role@[key]@);
            assert(after =~= before.push(key));
        }
        match role.value_at(i) {
            Role::Hunter { guarding: Some(g), .. } => {
                guards.insert(g.clone());
                proof {
                    assert(guards@ =~= guards_among(rv, after)) by {
                        assert forall|t| guards@.contains(t) implies guards_among(rv, after).contains(t) by {
                            if t == g@ {
                                assert(rv[after[i as int]] is Hunter);
                            } else {
                                let j = choose|j: int|
                                    0 <= j < before.len() && #[trigger] rv[before[j]] is Hunter
                                        && rv[before[j]]->guarding == Some(t);
                                assert(after[j] == before[j]);
                            }
                        }
                        assert forall|t| guards_among(rv, after).contains(t) implies guards@.contains(t) by {
                            let j = choose|j: int|
                                0 <= j < after.len() && #[trigger] rv[after[j]] is Hunter
                                    && rv[after[j]]->guarding == Some(t);
                            if j < i {
                                assert(before[j] == after[j]);
                            }
                        }
                    }
                    assert(kills@ =~= kills_among(rv, after)) by {
                        assert forall|t| kills_among(rv, after).contains(t) implies kills@.contains(t) by {
                            let j = choose|j: int|
                                0 <= j < after.len() && #[trigger] rv[after[j]] is Wolf
                                    && rv[after[j]]->killing == Some(t);
                            assert(j < i);
                            assert(before[j] == after[j]);
                        }
                        assert forall|t| kills@.contains(t) implies kills_among(rv, after).contains(t) by {
                            let j = choose|j: int|
                                0 <= j < before.len() && #[trigger] rv[before[j]] is Wolf
                                    && rv[before[j]]->killing == Some(t);
                            assert(after[j] == before[j]);
                        }
                    }
                }
            },
            Role::Wolf { killing: Some(k) } => {
                kills.insert(k.clone());
                proof {
                    assert(kills@ =~= kills_among(rv, after)) by {
                        assert forall|t| kills@.contains(t) implies kills_among(rv, after).contains(t) by {
                            if t == k@ {
                                assert(rv[after[i as int]] is Wolf);
                            } else {
                                let j = choose|j: int|
                                    0 <= j < before.len() && #[trigger] rv[before[j]] is Wolf
                                        && rv[before[j]]->killing == Some(t);
                                assert(after[j] == before[j]);
                            }
                        }
                        assert forall|t| kills_among(rv, after).contains(t) implies kills@.contains(t) by {
                            let j = choose|j: int|
                                0 <= j < after.len() && #[trigger] rv[after[j]] is Wolf
                                    && rv[after[j]]->killing == Some(t);
                            if j < i {
                                assert(before[j] == after[j]);
                            }
                        }
                    }
                    assert(guards@ =~= guards_among(rv, after)) by {
                        assert forall|t| guards_among(rv, after).contains(t) implies guards@.contains(t) by {
                            let j = choose|j: int|
                                0 <= j < after.len() && #[trigger] rv[after[j]] is Hunter
                                    && rv[after[j]]->guarding == Some(t);
                            assert(j < i);
                            assert(before[j] == after[j]);
                        }
                        assert forall|t| guards@.contains(t) implies guards_among(rv, after).contains(t) by {
                            let j = choose|j: int|
                                0 <= j < before.len() && #[trigger] rv[before[j]] is Hunter
                                    && rv[before[j]]->guarding == Some(t);
                            assert(after[j] == before[j]);
                        }
                    }
                }
            },
            _ => {
                proof {
                    assert(guards@ =~= guards_among(rv, after)) by {
                        assert forall|t| guards_among(rv, after).contains(t) implies guards@.contains(t) by {
                            let j = choose|j: int|
                                0 <= j < after.len() && #[trigger] rv[after[j]] is Hunter
                                    && rv[after[j]]->guarding == Some(t);
                            assert(j < i);
                            assert(before[j] == after[j]);
                        }
                        assert forall|t| guards@.contains(t) implies guards_among(rv, after).contains(t) by {
                            let j = choose|j: int|
                                0 <= j < before.len() && #[trigger] rv[before[j]] is Hunter
                                    && rv[before[j]]->guarding == Some(t);
                            assert(after[j] == before[j]);
                        }
                    }
                    assert(kills@ =~= kills_among(rv, after)) by {
                        assert forall|t| kills_among(rv, after).contains(t) implies kills@.contains(t) by {
                            let j = choose|j: int|
                                0 <= j < after.len() && #[trigger] rv[after[j]] is Wolf
                                    && rv[after[j]]->killing == Some(t);
                            assert(j < i);
                            assert(before[j] == after[j]);
                        }
                        assert forall|t| kills@.contains(t) implies kills_among(rv, after).contains(t) by {
                            let j = choose|j: int|
                                0 <= j < before.len() && #[trigger] rv[before[j]] is Wolf
                                    && rv[before[j]]->killing == Some(t);
                            assert(after[j] == before[j]);
                        }
                    }
                }
            },
        }
        i += 1;
    }
    proof {
        lemma_prefix_end(role.order());
        let keys = role.order();
        assert(guards@ =~= guard_targets(rv)) by {
            assert forall|t| guard_targets(rv).contains(t) implies guards@.contains(t) by {
                let h = choose|h: Seq<char>|
                    #![trigger rv[h]]
                    rv.contains_key(h) && rv[h] is Hunter && rv[h]->guarding == Some(t);
                assert(keys.to_set().contains(h));
                let j = choose|j: int| 0 <= j < keys.len() && keys[j] == h;
                assert(rv[keys[j]] is Hunter);
            }
            assert forall|t| guards@.contains(t) implies guard_targets(rv).contains(t) by {
                let j = choose|j: int|
                    0 <= j < keys.len() && #[trigger] rv[keys[j]] is Hunter && rv[keys[j]]->guarding
                        == Some(t);
                assert(keys.to_set().contains(keys[j]));
                assert(rv.contains_key(keys[j]));
            }
        }
        assert(kills@ =~= kill_targets(rv)) by {
            assert forall|t| kill_targets(rv).contains(t) implies kills@.contains(t) by {
                let w = choose|w: Seq<char>|
                    #![trigger rv[w]]
                    rv.contains_key(w) && rv[w] is Wolf && rv[w]->killing == Some(t);
                assert(keys.to_set().contains(w));
                let j = choose|j: int| 0 <= j < keys.len() && keys[j] == w;
                assert(rv[keys[j]] is Wolf);
            }
            assert forall|t| kills@.contains(t) implies kill_targets(rv).contains(t) by {
                let j = choose|j: int|
                    0 <= j < keys.len() && #[trigger] rv[keys[j]] is Wolf && rv[keys[j]]->killing
                        == Some(t);
                assert(keys.to_set().contains(keys[j]));
                assert(rv.contains_key(keys[j]));
            }
        }
    }
    (guards, kills)
}

/// Removes from `survivors` every kill target that no hunter guards.
fn remove_unguarded(survivors: &mut NameSet, kills: &NameSet, guards: &NameSet)
    ensures
        final(survivors)@ == old(survivors)@.difference(kills@.difference(guards@)),
{
    let ghost start = survivors@;
    let n = kills.len();
    let mut i: usize = 0;
    proof {
        lemma_prefix_start(kills.order(), |x: Seq<char>| true);
        assert(survivors@ =~= start.difference(kills.order().take(0).to_set().difference(guards@)));
    }
    while i < n
        invariant
            n == kills.order().len(),
            kills.order().no_duplicates(),
            kills.order().to_set() == kills@,
            i <= n,
            survivors@ == start.difference(kills.order().take(i as int).to_set().difference(guards@)),
        decreases n - i,
    {
        let victim = kills.get(i);
        proof {
            lemma_prefix_step(kills.order(), i as int, |x: Seq<char>| true);
        }
        let ghost seen = kills.order().take(i + 1).to_set();
        if !guards.contains(victim) {
            survivors.remove(victim);
            assert(survivors@ =~= start.difference(seen.difference(guards@)));
        } else {
            assert(survivors@ =~= start.difference(seen.difference(guards@)));
        }
        i += 1;
    }
    proof {
        lemma_prefix_end(kills.order());
    }
}

/// Clears tonight's kills and guards in every role.
fn clear_night(role: &mut NameMap<Role>)
    ensures
        roles_view(*final(role)) == night_roles(roles_view(*old(role))),
{
    let ghost start = roles_view(*role);
    let keys = role.keys();
    let n = role.len();
    let mut i: usize = 0;
    proof {
        lemma_prefix_start(role.order(), |x: Seq<char>| true);
    }
    while i < n
        invariant
            n == keys.len(),
            name_views(keys@).no_duplicates(),
            name_views(keys@).to_set() == start.dom(),
            i <= n,
            role@.dom() == start.dom(),
            forall|x| #[trigger]
                start.contains_key(x) ==> roles_view(*role)[x] == if name_views(
                    keys@,
                ).take(i as int).to_set().contains(x) {
                    start[x].after_night()
                } else {
                    start[x]
                },
        decreases n - i,
    {
        let k = &keys[i];
        proof {
            lemma_prefix_step(name_views(keys@), i as int, |x: Seq<char>| true);
            assert(name_views(keys@)[i as int] == k@);
            assert(name_views(keys@).to_set().contains(k@));
        }
        let taken = role.remove(k);
        match taken {
            Some(r) => {
                role.insert(k.clone(), r.after_night());
            },
            None => {},
        }
        i += 1;
    }
    proof {
        lemma_prefix_end(name_views(keys@));
        assert(roles_view(*role) =~= night_roles(start));
    }
}

/// Resolves a night whose actions are all in: unguarded kill targets die,
/// tonight's kills and guards are cleared, and the win evaluator decides
/// between the end of the game and the day.
pub fn night_end(count: usize, role: NameMap<Role>, survivors: NameSet) -> (r: State)
    requires
        survivors@.subset_of(role@.dom()),
    ensures
        r@ == resolve_night(count as nat, roles_view(role), survivors@),
{
    let ghost role0 = roles_view(role);
    let ghost alive0 = survivors@;
    let (guards, kills) = night_targets(&role);
    let mut survivors = survivors;
    remove_unguarded(&mut survivors, &kills, &guards);
    let ghost dom0 = role@.dom();
    let mut role = role;
    clear_night(&mut role);
    assert(survivors@ == night_survivors(role0, alive0));
    assert(role@.dom() == roles_view(role).dom());
    assert(night_roles(role0).dom() == dom0);
    assert(survivors@.subset_of(role@.dom()));
    match judge(&role, &survivors) {
        Some(team) => State::End { winner: team },
        None => {
            let waiting = survivors.duplicate();
            let candidates = survivors.duplicate();
            let votes: NameMap<Name> = NameMap::new();
            assert(votes_view(votes) =~= Map::empty());
            State::Day { count, role, waiting, survivors, votes, candidates }
        },
    }
}

/// Counts the ballots cast for `t`.
fn count_votes(votes: &NameMap<Name>, t: &Name) -> (r: usize)
    ensures
        r == tally(votes_view(*votes), t@),
        r <= votes@.len(),
{
    let ghost p = voted_for(votes_view(*votes), t@);
    let n = votes.len();
    let mut c: usize = 0;
    let mut i: usize = 0;
    proof {
        lemma_prefix_start(votes.order(), p);
    }
    while i < n
        invariant
            n == votes.order().len(),
            votes.order().no_duplicates(),
            votes.order().to_set() == votes@.dom(),
            p == voted_for(votes_view(*votes), t@),
            i <= n,
            c <= i,
            c == votes.order().take(i as int).to_set().filter(p).len(),
        decreases n - i,
    {
        let ghost voter = votes.order()[i as int];
        proof {
            lemma_prefix_step(votes.order(), i as int, p);
            assert(votes.order().to_set().contains(voter));
            assert(votes_view(*votes)[voter] == votes@[voter]@);
        }
        let ghost seen = votes.order().take(i as int).to_set().filter(p);
        if *votes.value_at(i) == *t {
            assert(seen.insert(voter).len() == seen.len() + 1);
            c += 1;
        }
        i += 1;
    }
    proof {
        lemma_prefix_end(votes.order());
        assert(votes_view(*votes).dom() == votes@.dom());
    }
    c
}

/// The players who received the most votes.
pub fn front_runners(votes: &NameMap<Name>) -> (r: NameSet)
    ensures
        r@ == top_voted(votes_view(*votes)),
{
    let ghost vv = votes_view(*votes);
    let n = votes.len();
    let mut most: usize = 0;
    let mut i: usize = 0;
    while i < n
        invariant
            n == votes.order().len(),
            votes.order().to_set() == votes@.dom(),
            vv == votes_view(*votes),
            i <= n,
            forall|j: int| 0 <= j < i ==> tally(vv, #[trigger] vv[votes.order()[j]]) <= most,
            i == 0 ==> most == 0,
            i > 0 ==> exists|j: int| 0 <= j < i && tally(vv, #[trigger] vv[votes.order()[j]]) == most,
        decreases n - i,
    {
        proof {
            assert(vv[votes.order()[i as int]] == votes@[votes.order()[i as int]]@) by {
                let k = votes.order()[i as int];
                assert(votes.order().to_set().contains(k));
            }
        }
        let c = count_votes(votes, votes.value_at(i));
        let ghost most0 = most;
        if c > most {
            most = c;
        }
        proof {
            assert(c == tally(vv, vv[votes.order()[i as int]]));
            if c == most {
                assert(0 <= i < i + 1 && tally(vv, vv[votes.order()[i as int]]) == most);
            } else {
                let j = choose|j: int|
                    0 <= j < i && tally(vv, #[trigger] vv[votes.order()[j]]) == most0;
                assert(0 <= j < i + 1 && tally(vv, vv[votes.order()[j]]) == most);
            }
        }
        i += 1;
    }
    let mut top = NameSet::new();
    let mut i: usize = 0;
    while i < n
        invariant
            n == votes.order().len(),
            votes.order().to_set() == votes@.dom(),
            vv == votes_view(*votes),
            i <= n,
            forall|j: int| 0 <= j < n ==> tally(vv, #[trigger] vv[votes.order()[j]]) <= most,
            n > 0 ==> exists|j: int| 0 <= j < n && tally(vv, #[trigger] vv[votes.order()[j]]) == most,
            forall|t|
                top@.contains(t) <==> exists|j: int|
                    0 <= j < i && #[trigger] vv[votes.order()[j]] == t && tally(vv, t) == most,
        decreases n - i,
    {
        let ghost key = votes.order()[i as int];
        proof {
            assert(votes.order().to_set().contains(key));
            assert(vv[key] == votes@[key]@);
        }
        let t = votes.value_at(i);
        let c = count_votes(votes, t);
        let ghost before = top@;
        if c == most {
            top.insert(t.clone());
        }
        proof {
            assert forall|x|
                top@.contains(x) <==> exists|j: int|
                    0 <= j < i + 1 && #[trigger] vv[votes.order()[j]] == x && tally(vv, x) == most by {
                if top@.contains(x) && !before.contains(x) {
                    assert(vv[votes.order()[i as int]] == x);
                }
                if exists|j: int|
                    0 <= j < i + 1 && #[trigger] vv[votes.order()[j]] == x && tally(vv, x) == most {
                    let j = choose|j: int|
                        0 <= j < i + 1 && #[trigger] vv[votes.order()[j]] == x && tally(vv, x)
                            == most;
                    if j == i {
                        assert(top@.contains(x));
                    }
                }
            }
        }
        i += 1;
    }
    proof {
        let keys = votes.order();
        assert(vv.dom() == votes@.dom());
        assert forall|t| top@.contains(t) implies top_voted(vv).contains(t) by {
            let j = choose|j: int| 0 <= j < n && #[trigger] vv[keys[j]] == t && tally(vv, t) == most;
            assert(keys.to_set().contains(keys[j]));
            assert(vv.contains_key(keys[j]));
            assert forall|u| #[trigger] vv.contains_key(u) implies tally(vv, vv[u]) <= tally(vv, t) by {
                assert(keys.to_set().contains(u));
                let k = choose|k: int| 0 <= k < keys.len() && keys[k] == u;
                assert(tally(vv, vv[keys[k]]) <= most);
            }
        }
        assert forall|t| top_voted(vv).contains(t) implies top@.contains(t) by {
            let v = choose|v: Seq<char>| #[trigger] vv.contains_key(v) && vv[v] == t;
            assert(keys.to_set().contains(v));
            let j = choose|j: int| 0 <= j < keys.len() && keys[j] == v;
            assert(tally(vv, vv[keys[j]]) <= most);
            let m = choose|m: int| 0 <= m < n && tally(vv, #[trigger] vv[keys[m]]) == most;
            assert(keys.to_set().contains(keys[m]));
            assert(vv.contains_key(keys[m]));
            assert(tally(vv, vv[keys[m]]) <= tally(vv, t));
        }
        assert(top@ =~= top_voted(vv));
    }
    top
}

/// Resolves a ballot that every survivor has cast.
pub fn day_end(
    count: usize,
    role: NameMap<Role>,
    survivors: NameSet,
    votes: &NameMap<Name>,
) -> (r: State)
    requires
        survivors@.subset_of(role@.dom()),
        count + survivors@.len() <= role@.len(),
        forall|v| #[trigger] votes@.contains_key(v) ==> survivors@.contains(votes@[v]@),
    ensures
        r@ == resolve_day(count as nat, roles_view(role), survivors@, votes_view(*votes)),
{
    let ghost vv = votes_view(*votes);
    let top = front_runners(votes);
    let mut survivors = survivors;
    let ghost alive0 = survivors@;
    if top.len() == 1 {
        let exiled = top.get(0);
        proof {
            assert(top.order().to_set().contains(exiled@));
            assert(top@.contains(exiled@));
            let v = choose|v: Seq<char>| #[trigger] vv.contains_key(v) && vv[v] == exiled@;
            assert(vv[v] == votes@[v]@);
            assert(alive0.contains(exiled@));
            assert(top@ =~= set![exiled@]) by {
                assert forall|x| top@.contains(x) implies x == exiled@ by {
                    if x != exiled@ {
                        assert(top@.remove(exiled@).contains(x));
                        assert(top@.remove(exiled@).len() == 0);
                    }
                }
            }
        }
        survivors.remove(exiled);
        assert(survivors@ =~= alive0.difference(top@));
        let members = role.len();
        proof {
            assert(alive0.len() >= 1) by {
                vstd::set_lib::lemma_set_empty_equivalency_len(alive0);
            }
        }
        match judge(&role, &survivors) {
            Some(team) => State::End { winner: team },
            None => {
                let waiting = survivors.duplicate();
                State::Night { count: count + 1, role, waiting, survivors }
            },
        }
    } else {
        let waiting = survivors.duplicate();
        let votes: NameMap<Name> = NameMap::new();
        assert(votes_view(votes) =~= Map::empty());
        State::Day { count, role, waiting, survivors, votes, candidates: top }
    }
}

/// Resolving a finished night or day keeps a state consistent.
pub proof fn lemma_advanced_wf(s: StateView)
    requires
        s.wf(),
    ensures
        advanced(s).wf(),
        advanced(s).started() ==> advanced(s).roster() == s.roster(),
{
    match s {
        StateView::Night { count, role, waiting, survivors } => {
            if waiting.len() == 0 {
                let role2 = night_roles(role);
                let alive = night_survivors(role, survivors);
                assert(role2.dom() =~= role.dom());
                vstd::set_lib::lemma_set_subset_finite(role.dom(), survivors);
                vstd::set_lib::lemma_len_subset(alive, survivors);
                assert(Map::<Seq<char>, Seq<char>>::empty().dom() =~= alive.difference(alive));
            }
        },
        StateView::Day { count, role, waiting, survivors, votes, candidates } => {
            if waiting.len() == 0 {
                let top = top_voted(votes);
                assert(top.subset_of(survivors)) by {
                    assert forall|t| top.contains(t) implies survivors.contains(t) by {
                        let v = choose|v: Seq<char>| #[trigger] votes.contains_key(v) && votes[v] == t;
                    }
                }
                vstd::set_lib::lemma_set_subset_finite(role.dom(), survivors);
                if top.len() == 1 {
                    let alive = survivors.difference(top);
                    vstd::set_lib::lemma_set_subset_finite(survivors, top);
                    vstd::set_lib::lemma_set_difference_len(survivors, top);
                    assert(survivors.intersect(top) =~= top);
                    assert(Map::<Seq<char>, Seq<char>>::empty().dom() =~= alive.difference(alive));
                } else {
                    assert(Map::<Seq<char>, Seq<char>>::empty().dom() =~= survivors.difference(
                        survivors,
                    ));
                }
            }
        },
        _ => {},
    }
}

/// Resolves the current night or day if every action is in.
pub fn advance(state: &mut State)
    requires
        old(state)@.wf(),
    ensures
        final(state)@ == advanced(old(state)@),
        final(state)@.wf(),
{
    let ready = match &*state {
        State::Night { waiting, .. } => waiting.is_empty(),
        State::Day { waiting, .. } => waiting.is_empty(),
        _ => false,
    };
    if ready {
        let mut current = State::End { winner: Team::Citizen };
        std::mem::swap(state, &mut current);
        let next = match current {
            State::Night { count, role, survivors, .. } => night_end(count, role, survivors),
            State::Day { count, role, survivors, votes, .. } => {
                proof {
                    assert(roles_view(role).dom() == role@.dom());
                    assert forall|v| #[trigger] votes@.contains_key(v) implies survivors@.contains(
                        votes@[v]@,
                    ) by {
                        assert(votes_view(votes).contains_key(v));
                    }
                }
                day_end(count, role, survivors, &votes)
            },
            other => other,
        };
        *state = next;
    }
    proof {
        lemma_advanced_wf(old(state)@);
    }
}

} // verus!
