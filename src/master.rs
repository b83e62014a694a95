use vstd::prelude::*;

pub mod config;

pub use config::Config;

use crate::names::{lemma_prefix_end, lemma_prefix_start, lemma_prefix_step, name_views, Name, NameMap, NameSet};
use crate::role::{Role, RoleKind, RoleView};
use crate::state::{roles_view, State, StateView};
use crate::Permission;
use bimap::BiHashMap;
use rand::seq::SliceRandom;

verus! {

/// The secret a player presents to act under their name.
pub type Token = [u8; 32];

/// Why signing up, logging in or starting failed.
#[derive(Debug)]
pub enum Error {
    /// The display name is already taken.
    NameAlreadyRegistered(Name),
    /// The token belongs to nobody.
    AuthenticationFailed,
    /// The game has already started.
    GameAlreadyStarted,
    /// The configuration does not fit the players.
    Config(config::Error),
}

#[verifier::external_type_specification]
#[verifier::external_body]
#[verifier::reject_recursive_types(L)]
#[verifier::reject_recursive_types(R)]
#[verifier::reject_recursive_types(LS)]
#[verifier::reject_recursive_types(RS)]
pub struct ExBiHashMap<L, R, LS, RS>(BiHashMap<L, R, LS, RS>);

/// The token-to-name pairs a bimap holds.
pub uninterp spec fn token_names(m: BiHashMap<Token, Name>) -> Map<Seq<u8>, Seq<char>>;

/// The pairs of `m` once `(token, name)` is inserted: any pair that shares
/// the token or the name is dropped first.
pub open spec fn pair_inserted(
    m: Map<Seq<u8>, Seq<char>>,
    token: Seq<u8>,
    name: Seq<char>,
) -> Map<Seq<u8>, Seq<char>> {
    Map::new(
        |k: Seq<u8>| k == token || (m.contains_key(k) && m[k] != name),
        |k: Seq<u8>| if k == token { name } else { m[k] },
    )
}

/// Relies on `BiHashMap::new`: the new bimap is empty.
#[verifier::external_body]
fn empty_tokens() -> (r: BiHashMap<Token, Name>)
    ensures
        token_names(r).is_empty(),
{
    BiHashMap::new()
}

/// Relies on `BiHashMap::contains_right`: whether some pair holds the name.
#[verifier::external_body]
fn name_taken(m: &BiHashMap<Token, Name>, name: &Name) -> (r: bool)
    ensures
        r == token_names(*m).values().contains(name@),
{
    m.contains_right(name)
}

/// Relies on `BiHashMap::insert`: pairs sharing the token or the name are
/// removed, then the pair is added.
#[verifier::external_body]
fn insert_pair(m: &mut BiHashMap<Token, Name>, token: Token, name: Name)
    ensures
        token_names(*final(m)) == pair_inserted(token_names(*old(m)), token@, name@),
{
    m.insert(token, name);
}

/// Relies on `BiHashMap::get_by_left`: the name paired with the token.
#[verifier::external_body]
fn name_of<'a>(m: &'a BiHashMap<Token, Name>, token: &Token) -> (r: Option<&'a Name>)
    ensures
        match r {
            Some(n) => token_names(*m).contains_key(token@) && n@ == token_names(*m)[token@],
            None => !token_names(*m).contains_key(token@),
        },
{
    m.get_by_left(token)
}

/// Relies on `BiHashMap::right_values`: every name of the bimap, once each,
/// in no particular order.
#[verifier::external_body]
fn names_of(m: &BiHashMap<Token, Name>) -> (r: Vec<Name>)
    ensures
        name_views(r@).no_duplicates(),
        name_views(r@).to_set() == token_names(*m).values(),
{
    m.right_values().cloned().collect()
}

/// Relies on `rand::random`: a token drawn at random.
#[verifier::external_body]
fn fresh_token() -> (r: Token) {
    rand::random()
}

/// Relies on `SliceRandom::shuffle`: the elements end in a random order;
/// shuffling only swaps them.
#[verifier::external_body]
fn shuffle_kinds(kinds: &mut Vec<RoleKind>)
    ensures
        final(kinds)@.to_multiset() == old(kinds)@.to_multiset(),
{
    kinds.shuffle(&mut rand::thread_rng());
}

/// Whether a player holds a role of kind `k`, as a predicate on names.
pub open spec fn has_kind(role: Map<Seq<char>, RoleView>, k: RoleKind) -> spec_fn(Seq<char>) -> bool {
    |n: Seq<char>| role[n].kind() == k
}

/// How many players hold a role of kind `k`.
pub open spec fn kind_count(role: Map<Seq<char>, RoleView>, k: RoleKind) -> nat {
    role.dom().filter(has_kind(role, k)).len()
}

/// What a game looks like right after it starts: the first night, every
/// player alive and yet to act, every role fresh, and as many roles of each
/// kind as the configuration asks for.
pub open spec fn started_with(s: StateView, players: Set<Seq<char>>, config: Config) -> bool {
    &&& s matches StateView::Night { count, role, waiting, survivors } && {
        &&& count == 0
        &&& role.dom() == players
        &&& survivors == players
        &&& waiting == players
        &&& forall|n| #[trigger] role.contains_key(n) ==> role[n] == RoleView::fresh(role[n].kind())
        &&& forall|k: RoleKind| kind_count(role, k) == config.count_of(k)
    }
}

/// Giving one more player a role adds one to the count of that role's kind.
proof fn lemma_kind_count_insert(
    rv: Map<Seq<char>, RoleView>,
    m: Seq<char>,
    r: RoleView,
    k: RoleKind,
)
    requires
        rv.dom().finite(),
        !rv.contains_key(m),
    ensures
        kind_count(rv.insert(m, r), k) == kind_count(rv, k) + if r.kind() == k {
            1int
        } else {
            0int
        },
{
    let a = rv.dom().filter(has_kind(rv, k));
    let b = rv.insert(m, r).dom().filter(has_kind(rv.insert(m, r), k));
    assert(a.subset_of(rv.dom()));
    vstd::set_lib::lemma_set_subset_finite(rv.dom(), a);
    if r.kind() == k {
        assert(b =~= a.insert(m));
    } else {
        assert(b =~= a);
    }
}

/// Appends `n` roles of kind `kind` to the pool.
fn push_copies(pool: &mut Vec<RoleKind>, kind: RoleKind, n: usize)
    requires
        old(pool)@.len() + n <= usize::MAX,
    ensures
        final(pool)@.len() == old(pool)@.len() + n,
        forall|k: RoleKind| #[trigger]
            final(pool)@.to_multiset().count(k) == old(pool)@.to_multiset().count(k) + if k
                == kind {
                n as int
            } else {
                0int
            },
{
    let ghost start = pool@;
    let mut i: usize = 0;
    while i < n
        invariant
            i <= n,
            pool@.len() == start.len() + i,
            forall|k: RoleKind| #[trigger]
                pool@.to_multiset().count(k) == start.to_multiset().count(k) + if k == kind {
                    i as int
                } else {
                    0int
                },
        decreases n - i,
    {
        let ghost before = pool@;
        pool.push(kind);
        assert(pool@ == before.push(kind));
        proof {
            before.to_multiset_ensures();
        }
        assert(pool@.to_multiset() =~= before.to_multiset().insert(kind));
        i += 1;
    }
}

/// The game master: it registers players, starts the game and hands out
/// the right to act.
pub struct Master {
    /// Which token belongs to which player.
    tokens: BiHashMap<Token, Name>,
    /// The rules of the game.
    config: Config,
    /// The state of the game.
    state: State,
}

impl Default for Master {
    fn default() -> (r: Master)
        ensures
            r.wf(),
            r.members().is_empty(),
            r.rules().total() == 0,
            r.current()@ is Waiting,
    {
        Master::new()
    }
}

impl Master {
    /// The token-to-name pairs.
    pub closed spec fn tokens_view(&self) -> Map<Seq<u8>, Seq<char>> {
        token_names(self.tokens)
    }

    /// The registered players.
    pub closed spec fn members(&self) -> Set<Seq<char>> {
        token_names(self.tokens).values()
    }

    /// The rules of the game.
    pub closed spec fn rules(&self) -> Config {
        self.config
    }

    /// The state of the game.
    pub closed spec fn current(&self) -> State {
        self.state
    }

    /// The master's consistency: the state is consistent, and once the game
    /// is under way its roles belong to exactly the registered players.
    pub open spec fn wf(&self) -> bool {
        &&& self.current()@.wf()
        &&& self.current()@.started() ==> self.current()@.roster() == self.members()
    }

    /// A master waiting for players, with the default configuration.
    pub fn new() -> (r: Master)
        ensures
            r.wf(),
            r.members().is_empty(),
            r.rules().total() == 0,
            r.current()@ is Waiting,
    {
        let r = Master { tokens: empty_tokens(), config: Config::default(), state: State::default() };
        proof {
            assert(r.members() =~= Set::empty());
        }
        r
    }

    /// A master waiting for players, with the given configuration.
    pub fn from_config(config: Config) -> (r: Master)
        ensures
            r.wf(),
            r.members().is_empty(),
            r.rules() == config,
            r.current()@ is Waiting,
    {
        let r = Master { tokens: empty_tokens(), config, state: State::default() };
        proof {
            assert(r.members() =~= Set::empty());
        }
        r
    }

    /// Registers a player under `name` and returns the player's token.
    pub fn signup(&mut self, name: Name) -> (r: Result<Token, Error>)
        requires
            old(self).wf(),
        ensures
            final(self).wf(),
            r is Ok <==> (old(self).current()@ is Waiting && !old(self).members().contains(name@)),
            match r {
                Ok(token) => {
                    &&& final(self).tokens_view() == old(self).tokens_view().insert(token@, name@)
                    &&& final(self).current() == old(self).current()
                    &&& final(self).rules() == old(self).rules()
                },
                Err(e) => {
                    &&& *final(self) == *old(self)
                    &&& !(old(self).current()@ is Waiting) ==> e is GameAlreadyStarted
                    &&& old(self).current()@ is Waiting ==> e == Error::NameAlreadyRegistered(name)
                },
            },
    {
        match self.state {
            State::Waiting { .. } => {},
            _ => {
                return Err(Error::GameAlreadyStarted);
            },
        }
        if name_taken(&self.tokens, &name) {
            return Err(Error::NameAlreadyRegistered(name));
        }
        let token = fresh_token();
        let ghost before = token_names(self.tokens);
        let ghost n = name@;
        insert_pair(&mut self.tokens, token, name);
        proof {
            assert(pair_inserted(before, token@, n) =~= before.insert(token@, n));
        }
        Ok(token)
    }

    /// The right to act as the player whose token this is.
    pub fn login<'a>(&'a mut self, token: &Token) -> (r: Result<Permission<'a>, Error>)
        requires
            old(self).wf(),
        ensures
            match r {
                Ok(p) => {
                    &&& old(self).tokens_view().contains_key(token@)
                    &&& p.name@ == old(self).tokens_view()[token@]
                    &&& *p.state == old(self).current()
                    &&& *p.config == old(self).rules()
                    &&& (*p.state)@.wf()
                    &&& (*p.state)@.admits(p.name@)
                    &&& final(self).current() == *final(p.state)
                    &&& final(self).rules() == *final(p.config)
                    &&& final(self).tokens_view() == old(self).tokens_view()
                },
                Err(e) => {
                    &&& e is AuthenticationFailed
                    &&& !old(self).tokens_view().contains_key(token@)
                    &&& *final(self) == *old(self)
                },
            },
    {
        let Master { tokens, config, state } = self;
        let tokens: &'a BiHashMap<Token, Name> = tokens;
        match name_of(tokens, token) {
            Some(name) => {
                proof {
                    assert(token_names(*tokens).values().contains(name@));
                }
                Ok(Permission { name, state, config })
            },
            None => Err(Error::AuthenticationFailed),
        }
    }

    /// Starts the game: every registered player gets a role from the
    /// configured pool in random order, and the first night begins.
    pub fn start(&mut self) -> (r: Result<(), Error>)
        requires
            old(self).wf(),
        ensures
            final(self).wf(),
            r is Ok <==> (old(self).current()@ is Waiting && old(self).rules().total()
                == old(self).members().len()),
            r is Ok ==> {
                &&& started_with(final(self).current()@, old(self).members(), old(self).rules())
                &&& final(self).tokens_view() == old(self).tokens_view()
                &&& final(self).rules() == old(self).rules()
            },
            r matches Err(e) ==> {
                &&& *final(self) == *old(self)
                &&& !(old(self).current()@ is Waiting) ==> e is GameAlreadyStarted
                &&& old(self).current()@ is Waiting ==> e == Error::Config(
                    config::Error::InvalidRoleCounts(old(self).rules()),
                )
            },
    {
            match self.state {
            State::Waiting { .. } => {},
            _ => {
                return Err(Error::GameAlreadyStarted);
            },
        }
        let names = names_of(&self.tokens);
        let ghost keys = name_views(names@);
        let n = names.len();
        proof {
            keys.unique_seq_to_set();
        }
        let total: u128 = self.config.citizen.count as u128 + self.config.wolf.count as u128
            + self.config.seer.count as u128 + self.config.hunter.count as u128;
        if total != n as u128 {
            return Err(Error::Config(config::Error::InvalidRoleCounts(self.config)));
        }
        let mut pool: Vec<RoleKind> = Vec::new();
        proof {
            assert(pool@ =~= Seq::<RoleKind>::empty());
            pool@.to_multiset_ensures();
            assert forall|k: RoleKind| #[trigger] pool@.to_multiset().count(k) == 0 by {
                assert(!pool@.contains(k));
            }
        }
        push_copies(&mut pool, RoleKind::Citizen, self.config.citizen.count);
        push_copies(&mut pool, RoleKind::Wolf, self.config.wolf.count);
        push_copies(&mut pool, RoleKind::Seer, self.config.seer.count);
        push_copies(&mut pool, RoleKind::Hunter, self.config.hunter.count);
        let ghost counted = pool@.to_multiset();
        assert(pool@.len() == n);
        assert forall|k: RoleKind| #[trigger] counted.count(k) == self.config.count_of(k) by {}
        let ghost unshuffled = pool@;
        shuffle_kinds(&mut pool);
        proof {
            pool@.to_multiset_ensures();
            unshuffled.to_multiset_ensures();
        }
        let mut role: NameMap<Role> = NameMap::new();
        let mut survivors = NameSet::new();
        let mut i: usize = 0;
        proof {
            lemma_prefix_start(keys, |x: Seq<char>| true);
            assert(roles_view(role) =~= Map::empty());
            assert forall|k: RoleKind| #[trigger] kind_count(roles_view(role), k) == pool@.take(
                0,
            ).to_multiset().count(k) by {
                assert(pool@.take(0) =~= Seq::<RoleKind>::empty());
                pool@.take(0).to_multiset_ensures();
                assert(!pool@.take(0).contains(k));
                assert(roles_view(role).dom().filter(has_kind(roles_view(role), k)) =~= Set::empty());
            }
        }
        while i < n
            invariant
                n == names@.len(),
                keys == name_views(names@),
                keys.no_duplicates(),
                pool@.len() == n,
                i <= n,
                roles_view(role).dom() == keys.take(i as int).to_set(),
                survivors@ == keys.take(i as int).to_set(),
                forall|m| #[trigger]
                    roles_view(role).contains_key(m) ==> roles_view(role)[m] == RoleView::fresh(
                        roles_view(role)[m].kind(),
                    ),
                forall|k: RoleKind| #[trigger]
                    kind_count(roles_view(role), k) == pool@.take(i as int).to_multiset().count(k),
            decreases n - i,
        {
            let kind = pool[i];
            let ghost before = roles_view(role);
            proof {
                lemma_prefix_step(keys, i as int, |x: Seq<char>| true);
                assert(keys[i as int] == names@[i as int]@);
                assert(pool@.take(i + 1) =~= pool@.take(i as int).push(kind));
                pool@.take(i as int).to_multiset_ensures();
                assert(pool@.take(i + 1).to_multiset() =~= pool@.take(i as int).to_multiset().insert(
                    kind,
                ));
            }
            role.insert(names[i].clone(), Role::fresh(kind));
            survivors.insert(names[i].clone());
            proof {
                let m = keys[i as int];
                assert(roles_view(role) =~= before.insert(m, RoleView::fresh(kind)));
                assert forall|k: RoleKind| #[trigger]
                    kind_count(roles_view(role), k) == pool@.take(i + 1).to_multiset().count(k) by {
                    lemma_kind_count_insert(before, m, RoleView::fresh(kind), k);
                }
            }
            i += 1;
        }
        proof {
            lemma_prefix_end(keys);
            assert(pool@.take(n as int) =~= pool@);
        }
        let waiting = survivors.duplicate();
        self.state = State::Night { count: 0, role, waiting, survivors };
        Ok(())
    }

    /// Every registered player.
    pub fn players(&self) -> (r: Vec<Name>)
        ensures
            name_views(r@).no_duplicates(),
            name_views(r@).to_set() == self.members(),
    {
        names_of(&self.tokens)
    }

    /// The rules of the game.
    pub fn config(&self) -> (r: &Config)
        ensures
            *r == self.rules(),
    {
        &self.config
    }

    /// The player whose token this is.
    pub fn get_name(&self, token: &Token) -> (r: Option<&Name>)
        ensures
            match r {
                Some(n) => self.tokens_view().contains_key(token@) && n@ == self.tokens_view()[token@],
                None => !self.tokens_view().contains_key(token@),
            },
    {
        name_of(&self.tokens, token)
    }

    /// The state of the game as the master holds it, with every role; what a
    /// player is shown must go through `view_for`.
    pub fn state(&self) -> (r: &State)
        ensures
            *r == self.current(),
    {
        &self.state
    }

    /// The state of the game as `viewer` may see it.
    pub fn view_for(&self, viewer: &Name) -> (r: State)
        ensures
            r@ == self.current()@.masked_for(viewer@),
    {
        self.state.mask_for(viewer)
    }
}

} // verus!
