use werewolf::master::config::{CitizenConfig, Error as ConfigError, HunterConfig, SeerConfig, WolfConfig};
use werewolf::master::{Config, Error as MasterError, Master, Token};
use werewolf::request::{Any, Divine, Error as RequestError, Guard, Kill, Request, Skip, UpdateConfig, Vote};
use werewolf::role::{Role, RoleKind, Team};
use werewolf::state::{Phase, State};
use werewolf::Error;

fn config(consecutive_guard: bool) -> Config {
    Config {
        citizen: CitizenConfig { count: 1 },
        hunter: HunterConfig { count: 1, skippable: false, consecutive_guard },
        seer: SeerConfig { count: 1, skippable: false },
        wolf: WolfConfig { count: 1, skippable: false },
    }
}

struct Table {
    master: Master,
    players: Vec<(String, Token)>,
}

impl Table {
    fn new(config: Config) -> Table {
        let mut master = Master::from_config(config);
        let mut players = Vec::new();
        for name in ["A", "B", "C", "D"] {
            let token = master.signup(name.to_string()).unwrap();
            players.push((name.to_string(), token));
        }
        master.start().unwrap();
        Table { master, players }
    }

    fn token(&self, name: &str) -> Token {
        self.players.iter().find(|(n, _)| n == name).unwrap().1
    }

    fn kind(&self, name: &str) -> RoleKind {
        let name = name.to_string();
        match self.master.view_for(&name) {
            State::Night { role, .. } | State::Day { role, .. } => role.get(&name).unwrap().kind(),
            _ => panic!("the game is not under way"),
        }
    }

    fn holder(&self, kind: RoleKind) -> String {
        for (name, _) in &self.players {
            if self.kind(name) == kind {
                return name.clone();
            }
        }
        panic!("no player holds this role")
    }

    fn act(&mut self, name: &str, req: Any) -> Result<(), Error> {
        let token = self.token(name);
        self.master.login(&token).unwrap().execute(req)
    }

    fn view(&self, name: &str) -> State {
        self.master.view_for(&name.to_string())
    }
}

fn kill(target: &str) -> Any {
    Any::Kill(Kill { target: target.to_string() })
}

fn guard(target: &str) -> Any {
    Any::Guard(Guard { target: target.to_string() })
}

fn divine(target: &str) -> Any {
    Any::Divine(Divine { target: target.to_string() })
}

fn vote(target: &str) -> Any {
    Any::Vote(Vote { target: target.to_string() })
}

fn skip() -> Any {
    Any::Skip(Skip())
}

fn survivors_of(state: &State) -> Vec<String> {
    let set = match state {
        State::Night { survivors, .. } | State::Day { survivors, .. } => survivors,
        _ => panic!("the game is not under way"),
    };
    let mut names = Vec::new();
    for i in 0..set.len() {
        names.push(set.get(i).clone());
    }
    names.sort();
    names
}

fn candidates_of(state: &State) -> Vec<String> {
    match state {
        State::Day { candidates, .. } => {
            let mut names = Vec::new();
            for i in 0..candidates.len() {
                names.push(candidates.get(i).clone());
            }
            names.sort();
            names
        },
        _ => panic!("not a day"),
    }
}

fn names(list: &[&str]) -> Vec<String> {
    list.iter().map(|n| n.to_string()).collect()
}

#[test]
fn guarded_victim_survives_and_exiled_wolf_loses() {
    let mut table = Table::new(config(false));
    let wolf = table.holder(RoleKind::Wolf);
    let hunter = table.holder(RoleKind::Hunter);
    let seer = table.holder(RoleKind::Seer);
    let citizen = table.holder(RoleKind::Citizen);
    let victim = seer.clone();
    assert!(matches!(table.view(&wolf), State::Night { count: 0, .. }));
    table.act(&wolf, kill(&victim)).unwrap();
    table.act(&hunter, guard(&victim)).unwrap();
    table.act(&seer, divine(&wolf)).unwrap();
    table.act(&citizen, skip()).unwrap();
    let day = table.view(&wolf);
    assert!(matches!(day, State::Day { count: 0, .. }));
    assert_eq!(survivors_of(&day), names(&["A", "B", "C", "D"]));
    assert_eq!(candidates_of(&day), names(&["A", "B", "C", "D"]));
    for name in ["A", "B", "C", "D"] {
        table.act(name, vote(&wolf)).unwrap();
    }
    assert!(matches!(table.view(&wolf), State::End { winner: Team::Citizen }));
}

#[test]
fn unguarded_victim_is_removed_before_the_day() {
    let mut table = Table::new(config(false));
    let wolf = table.holder(RoleKind::Wolf);
    let hunter = table.holder(RoleKind::Hunter);
    let seer = table.holder(RoleKind::Seer);
    let citizen = table.holder(RoleKind::Citizen);
    table.act(&wolf, kill(&citizen)).unwrap();
    table.act(&hunter, guard(&seer)).unwrap();
    table.act(&seer, divine(&hunter)).unwrap();
    table.act(&citizen, skip()).unwrap();
    let day = table.view(&wolf);
    assert!(matches!(day, State::Day { count: 0, .. }));
    let mut expected: Vec<String> = table.players.iter().map(|(n, _)| n.clone()).filter(|n| *n != citizen).collect();
    expected.sort();
    assert_eq!(survivors_of(&day), expected);
    assert_eq!(candidates_of(&day), expected);
}

#[test]
fn tied_ballot_starts_runoff() {
    let mut table = Table::new(config(false));
    let wolf = table.holder(RoleKind::Wolf);
    let hunter = table.holder(RoleKind::Hunter);
    let seer = table.holder(RoleKind::Seer);
    let citizen = table.holder(RoleKind::Citizen);
    table.act(&wolf, kill(&citizen)).unwrap();
    table.act(&hunter, guard(&citizen)).unwrap();
    table.act(&seer, divine(&citizen)).unwrap();
    table.act(&citizen, skip()).unwrap();
    table.act(&wolf, vote(&seer)).unwrap();
    table.act(&hunter, vote(&seer)).unwrap();
    table.act(&seer, vote(&citizen)).unwrap();
    table.act(&citizen, vote(&citizen)).unwrap();
    let runoff = table.view(&wolf);
    assert!(matches!(runoff, State::Day { count: 0, .. }));
    let mut tied = vec![seer.clone(), citizen.clone()];
    tied.sort();
    assert_eq!(candidates_of(&runoff), tied);
    assert_eq!(survivors_of(&runoff).len(), 4);
    match &runoff {
        State::Day { votes, waiting, .. } => {
            assert_eq!(votes.len(), 0);
            assert_eq!(waiting.len(), 4);
        },
        _ => unreachable!(),
    }
    let err = table.act(&wolf, vote(&hunter)).unwrap_err();
    assert!(matches!(err, Error::RequestFailed(RequestError::InvalidTarget(ref t)) if *t == hunter));
}

#[test]
fn exile_without_winner_starts_next_night() {
    let mut table = Table::new(config(false));
    let wolf = table.holder(RoleKind::Wolf);
    let hunter = table.holder(RoleKind::Hunter);
    let seer = table.holder(RoleKind::Seer);
    let citizen = table.holder(RoleKind::Citizen);
    table.act(&wolf, kill(&seer)).unwrap();
    table.act(&hunter, guard(&seer)).unwrap();
    table.act(&seer, divine(&wolf)).unwrap();
    table.act(&citizen, skip()).unwrap();
    for name in ["A", "B", "C", "D"] {
        table.act(name, vote(&citizen)).unwrap();
    }
    let night = table.view(&wolf);
    assert!(matches!(night, State::Night { count: 1, .. }));
    assert_eq!(survivors_of(&night).len(), 3);
    let err = table.act(&citizen, skip()).unwrap_err();
    assert!(matches!(err, Error::RequestFailed(RequestError::SurvivorsOnly)));
}

#[test]
fn wolves_win_when_half_of_survivors() {
    let mut table = Table::new(config(false));
    let wolf = table.holder(RoleKind::Wolf);
    let hunter = table.holder(RoleKind::Hunter);
    let seer = table.holder(RoleKind::Seer);
    let citizen = table.holder(RoleKind::Citizen);
    table.act(&wolf, kill(&citizen)).unwrap();
    table.act(&hunter, guard(&seer)).unwrap();
    table.act(&seer, divine(&hunter)).unwrap();
    table.act(&citizen, skip()).unwrap();
    for name in [&wolf, &hunter, &seer] {
        table.act(name, vote(&seer)).unwrap();
    }
    assert!(matches!(table.view(&wolf), State::End { winner: Team::Wolf }));
}

#[test]
fn consecutive_guard_is_refused_when_disabled() {
    let mut table = Table::new(config(false));
    let wolf = table.holder(RoleKind::Wolf);
    let hunter = table.holder(RoleKind::Hunter);
    let seer = table.holder(RoleKind::Seer);
    let citizen = table.holder(RoleKind::Citizen);
    table.act(&wolf, kill(&seer)).unwrap();
    table.act(&hunter, guard(&seer)).unwrap();
    table.act(&seer, divine(&wolf)).unwrap();
    table.act(&citizen, skip()).unwrap();
    for name in ["A", "B", "C", "D"] {
        table.act(name, vote(&citizen)).unwrap();
    }
    let err = table.act(&hunter, guard(&seer)).unwrap_err();
    assert!(matches!(err, Error::RequestFailed(RequestError::InvalidTarget(ref t)) if *t == seer));
    table.act(&hunter, guard(&wolf)).unwrap();
}

#[test]
fn consecutive_guard_is_accepted_when_enabled() {
    let mut table = Table::new(config(true));
    let wolf = table.holder(RoleKind::Wolf);
    let hunter = table.holder(RoleKind::Hunter);
    let seer = table.holder(RoleKind::Seer);
    let citizen = table.holder(RoleKind::Citizen);
    table.act(&wolf, kill(&seer)).unwrap();
    table.act(&hunter, guard(&seer)).unwrap();
    table.act(&seer, divine(&wolf)).unwrap();
    table.act(&citizen, skip()).unwrap();
    for name in ["A", "B", "C", "D"] {
        table.act(name, vote(&citizen)).unwrap();
    }
    table.act(&hunter, guard(&seer)).unwrap();
}

#[test]
fn second_action_in_a_phase_is_refused() {
    let mut table = Table::new(config(false));
    let wolf = table.holder(RoleKind::Wolf);
    let seer = table.holder(RoleKind::Seer);
    table.act(&wolf, kill(&seer)).unwrap();
    let before = table.view(&wolf);
    let err = table.act(&wolf, kill(&seer)).unwrap_err();
    assert!(matches!(err, Error::RequestFailed(RequestError::MultipleActions)));
    let after = table.view(&wolf);
    assert_eq!(format!("{:?}", before), format!("{:?}", after));
}

#[test]
fn masked_view_shows_only_own_role() {
    let table = Table::new(config(false));
    for (name, _) in &table.players {
        match table.view(name) {
            State::Night { role, .. } => {
                assert_eq!(role.len(), 1);
                assert!(role.get(name).is_some());
                for (other, _) in &table.players {
                    if other != name {
                        assert!(role.get(other).is_none());
                    }
                }
            },
            _ => panic!("expected the first night"),
        }
    }
}

#[test]
fn start_assigns_configured_roles() {
    let table = Table::new(config(false));
    let mut kinds: Vec<RoleKind> = table.players.iter().map(|(n, _)| table.kind(n)).collect();
    let count = |k: RoleKind| kinds.iter().filter(|x| **x == k).count();
    assert_eq!(count(RoleKind::Citizen), 1);
    assert_eq!(count(RoleKind::Wolf), 1);
    assert_eq!(count(RoleKind::Seer), 1);
    assert_eq!(count(RoleKind::Hunter), 1);
    kinds.clear();
    match table.view("A") {
        State::Night { count, waiting, survivors, .. } => {
            assert_eq!(count, 0);
            assert_eq!(waiting.len(), 4);
            assert_eq!(survivors.len(), 4);
        },
        _ => panic!("expected the first night"),
    }
}

#[test]
fn seer_learns_the_team() {
    let mut table = Table::new(config(false));
    let wolf = table.holder(RoleKind::Wolf);
    let seer = table.holder(RoleKind::Seer);
    table.act(&seer, divine(&wolf)).unwrap();
    match table.view(&seer) {
        State::Night { role, .. } => match role.get(&seer).unwrap() {
            Role::Seer { prediction } => {
                assert_eq!(prediction.get(&wolf), Some(&Team::Wolf));
            },
            _ => panic!("expected the seer"),
        },
        _ => panic!("expected the night"),
    }
}

#[test]
fn request_in_wrong_phase_is_refused() {
    let mut table = Table::new(config(false));
    let err = table.act("A", vote("B")).unwrap_err();
    assert!(matches!(
        err,
        Error::RequestFailed(RequestError::InvalidState { found: Phase::Night, expected: Phase::Day })
    ));
    let err = table.act("A", Any::UpdateConfig(UpdateConfig { config: config(true) })).unwrap_err();
    assert!(matches!(
        err,
        Error::RequestFailed(RequestError::InvalidState { found: Phase::Night, expected: Phase::Waiting })
    ));
}

#[test]
fn request_from_wrong_role_is_refused() {
    let mut table = Table::new(config(false));
    let seer = table.holder(RoleKind::Seer);
    let citizen = table.holder(RoleKind::Citizen);
    let err = table.act(&citizen, kill(&seer)).unwrap_err();
    assert!(matches!(err, Error::RequestFailed(RequestError::InvalidRole(RoleKind::Citizen))));
    let err = table.act(&seer, skip()).unwrap_err();
    assert!(matches!(err, Error::RequestFailed(RequestError::InvalidRole(RoleKind::Seer))));
}

#[test]
fn wolf_cannot_target_itself() {
    let mut table = Table::new(config(false));
    let wolf = table.holder(RoleKind::Wolf);
    let err = table.act(&wolf, kill(&wolf)).unwrap_err();
    assert!(matches!(err, Error::RequestFailed(RequestError::InvalidTarget(ref t)) if *t == wolf));
    let err = table.act(&wolf, kill("nobody")).unwrap_err();
    assert!(matches!(err, Error::RequestFailed(RequestError::InvalidTarget(ref t)) if t == "nobody"));
}

#[test]
fn update_config_while_waiting() {
    let mut master = Master::new();
    let token = master.signup("A".to_string()).unwrap();
    let permission = master.login(&token).unwrap();
    assert_eq!(permission.name(), "A");
    permission.execute(UpdateConfig { config: config(true) }).unwrap();
    assert_eq!(*master.config(), config(true));
}

#[test]
fn signup_rejects_a_taken_name() {
    let mut master = Master::new();
    let token = master.signup("A".to_string()).unwrap();
    assert_eq!(master.get_name(&token), Some(&"A".to_string()));
    let err = master.signup("A".to_string()).unwrap_err();
    assert!(matches!(err, MasterError::NameAlreadyRegistered(ref n) if n == "A"));
    master.signup("B".to_string()).unwrap();
    let mut players = master.players();
    players.sort();
    assert_eq!(players, names(&["A", "B"]));
}

#[test]
fn login_rejects_an_unknown_token() {
    let mut master = Master::new();
    let token = master.signup("A".to_string()).unwrap();
    assert!(master.login(&token).is_ok());
    let mut other = token;
    other[0] = other[0].wrapping_add(1);
    assert!(matches!(master.login(&other), Err(MasterError::AuthenticationFailed)));
    assert_eq!(master.get_name(&other), None);
}

#[test]
fn start_rejects_mismatched_counts() {
    let mut master = Master::from_config(config(false));
    master.signup("A".to_string()).unwrap();
    let err = master.start().unwrap_err();
    assert!(matches!(err, MasterError::Config(ConfigError::InvalidRoleCounts(c)) if c == config(false)));
    assert!(matches!(master.view_for(&"A".to_string()), State::Waiting { .. }));
}

#[test]
fn nothing_changes_after_the_start() {
    let mut table = Table::new(config(false));
    let err = table.master.signup("E".to_string()).unwrap_err();
    assert!(matches!(err, MasterError::GameAlreadyStarted));
    let err = table.master.start().unwrap_err();
    assert!(matches!(err, MasterError::GameAlreadyStarted));
}

#[test]
fn empty_game_starts_with_empty_config() {
    let mut master = Master::new();
    assert!(master.start().is_ok());
    assert!(matches!(master.start(), Err(MasterError::GameAlreadyStarted)));
}

#[test]
fn skippable_follows_the_config() {
    let mut c = config(false);
    c.wolf.skippable = true;
    assert!(c.skippable(&Role::Citizen));
    assert!(c.skippable(&Role::Wolf { killing: None }));
    assert!(!c.skippable(&Role::Hunter { guarding: None, guarded: None }));
    assert_eq!(Role::Wolf { killing: None }.team(), Team::Wolf);
    assert_eq!(Role::Citizen.team(), Team::Citizen);
}

fn subset(small: &werewolf::names::NameSet, big: &werewolf::names::NameSet) -> bool {
    (0..small.len()).all(|i| big.contains(small.get(i)))
}

fn consistent(master: &Master, players: &[(String, Token)]) -> bool {
    let roster_ok = |role: &werewolf::names::NameMap<Role>| {
        role.len() == players.len() && players.iter().all(|(n, _)| role.contains_key(n))
    };
    match master.state() {
        State::Night { role, waiting, survivors, .. } => {
            subset(waiting, survivors) && roster_ok(role) && (0..survivors.len()).all(|i| role.contains_key(survivors.get(i)))
        },
        State::Day { role, waiting, survivors, candidates, .. } => {
            subset(waiting, survivors) && subset(candidates, survivors) && roster_ok(role)
                && (0..survivors.len()).all(|i| role.contains_key(survivors.get(i)))
        },
        _ => true,
    }
}

#[test]
fn waiting_stays_within_survivors() {
    let mut table = Table::new(config(false));
    assert!(consistent(&table.master, &table.players));
    let wolf = table.holder(RoleKind::Wolf);
    let hunter = table.holder(RoleKind::Hunter);
    let seer = table.holder(RoleKind::Seer);
    let citizen = table.holder(RoleKind::Citizen);
    let steps = vec![
        (wolf.clone(), kill(&citizen)),
        (hunter.clone(), guard(&seer)),
        (seer.clone(), divine(&wolf)),
        (citizen.clone(), skip()),
        (wolf.clone(), vote(&seer)),
        (hunter.clone(), vote(&wolf)),
        (seer.clone(), vote(&wolf)),
    ];
    for (actor, req) in steps {
        table.act(&actor, req).unwrap();
        assert!(consistent(&table.master, &table.players));
    }
    assert!(matches!(table.master.state(), State::End { winner: Team::Citizen }));
}

#[test]
fn apply_to_edits_the_draft_while_waiting() {
    let mut state = State::Waiting { config: config(false) };
    let sender = "A".to_string();
    UpdateConfig { config: config(true) }.apply_to(&mut state, &sender, &config(false)).unwrap();
    assert!(matches!(state, State::Waiting { config: c } if c == config(true)));
    let err = Vote { target: "B".to_string() }.apply_to(&mut state, &sender, &config(false)).unwrap_err();
    assert!(matches!(err, RequestError::InvalidState { found: Phase::Waiting, expected: Phase::Day }));
}
