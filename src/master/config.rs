use vstd::prelude::*;

use crate::role::{Role, RoleKind};

verus! {

/// Why a configuration was refused.
#[derive(Debug)]
pub enum Error {
    /// The role counts do not add up to the number of registered players.
    InvalidRoleCounts(Config),
}

/// The rules of a game: how many players get each role, and what each role
/// may do.
#[derive(Clone, Copy, Debug, PartialEq, Eq, Structural)]
pub struct Config {
    pub citizen: CitizenConfig,
    pub hunter: HunterConfig,
    pub seer: SeerConfig,
    pub wolf: WolfConfig,
}

/// Settings of the citizens.
#[derive(Clone, Copy, Debug, PartialEq, Eq, Structural)]
pub struct CitizenConfig {
    /// How many players are citizens.
    pub count: usize,
}

/// Settings of the hunters.
#[derive(Clone, Copy, Debug, PartialEq, Eq, Structural)]
pub struct HunterConfig {
    /// How many players are hunters.
    pub count: usize,
    /// Whether a hunter may pass the night without guarding.
    pub skippable: bool,
    /// Whether a hunter may guard the same player on two nights in a row.
    pub consecutive_guard: bool,
}

/// Settings of the wolves.
#[derive(Clone, Copy, Debug, PartialEq, Eq, Structural)]
pub struct WolfConfig {
    /// How many players are wolves.
    pub count: usize,
    /// Whether a wolf may pass the night without killing.
    pub skippable: bool,
}

/// Settings of the seers.
#[derive(Clone, Copy, Debug, PartialEq, Eq, Structural)]
pub struct SeerConfig {
    /// How many players are seers.
    pub count: usize,
    /// Whether a seer may pass the night without divining.
    pub skippable: bool,
}

impl Config {
    /// Whether a role of this kind may skip its night action; citizens always may.
    pub open spec fn may_skip(self, kind: RoleKind) -> bool {
        match kind {
            RoleKind::Citizen => true,
            RoleKind::Wolf => self.wolf.skippable,
            RoleKind::Seer => self.seer.skippable,
            RoleKind::Hunter => self.hunter.skippable,
        }
    }

    /// How many players get a role of this kind.
    pub open spec fn count_of(self, kind: RoleKind) -> nat {
        match kind {
            RoleKind::Citizen => self.citizen.count as nat,
            RoleKind::Wolf => self.wolf.count as nat,
            RoleKind::Seer => self.seer.count as nat,
            RoleKind::Hunter => self.hunter.count as nat,
        }
    }

    /// How many roles the configuration hands out in all.
    pub open spec fn total(self) -> nat {
        (self.citizen.count + self.wolf.count + self.seer.count + self.hunter.count) as nat
    }

    /// Whether the holder of `role` may skip its night action.
    pub fn skippable(&self, role: &Role) -> (r: bool)
        ensures
            r == self.may_skip(role@.kind()),
    {
        match role {
            Role::Citizen => true,
            Role::Wolf { .. } => self.wolf.skippable,
            Role::Seer { .. } => self.seer.skippable,
            Role::Hunter { .. } => self.hunter.skippable,
        }
    }
}

impl Default for Config {
    fn default() -> (r: Self)
        ensures
            r.total() == 0,
            !r.hunter.skippable && !r.wolf.skippable && !r.seer.skippable,
            !r.hunter.consecutive_guard,
    {
        Config {
            citizen: CitizenConfig::default(),
            hunter: HunterConfig::default(),
            seer: SeerConfig::default(),
            wolf: WolfConfig::default(),
        }
    }
}

impl Default for CitizenConfig {
    fn default() -> (r: Self)
        ensures
            r.count == 0,
    {
        CitizenConfig { count: 0 }
    }
}

impl Default for HunterConfig {
    fn default() -> (r: Self)
        ensures
            r.count == 0 && !r.skippable && !r.consecutive_guard,
    {
        HunterConfig { count: 0, skippable: false, consecutive_guard: false }
    }
}

impl Default for WolfConfig {
    fn default() -> (r: Self)
        ensures
            r.count == 0 && !r.skippable,
    {
        WolfConfig { count: 0, skippable: false }
    }
}

impl Default for SeerConfig {
    fn default() -> (r: Self)
        ensures
            r.count == 0 && !r.skippable,
    {
        SeerConfig { count: 0, skippable: false }
    }
}

} // verus!
