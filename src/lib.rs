use vstd::prelude::*;

pub mod advance;
pub mod laws;
pub mod master;
pub mod names;
pub mod request;
pub mod role;
pub mod state;

use crate::advance::advanced;
use crate::master::Config;
use crate::names::Name;
use crate::request::Request;
use crate::state::{State, StateView};

verus! {

/// Everything that can go wrong for a player.
#[derive(Debug)]
pub enum Error {
    /// Signing up, logging in or starting failed.
    Auth(master::Error),
    /// A request was refused.
    RequestFailed(request::Error),
}

/// The right to act on the game as one player. While it exists it holds the
/// game's state and configuration exclusively, so nobody observes a request
/// half applied.
pub struct Permission<'master> {
    /// The player acting.
    pub name: &'master Name,
    /// The game's state.
    pub state: &'master mut State,
    /// The game's configuration.
    pub config: &'master mut Config,
}

/// The configuration once the request's outcome is in: a draft edited while
/// players sign up becomes the game's configuration.
pub open spec fn config_after(next: StateView, config: Config) -> Config {
    match next {
        StateView::Waiting { config: draft } => draft,
        _ => config,
    }
}

impl<'master> Permission<'master> {
    /// Applies `req` for the player, then resolves the night or the day if
    /// every action of it is in. A refused request changes nothing.
    pub fn execute<R: Request>(self, req: R) -> (r: Result<(), Error>)
        requires
            old(self.state)@.wf(),
            old(self.state)@.admits(self.name@),
        ensures
            final(self.state)@.wf(),
            final(self.state)@.started() ==> final(self.state)@.roster() == old(self.state)@.roster(),
            match req.outcome(self.name@, old(self.state)@, *old(self.config)) {
                Ok(next) => {
                    &&& r is Ok
                    &&& final(self.state)@ == advanced(next)
                    &&& *final(self.config) == config_after(next, *old(self.config))
                },
                Err(e) => {
                    &&& r == Err::<(), Error>(Error::RequestFailed(e))
                    &&& *final(self.state) == *old(self.state)
                    &&& *final(self.config) == *old(self.config)
                },
            },
    {
        let Permission { name, state, config } = self;
        match req.apply_to(state, name, config) {
            Ok(()) => {},
            Err(e) => {
                return Err(Error::RequestFailed(e));
            },
        }
        match &*state {
            State::Waiting { config: draft } => {
                *config = *draft;
            },
            _ => {},
        }
        Ok(())
    }

    /// The player acting.
    pub fn name(&self) -> (r: &Name)
        ensures
            r == self.name,
    {
        self.name
    }

    /// The state as this player may see it.
    pub fn view_state(&self) -> (r: State)
        ensures
            r@ == old(self.state)@.masked_for(self.name@),
    {
        self.state.mask_for(self.name)
    }
}

} // verus!
