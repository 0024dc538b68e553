//! The application shell: configuration, interactive state, the
//! coordinator when one is connected, and the quit flag.

use vstd::prelude::*;

use crate::api::ApiClient;
use crate::config::Config;
use crate::state::AppState;

verus! {

/// The running application.
pub struct App {
    pub config: Config,
    pub state: AppState,
    pub api: Option<ApiClient>,
    pub should_quit: bool,
}

impl App {
    /// The connected coordinator, if any.
    pub open spec fn spec_api(self) -> Option<ApiClient> {
        self.api
    }

    /// Whether the main loop should stop.
    pub open spec fn spec_should_quit(self) -> bool {
        self.should_quit
    }

    /// Assembles the application from its loaded parts.
    pub fn assemble(config: Config, state: AppState, api: Option<ApiClient>) -> (r: App)
        ensures
            r.config == config,
            r.state == state,
            r.spec_api() == api,
            !r.spec_should_quit(),
    {
        App { config, state, api, should_quit: false }
    }

    /// Whether the main loop should stop.
    pub fn should_quit(&self) -> (r: bool)
        ensures
            r == self.spec_should_quit(),
    {
        self.should_quit
    }

    /// Asks the main loop to stop.
    pub fn quit(&mut self)
        ensures
            final(self).spec_should_quit(),
            final(self).config == old(self).config,
            final(self).state == old(self).state,
            final(self).spec_api() == old(self).spec_api(),
    {
        self.should_quit = true;
    }

    /// The interactive state.
    pub fn state(&self) -> (r: &AppState)
        ensures
            *r == self.state,
    {
        &self.state
    }

    /// The interactive state, for updating.
    pub fn state_mut(&mut self) -> (r: &mut AppState)
        ensures
            *r == old(self).state,
            final(self).state == *final(r),
            final(self).config == old(self).config,
            final(self).spec_api() == old(self).spec_api(),
            final(self).spec_should_quit() == old(self).spec_should_quit(),
    {
        &mut self.state
    }

    /// The connected coordinator, if any.
    pub fn api(&self) -> (r: Option<&ApiClient>)
        ensures
            match r {
                Some(a) => self.spec_api() == Some(*a),
                None => self.spec_api() is None,
            },
    {
        self.api.as_ref()
    }

    /// The connected coordinator, for updating.
    pub fn api_mut(&mut self) -> (r: Option<&mut ApiClient>)
        ensures
            final(self).config == old(self).config,
            final(self).state == old(self).state,
            final(self).spec_should_quit() == old(self).spec_should_quit(),
            match r {
                Some(a) => old(self).spec_api() == Some(*a) && final(self).spec_api() == Some(
                    *final(a),
                ),
                None => old(self).spec_api() is None && final(self).spec_api() is None,
            },
    {
        self.api.as_mut()
    }

    /// Detaches the coordinator, leaving none connected.
    pub fn take_api(&mut self) -> (r: Option<ApiClient>)
        ensures
            r == old(self).spec_api(),
            final(self).spec_api() is None,
            final(self).config == old(self).config,
            final(self).state == old(self).state,
            final(self).spec_should_quit() == old(self).spec_should_quit(),
    {
        self.api.take()
    }

    /// Connects a coordinator.
    pub fn set_api(&mut self, api: ApiClient)
        ensures
            final(self).spec_api() == Some(api),
            final(self).config == old(self).config,
            final(self).state == old(self).state,
            final(self).spec_should_quit() == old(self).spec_should_quit(),
    {
        self.api = Some(api);
    }

    /// Shows an error message until a few seconds past `now`.
    pub fn set_error_message(&mut self, msg: String, now: u64)
        ensures
            final(self).state.error_message matches Some(m) && m@ == msg@,
            final(self).config == old(self).config,
            final(self).spec_api() == old(self).spec_api(),
            final(self).spec_should_quit() == old(self).spec_should_quit(),
    {
        self.state.set_error_message(msg, now);
    }
}

} // verus!
