//! Declarative autostart and layout restoration for the niri compositor: the verified core.
pub mod config;
pub mod error;
pub mod event_adapter;
pub mod model;
pub mod paths;
pub mod predicate;
pub mod reconcile;
pub mod reducer;
pub mod runtime_state;
pub mod state;
pub mod text;

use vstd::prelude::*;

use crate::config::Config;
use crate::reconcile::{config_fits, Reconciler, Step};
use crate::runtime_state::RuntimeState;
use crate::state::ActualState;

verus! {

/// Starts reconciling niri toward `config`, with the windows remembered in
/// `runtime_state` and niri's initial state `state`; the caller then performs the
/// reconciler's commands until it is done.
pub fn run(config: Config, runtime_state: RuntimeState, state: ActualState) -> (r: Reconciler)
    requires
        state.well_formed(),
        config_fits(config),
    ensures
        r.wf(),
        r.running(),
        r.spec_stack() == seq![Step::RunWorkspaces { ws: 0 }],
        r.spec_config() == config,
        r.spec_runtime() == runtime_state,
        r.spec_state() == state,
{
    let mut reconciler = Reconciler::new(runtime_state, state);
    reconciler.run(config);
    reconciler
}

} // verus!
