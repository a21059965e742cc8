//! The controller: modal state and the transition taken for each logical
//! command. Transitions are pure; the surrounding loop only performs the
//! action each transition asks for.

use vstd::prelude::*;
use crate::model::{
    ProcessId, ProcessInfo, ProcessInfoView, SortKey, SignalKind, UiMode, Direction,
    DispatchOutcome, views,
};
use crate::selection::{advance, advance_spec, pid_index, resolve};
use crate::dispatch::{dispatch, live_pids};

verus! {

/// The whole mutable state of the monitor between two events: modal state,
/// logical selection, and the persisting sort key.
#[derive(Clone, Copy, Debug, PartialEq, Eq, Structural)]
pub struct AppState {
    pub mode: UiMode,
    pub selection: Option<ProcessId>,
    pub sort_key: SortKey,
}

/// A logical command, as the thin key-mapping adapter outside the core
/// hands it in.
#[derive(Clone, Copy, Debug, PartialEq, Eq, Structural)]
pub enum Command {
    Quit,
    NavigateUp,
    NavigateDown,
    SetSort(SortKey),
    OpenKillMenu,
    CancelKillMenu,
    ChooseSignal(SignalKind),
}

/// What the loop around the core must do after a transition.
#[derive(Clone, Copy, Debug, PartialEq, Eq, Structural)]
pub enum Action {
    Continue,
    Exit,
    Dispatch(SignalKind),
}

/// The selection names a row of the current view.
pub open spec fn resolves_in_view(sel: Option<ProcessId>, s: Seq<ProcessInfoView>) -> bool {
    sel is Some && pid_index(s, sel->0) is Some
}

/// The transition for one command against the current sorted view.
/// Navigation and the sort key are handled in either mode; the kill menu
/// opens only from normal mode and only while the selection resolves to a
/// row of the view; choosing a signal always returns to normal mode,
/// whatever comes of the delivery; quitting is immediate.
pub open spec fn step_spec(st: AppState, cmd: Command, s: Seq<ProcessInfoView>) -> (AppState, Action) {
    match cmd {
        Command::Quit => (st, Action::Exit),
        Command::NavigateUp => (
            AppState { selection: advance_spec(st.selection, s, Direction::Up), ..st },
            Action::Continue,
        ),
        Command::NavigateDown => (
            AppState { selection: advance_spec(st.selection, s, Direction::Down), ..st },
            Action::Continue,
        ),
        Command::SetSort(k) => (AppState { sort_key: k, ..st }, Action::Continue),
        Command::OpenKillMenu => if st.mode == UiMode::Normal && resolves_in_view(st.selection, s) {
            (AppState { mode: UiMode::KillMenu, ..st }, Action::Continue)
        } else {
            (st, Action::Continue)
        },
        Command::CancelKillMenu => (AppState { mode: UiMode::Normal, ..st }, Action::Continue),
        Command::ChooseSignal(k) => if st.mode == UiMode::KillMenu {
            (AppState { mode: UiMode::Normal, ..st }, Action::Dispatch(k))
        } else {
            (st, Action::Continue)
        },
    }
}

impl AppState {
    /// The monitor starts in normal mode, nothing selected, ordered by
    /// descending CPU.
    pub fn initial() -> (s: AppState)
        ensures
            s.mode == UiMode::Normal,
            s.selection is None,
            s.sort_key == SortKey::ByCpuDescending,
    {
        AppState { mode: UiMode::Normal, selection: None, sort_key: SortKey::ByCpuDescending }
    }
}

/// Apply one command to the state, against the current sorted view.
pub fn step(state: &AppState, cmd: Command, view: &Vec<ProcessInfo>) -> (r: (AppState, Action))
    ensures
        r == step_spec(*state, cmd, views(view@)),
{
    match cmd {
        Command::Quit => (*state, Action::Exit),
        Command::NavigateUp => (
            AppState { selection: advance(state.selection, view, Direction::Up), ..*state },
            Action::Continue,
        ),
        Command::NavigateDown => (
            AppState { selection: advance(state.selection, view, Direction::Down), ..*state },
            Action::Continue,
        ),
        Command::SetSort(k) => (AppState { sort_key: k, ..*state }, Action::Continue),
        Command::OpenKillMenu => {
            let live = resolve(state.selection, view).is_some();
            if state.mode == UiMode::Normal && live {
                (AppState { mode: UiMode::KillMenu, ..*state }, Action::Continue)
            } else {
                (*state, Action::Continue)
            }
        },
        Command::CancelKillMenu => (AppState { mode: UiMode::Normal, ..*state }, Action::Continue),
        Command::ChooseSignal(k) => {
            if state.mode == UiMode::KillMenu {
                (AppState { mode: UiMode::Normal, ..*state }, Action::Dispatch(k))
            } else {
                (*state, Action::Continue)
            }
        },
    }
}

/// Apply one command and, where the transition asks for a delivery, perform
/// it against the live table at once. The returned state is already back in
/// normal mode before any delivery outcome is known; no outcome changes it.
pub fn handle_command(
    state: &AppState,
    cmd: Command,
    view: &Vec<ProcessInfo>,
    sys: &sysinfo::System,
) -> (r: (AppState, Action, Option<DispatchOutcome>))
    ensures
        (r.0, r.1) == step_spec(*state, cmd, views(view@)),
        (r.2 is Some) <==> (r.1 is Dispatch),
        r.2 is Some ==> {
            let o = r.2->0;
            &&& (o == DispatchOutcome::NoSelection) <==> (state.selection is None)
            &&& (o == DispatchOutcome::ProcessNotFound) <==> (state.selection is Some
                && !live_pids(*sys).contains(state.selection->0))
            &&& (state.selection is Some && live_pids(*sys).contains(state.selection->0)) ==> (o
                == DispatchOutcome::Delivered || o == DispatchOutcome::DeliveryFailed)
        },
{
    let (next, act) = step(state, cmd, view);
    match act {
        Action::Dispatch(k) => {
            let o = dispatch(sys, state.selection, k);
            (next, act, Some(o))
        },
        _ => (next, act, None),
    }
}

/// The bounded wait before the next resample: the tick interval less the
/// time already elapsed, never below zero, so a burst of input cannot delay
/// a due resample by more than the time already spent.
pub fn remaining_timeout_ms(tick_interval_ms: u64, elapsed_ms: u64) -> (r: u64)
    ensures
        r == if elapsed_ms >= tick_interval_ms {
            0 as u64
        } else {
            (tick_interval_ms - elapsed_ms) as u64
        },
{
    if elapsed_ms >= tick_interval_ms {
        0
    } else {
        tick_interval_ms - elapsed_ms
    }
}

} // verus!
