use vstd::prelude::*;
use crate::config::{environment_named, Environment, Settings};
use crate::utils::errors::ApiError;

verus! {

/// Where the recurring refresh stands.
#[derive(Clone, Copy, Debug, PartialEq, Eq, Structural)]
pub enum RefreshState {
    /// Not started.
    Idle,
    /// Never runs: the process is not in production.
    Disabled,
    /// The interval is running.
    Waiting,
    /// Timelines are being pulled.
    Pulling,
    /// Gaps are being repaired.
    Backfilling,
}

/// What happened outside.
#[derive(Clone, Copy, Debug)]
pub enum RefreshEvent {
    /// The process asks for the refresh to start.
    Started(Environment),
    /// The interval has elapsed.
    TimerFired,
    /// The pull has ended, well or not.
    PullFinished(Result<(), ApiError>),
    /// The repair has ended, well or not.
    BackfillFinished(Result<(), ApiError>),
}

/// What to do next outside.
#[derive(Clone, Copy, Debug, PartialEq, Eq, Structural)]
pub enum RefreshAction {
    Nothing,
    /// Let this many seconds pass, then report `TimerFired`.
    Wait { seconds: u64 },
    /// Pull the timelines, then report `PullFinished`.
    Pull,
    /// Repair the gaps, then report `BackfillFinished`.
    Backfill,
}

/// Seconds between two refreshes: the settings give minutes. The largest
/// `u64` stands for any longer interval.
pub open spec fn interval_seconds(refresh_freq: u64) -> u64 {
    if 60 * refresh_freq > u64::MAX {
        u64::MAX
    } else {
        (60 * refresh_freq) as u64
    }
}

/// The refresh as a machine. It starts only in production. Every work
/// step is preceded by a full interval, the first one too; a pull is
/// followed by a repair whether it failed or not, and a repair by the next
/// interval. An event that the state does not await changes nothing.
pub open spec fn step_spec(state: RefreshState, event: RefreshEvent, refresh_freq: u64) -> (
    RefreshState,
    RefreshAction,
) {
    match (state, event) {
        (RefreshState::Idle, RefreshEvent::Started(Environment::Dev)) => (
            RefreshState::Disabled,
            RefreshAction::Nothing,
        ),
        (RefreshState::Idle, RefreshEvent::Started(Environment::Prod)) => (
            RefreshState::Waiting,
            RefreshAction::Wait { seconds: interval_seconds(refresh_freq) },
        ),
        (RefreshState::Waiting, RefreshEvent::TimerFired) => (
            RefreshState::Pulling,
            RefreshAction::Pull,
        ),
        (RefreshState::Pulling, RefreshEvent::PullFinished(_)) => (
            RefreshState::Backfilling,
            RefreshAction::Backfill,
        ),
        (RefreshState::Backfilling, RefreshEvent::BackfillFinished(_)) => (
            RefreshState::Waiting,
            RefreshAction::Wait { seconds: interval_seconds(refresh_freq) },
        ),
        _ => (state, RefreshAction::Nothing),
    }
}

/// Seconds between two refreshes.
pub fn refresh_interval(config: &Settings) -> (r: u64)
    ensures
        r == interval_seconds(config.app.refresh_freq),
{
    match config.app.refresh_freq.checked_mul(60) {
        Some(s) => s,
        None => u64::MAX,
    }
}

/// Takes the refresh one step on.
pub fn next_step(state: RefreshState, event: RefreshEvent, config: &Settings) -> (r: (
    RefreshState,
    RefreshAction,
))
    ensures
        r == step_spec(state, event, config.app.refresh_freq),
{
    match (state, event) {
        (RefreshState::Idle, RefreshEvent::Started(Environment::Dev)) => (
            RefreshState::Disabled,
            RefreshAction::Nothing,
        ),
        (RefreshState::Idle, RefreshEvent::Started(Environment::Prod)) => (
            RefreshState::Waiting,
            RefreshAction::Wait { seconds: refresh_interval(config) },
        ),
        (RefreshState::Waiting, RefreshEvent::TimerFired) => (
            RefreshState::Pulling,
            RefreshAction::Pull,
        ),
        (RefreshState::Pulling, RefreshEvent::PullFinished(_)) => (
            RefreshState::Backfilling,
            RefreshAction::Backfill,
        ),
        (RefreshState::Backfilling, RefreshEvent::BackfillFinished(_)) => (
            RefreshState::Waiting,
            RefreshAction::Wait { seconds: refresh_interval(config) },
        ),
        _ => (state, RefreshAction::Nothing),
    }
}

/// Starts the refresh for the environment that the process names; no name
/// means `dev`. A name that denotes no environment is handed back in a
/// message, and nothing starts.
pub fn schedule_tweet_refresh(app_environment: Option<String>, config: &Settings) -> (r: Result<
    (RefreshState, RefreshAction),
    String,
>)
    ensures
        match environment_named(
            match app_environment {
                Some(name) => name@,
                None => "dev"@,
            },
        ) {
            Some(env) => r == Ok::<(RefreshState, RefreshAction), String>(
                step_spec(RefreshState::Idle, RefreshEvent::Started(env), config.app.refresh_freq),
            ),
            None => r is Err && r->Err_0@ == (match app_environment {
                Some(name) => name@,
                None => "dev"@,
            }) + " is an unsupported Environment. Use either 'dev' or 'prod'."@,
        },
{
    let name = match app_environment {
        Some(name) => name,
        None => "dev".to_owned(),
    };
    match Environment::try_from(name) {
        Ok(env) => Ok(next_step(RefreshState::Idle, RefreshEvent::Started(env), config)),
        Err(message) => Err(message),
    }
}

/// Work is only ever started by the timer: whatever the state and the
/// event, a pull is ordered only when the interval has elapsed, and a
/// repair only when a pull has ended.
pub proof fn lemma_wait_precedes_work(state: RefreshState, event: RefreshEvent, refresh_freq: u64)
    ensures
        step_spec(state, event, refresh_freq).1 == RefreshAction::Pull ==> state
            == RefreshState::Waiting && event == RefreshEvent::TimerFired,
        step_spec(state, event, refresh_freq).1 == RefreshAction::Backfill ==> state
            == RefreshState::Pulling && event is PullFinished,
        state == RefreshState::Disabled ==> step_spec(state, event, refresh_freq) == (
            RefreshState::Disabled,
            RefreshAction::Nothing,
        ),
{
}

} // verus!
