//! The decisions of the long-running `watch` service, one second at a time:
//! when to stop, which configuration to keep after a reload request, and
//! when to write the heartbeat. The program around the library runs the
//! loop, reads the signals, loads the configuration, writes and sleeps.
use vstd::prelude::*;

use crate::config::{AgentConfig, ConfigView};

verus! {

/// The state of the watch loop: the configuration in force and the seconds
/// since the heartbeat was last written.
#[derive(Debug)]
pub struct WatchState {
    pub config: AgentConfig,
    pub heartbeat_elapsed: u64,
}

/// What became of a reload request in one step.
#[derive(Debug)]
pub enum ReloadOutcome {
    /// No reload was requested.
    NotRequested,
    /// The new configuration is in force.
    Applied,
    /// Loading failed, for the reason the text gives; the previous configuration stays.
    KeptPrevious(String),
}

/// What the program around the library does after one step.
#[derive(Debug)]
pub enum WatchAction {
    /// Shut down: remove the PID file and return.
    Stop,
    /// Write the heartbeat to the given file if there is one (a failure ends
    /// the service with that error), report the reload outcome, sleep one
    /// second, and step again.
    Continue { heartbeat: Option<String>, reload: ReloadOutcome },
}

/// One second of the heartbeat clock for an interval: the seconds since the
/// last heartbeat after this step, and whether this step writes one. It
/// writes when `elapsed` has reached the interval, and the count restarts.
pub open spec fn heartbeat_tick(interval: u64, elapsed: u64) -> (u64, bool) {
    if elapsed >= interval {
        (1, true)
    } else {
        ((elapsed + 1) as u64, false)
    }
}

/// The configuration in force after a step that received `reload`: the
/// loaded one when loading succeeded, else the previous one.
pub open spec fn config_after_reload(
    previous: ConfigView,
    reload: Option<Result<ConfigView, Seq<char>>>,
) -> ConfigView {
    match reload {
        Some(Ok(c)) => c,
        _ => previous,
    }
}

/// A reload result by its view.
pub open spec fn reload_view(reload: Option<Result<AgentConfig, String>>) -> Option<Result<ConfigView, Seq<char>>> {
    match reload {
        Some(Ok(c)) => Some(Ok(c@)),
        Some(Err(m)) => Some(Err(m@)),
        None => None,
    }
}

/// The state the loop starts in with a loaded configuration: the heartbeat
/// is due at once.
pub fn watch_start(config: AgentConfig) -> (s: WatchState)
    ensures
        s.config@ == config@,
        s.heartbeat_elapsed == config.heartbeat_interval_secs,
{
    let elapsed = config.heartbeat_interval_secs;
    WatchState { config, heartbeat_elapsed: elapsed }
}

/// One step of the watch loop. `shutdown` is whether SIGTERM or SIGINT has
/// arrived; `reload` is, when SIGHUP has arrived since the last step, what
/// loading the configuration gave (the error's text on failure). A shutdown
/// stops the loop and changes nothing. Otherwise the loaded configuration
/// replaces the current one when loading succeeded, and the heartbeat is
/// written when as many seconds as its interval have passed since the last one.
pub fn watch_step(
    state: &mut WatchState,
    shutdown: bool,
    reload: Option<Result<AgentConfig, String>>,
) -> (action: WatchAction)
    ensures
        shutdown ==> action is Stop && final(state).config@ == old(state).config@
            && final(state).heartbeat_elapsed == old(state).heartbeat_elapsed,
        !shutdown ==> {
            let c = config_after_reload(old(state).config@, reload_view(reload));
            let (elapsed, write) = heartbeat_tick(c.heartbeat_interval_secs, old(state).heartbeat_elapsed);
            &&& final(state).config@ == c
            &&& final(state).heartbeat_elapsed == elapsed
            &&& action matches WatchAction::Continue { heartbeat, reload: outcome }
            &&& (write ==> (heartbeat matches Some(path) && path@ == c.heartbeat_file))
            &&& (!write ==> heartbeat is None)
            &&& match reload {
                None => outcome is NotRequested,
                Some(Ok(_)) => outcome is Applied,
                Some(Err(m)) => outcome matches ReloadOutcome::KeptPrevious(m2) && m2@ == m@,
            }
        },
{
    if shutdown {
        return WatchAction::Stop;
    }
    let outcome = match reload {
        None => ReloadOutcome::NotRequested,
        Some(Ok(c)) => {
            state.config = c;
            ReloadOutcome::Applied
        },
        Some(Err(m)) => ReloadOutcome::KeptPrevious(m),
    };
    let heartbeat = if state.heartbeat_elapsed >= state.config.heartbeat_interval_secs {
        state.heartbeat_elapsed = 1;
        Some(state.config.heartbeat_file.clone())
    } else {
        state.heartbeat_elapsed = state.heartbeat_elapsed + 1;
        None
    };
    WatchAction::Continue { heartbeat, reload: outcome }
}

/// The seconds since the last heartbeat before step `k` of a loop that
/// started with `watch_start` and has the same interval throughout.
pub open spec fn elapsed_before_step(interval: u64, k: nat) -> u64
    decreases k,
{
    if k == 0 {
        interval
    } else {
        heartbeat_tick(interval, elapsed_before_step(interval, (k - 1) as nat)).0
    }
}

/// Whether step `k` of such a loop writes the heartbeat.
pub open spec fn writes_heartbeat_at(interval: u64, k: nat) -> bool {
    heartbeat_tick(interval, elapsed_before_step(interval, k)).1
}

proof fn lemma_elapsed_before_step(interval: u64, k: nat)
    requires
        interval > 0,
    ensures
        k == 0 ==> elapsed_before_step(interval, k) == interval,
        k > 0 ==> elapsed_before_step(interval, k) == ((k - 1) as int) % (interval as int) + 1,
    decreases k,
{
    let i = interval as int;
    if k > 0 {
        assert(elapsed_before_step(interval, k) == heartbeat_tick(
            interval,
            elapsed_before_step(interval, (k - 1) as nat),
        ).0);
    }
    if k == 1 {
        assert(elapsed_before_step(interval, 0) == interval);
        vstd::arithmetic::div_mod::lemma_fundamental_div_mod_converse(0, i, 0, 0);
    } else if k > 1 {
        lemma_elapsed_before_step(interval, (k - 1) as nat);
        let x = (k - 2) as int;
        let r = x % i;
        let q = x / i;
        vstd::arithmetic::div_mod::lemma_fundamental_div_mod(x, i);
        assert(x == i * q + r);
        assert(0 <= r < i);
        if r + 1 == i {
            assert(x + 1 == (q + 1) * i + 0) by (nonlinear_arith)
                requires
                    x == i * q + r,
                    r + 1 == i,
            ;
            vstd::arithmetic::div_mod::lemma_fundamental_div_mod_converse(x + 1, i, q + 1, 0);
        } else {
            assert(x + 1 == q * i + (r + 1)) by (nonlinear_arith)
                requires
                    x == i * q + r,
            ;
            vstd::arithmetic::div_mod::lemma_fundamental_div_mod_converse(x + 1, i, q, r + 1);
        }
    }
}

/// With a configuration whose heartbeat interval is `interval` seconds and
/// no reload, the watch loop writes the heartbeat at its first step and then
/// every `interval` steps: step `k` writes exactly when `k` is a multiple of
/// the interval.
pub proof fn lemma_heartbeat_every_interval(interval: u64, k: nat)
    requires
        interval > 0,
    ensures
        writes_heartbeat_at(interval, k) == (k % (interval as nat) == 0),
{
    let i = interval as int;
    lemma_elapsed_before_step(interval, k);
    if k == 0 {
        vstd::arithmetic::div_mod::lemma_fundamental_div_mod_converse(0, i, 0, 0);
    } else {
        let x = (k - 1) as int;
        let r = x % i;
        let q = x / i;
        vstd::arithmetic::div_mod::lemma_fundamental_div_mod(x, i);
        assert(0 <= r < i);
        if r + 1 == i {
            assert(x + 1 == (q + 1) * i + 0) by (nonlinear_arith)
                requires
                    x == i * q + r,
                    r + 1 == i,
            ;
            vstd::arithmetic::div_mod::lemma_fundamental_div_mod_converse(x + 1, i, q + 1, 0);
        } else {
            assert(x + 1 == q * i + (r + 1)) by (nonlinear_arith)
                requires
                    x == i * q + r,
            ;
            vstd::arithmetic::div_mod::lemma_fundamental_div_mod_converse(x + 1, i, q, r + 1);
        }
    }
}

/// In every step without shutdown, the configuration in force is the loaded
/// one after a successful reload and the previous one otherwise, and the
/// heartbeat is written exactly when the seconds since the last one have
/// reached that configuration's interval, also when a reload has just
/// lowered the interval below the count. A write restarts the count at one
/// second; otherwise it grows by one second. So after any step the count is
/// at least one and at most the interval in force (one when the interval is 0):
/// the heartbeat is never left overdue.
pub proof fn lemma_heartbeat_written_when_due(
    previous: ConfigView,
    reload: Option<Result<ConfigView, Seq<char>>>,
    elapsed: u64,
)
    ensures
        reload matches Some(Ok(loaded)) ==> config_after_reload(previous, reload) == loaded,
        !(reload matches Some(Ok(_))) ==> config_after_reload(previous, reload) == previous,
        ({
            let interval = config_after_reload(previous, reload).heartbeat_interval_secs;
            let (next, write) = heartbeat_tick(interval, elapsed);
            &&& write == (elapsed >= interval)
            &&& write ==> next == 1
            &&& !write ==> next == elapsed + 1
            &&& 1 <= next
            &&& next <= interval || (interval == 0 && next == 1)
        }),
{
}

} // verus!
