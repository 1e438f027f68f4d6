use vstd::prelude::*;

use crate::block::BlockType;

verus! {

/// Hangup: one of the three termination signals.
pub const SIGHUP: i32 = 1;

/// Interrupt: one of the three termination signals.
pub const SIGINT: i32 = 2;

/// Terminate: one of the three termination signals.
pub const SIGTERM: i32 = 15;

/// The base that a unit's logical signal number is added to.
pub const SIGRTMIN: i32 = 34;

/// Whether `sig` asks the process to shut down.
pub open spec fn is_termination_spec(sig: i32) -> bool {
    sig == SIGTERM || sig == SIGINT || sig == SIGHUP
}

/// Whether a unit's logical signal number is one it can listen for.
pub open spec fn valid_signal_number(s: i32) -> bool {
    1 <= s <= 15
}

/// Whether `sig` asks the process to shut down. A signal listener forwards
/// every signal it receives and stops after forwarding one of these.
pub fn is_termination(sig: i32) -> (r: bool)
    ensures
        r == is_termination_spec(sig),
{
    sig == SIGTERM || sig == SIGINT || sig == SIGHUP
}

/// The realtime signal that a unit's logical number `s` stands for.
pub fn realtime_signal(s: i32) -> (r: i32)
    requires
        valid_signal_number(s),
    ensures
        r == SIGRTMIN + s,
{
    SIGRTMIN + s
}

/// One execution context of a unit.
#[derive(Clone, Copy, PartialEq, Eq, Debug)]
pub enum Role {
    /// Runs the probe once and ends.
    Once,
    /// Runs the probe, then waits the given seconds or for termination, and repeats.
    Periodic(u64),
    /// Waits for the unit's realtime signal (by logical number) or for termination.
    Listening(i32),
}

impl Role {
    /// A listening context holds a number it can listen for.
    pub open spec fn wf(&self) -> bool {
        match *self {
            Role::Listening(s) => valid_signal_number(s),
            _ => true,
        }
    }
}

/// The signals that the listener of a context subscribes to.
pub open spec fn subscription_spec(role: Role) -> Seq<i32> {
    match role {
        Role::Once => seq![],
        Role::Periodic(_) => seq![SIGTERM, SIGINT, SIGHUP],
        Role::Listening(s) => seq![SIGTERM, SIGINT, SIGHUP, (SIGRTMIN + s) as i32],
    }
}

/// The signals that the listener of a context with this role subscribes to;
/// a context that runs once has no listener.
pub fn subscriptions(role: Role) -> (r: Vec<i32>)
    requires
        role.wf(),
    ensures
        r@ == subscription_spec(role),
{
    match role {
        Role::Once => Vec::new(),
        Role::Periodic(_) => vec![SIGTERM, SIGINT, SIGHUP],
        Role::Listening(s) => vec![SIGTERM, SIGINT, SIGHUP, realtime_signal(s)],
    }
}

/// What happens at a unit's startup, before its contexts start.
#[derive(Clone, Copy, PartialEq, Eq, Debug)]
pub enum Initial {
    /// Nothing.
    Nothing,
    /// The probe runs once and its fragment is emitted.
    Run,
    /// The unit's configuration is invalid: one failure is emitted.
    Fail,
}

/// How a unit starts: what happens first, and the contexts it runs.
pub struct Launch {
    pub initial: Initial,
    pub roles: Vec<Role>,
}

/// How a unit with this trigger kind starts.
pub open spec fn launch_spec(kind: BlockType) -> (Initial, Seq<Role>) {
    match kind {
        BlockType::Once => (Initial::Nothing, seq![Role::Once]),
        BlockType::Periodic(t) => (Initial::Nothing, seq![Role::Periodic(t)]),
        BlockType::Signal(s) => if valid_signal_number(s) {
            (Initial::Run, seq![Role::Listening(s)])
        } else {
            (Initial::Fail, seq![])
        },
        BlockType::PeriodicOrSignal(t, s) => if valid_signal_number(s) {
            (Initial::Run, seq![Role::Listening(s), Role::Periodic(t)])
        } else {
            (Initial::Fail, seq![])
        },
    }
}

/// How a unit with this trigger kind starts. A signal number out of range
/// gives one failure and no context.
pub fn launch(kind: &BlockType) -> (r: Launch)
    ensures
        (r.initial, r.roles@) == launch_spec(*kind),
        forall|i: int| 0 <= i < r.roles@.len() ==> (#[trigger] r.roles@[i]).wf(),
{
    match *kind {
        BlockType::Once => Launch { initial: Initial::Nothing, roles: vec![Role::Once] },
        BlockType::Periodic(t) => Launch { initial: Initial::Nothing, roles: vec![Role::Periodic(t)] },
        BlockType::Signal(s) => {
            if 1 <= s && s <= 15 {
                Launch { initial: Initial::Run, roles: vec![Role::Listening(s)] }
            } else {
                Launch { initial: Initial::Fail, roles: Vec::new() }
            }
        },
        BlockType::PeriodicOrSignal(t, s) => {
            if 1 <= s && s <= 15 {
                Launch { initial: Initial::Run, roles: vec![Role::Listening(s), Role::Periodic(t)] }
            } else {
                Launch { initial: Initial::Fail, roles: Vec::new() }
            }
        },
    }
}

/// What ended a context's wait.
#[derive(Clone, Copy, PartialEq, Eq, Debug)]
pub enum Wakeup {
    /// The wait's timeout passed.
    Timeout,
    /// The context's listener forwarded this signal.
    Received(i32),
    /// The context's listener is gone.
    Closed,
}

/// What a context does after it ran (or did not run) its probe.
#[derive(Clone, Copy, PartialEq, Eq, Debug)]
pub enum After {
    /// End the context.
    Terminate,
    /// Emit the sentinel event, then end the context.
    Sentinel,
    /// Wait for a signal, at most the given seconds.
    WaitFor(u64),
    /// Wait for a signal with no timeout.
    Listen,
}

/// One move of a context: whether to run the probe and emit its fragment,
/// and what to do next.
#[derive(Clone, Copy, PartialEq, Eq, Debug)]
pub struct Step {
    pub run_probe: bool,
    pub after: After,
}

/// A context's first move.
pub open spec fn start_spec(role: Role) -> Step {
    match role {
        Role::Once => Step { run_probe: true, after: After::Terminate },
        Role::Periodic(t) => Step { run_probe: true, after: After::WaitFor(t) },
        Role::Listening(_) => Step { run_probe: false, after: After::Listen },
    }
}

/// A context's move when its wait ends.
pub open spec fn wakeup_spec(role: Role, w: Wakeup) -> Step {
    match role {
        Role::Once => Step { run_probe: false, after: After::Terminate },
        Role::Periodic(t) => match w {
            Wakeup::Received(sig) if is_termination_spec(sig) => Step {
                run_probe: false,
                after: After::Sentinel,
            },
            Wakeup::Closed => Step { run_probe: false, after: After::Terminate },
            _ => Step { run_probe: true, after: After::WaitFor(t) },
        },
        Role::Listening(_) => match w {
            Wakeup::Received(sig) => if is_termination_spec(sig) {
                Step { run_probe: false, after: After::Sentinel }
            } else {
                Step { run_probe: true, after: After::Listen }
            },
            Wakeup::Closed => Step { run_probe: false, after: After::Terminate },
            Wakeup::Timeout => Step { run_probe: false, after: After::Listen },
        },
    }
}

impl Role {
    /// The context's first move: a one-shot or periodic context runs its
    /// probe at once; a listening context waits first.
    pub fn on_start(&self) -> (r: Step)
        ensures
            r == start_spec(*self),
    {
        match *self {
            Role::Once => Step { run_probe: true, after: After::Terminate },
            Role::Periodic(t) => Step { run_probe: true, after: After::WaitFor(t) },
            Role::Listening(_) => Step { run_probe: false, after: After::Listen },
        }
    }

    /// The context's move when its wait ends: a termination signal emits the
    /// sentinel and ends it; a context whose listener is gone ends; else a
    /// periodic context runs again after its timeout or any other signal,
    /// and a listening context runs again on any other signal.
    pub fn on_wakeup(&self, w: Wakeup) -> (r: Step)
        ensures
            r == wakeup_spec(*self, w),
    {
        match *self {
            Role::Once => Step { run_probe: false, after: After::Terminate },
            Role::Periodic(t) => match w {
                Wakeup::Received(sig) => {
                    if is_termination(sig) {
                        Step { run_probe: false, after: After::Sentinel }
                    } else {
                        Step { run_probe: true, after: After::WaitFor(t) }
                    }
                },
                Wakeup::Closed => Step { run_probe: false, after: After::Terminate },
                Wakeup::Timeout => Step { run_probe: true, after: After::WaitFor(t) },
            },
            Role::Listening(_) => match w {
                Wakeup::Received(sig) => {
                    if is_termination(sig) {
                        Step { run_probe: false, after: After::Sentinel }
                    } else {
                        Step { run_probe: true, after: After::Listen }
                    }
                },
                Wakeup::Closed => Step { run_probe: false, after: After::Terminate },
                Wakeup::Timeout => Step { run_probe: false, after: After::Listen },
            },
        }
    }
}

/// A `Signal` or `PeriodicOrSignal` unit whose signal number is out of
/// range reports one failure and starts no context, so it emits nothing more.
pub proof fn lemma_invalid_number_fails_once(kind: BlockType)
    requires
        match kind {
            BlockType::Signal(s) => !valid_signal_number(s),
            BlockType::PeriodicOrSignal(_, s) => !valid_signal_number(s),
            _ => false,
        },
    ensures
        launch_spec(kind).0 == Initial::Fail,
        launch_spec(kind).1.len() == 0,
{
}

/// A termination signal that reaches a waiting context (periodic or
/// listening) makes it emit the sentinel and end, without running its probe.
pub proof fn lemma_termination_ends_waiting_context(role: Role, sig: i32)
    requires
        role !is Once,
        is_termination_spec(sig),
    ensures
        wakeup_spec(role, Wakeup::Received(sig)) == (Step { run_probe: false, after: After::Sentinel }),
{
}

/// Between two waits, a periodic context runs its probe again unless a
/// termination signal ended the wait or its listener is gone.
pub proof fn lemma_periodic_reruns(t: u64, w: Wakeup)
    requires
        !(w matches Wakeup::Received(sig) && is_termination_spec(sig)),
        w != Wakeup::Closed,
    ensures
        wakeup_spec(Role::Periodic(t), w) == (Step { run_probe: true, after: After::WaitFor(t) }),
{
}

} // verus!
