use statusbar::aggregator::{Aggregator, SENTINEL};
use statusbar::block::BlockType;
use statusbar::trigger::{
    is_termination, launch, realtime_signal, subscriptions, After, Initial, Role, Step, Wakeup,
    SIGHUP, SIGINT, SIGRTMIN, SIGTERM,
};

fn step(run_probe: bool, after: After) -> Step {
    Step { run_probe, after }
}

#[test]
fn out_of_range_signal_number_fails_once() {
    for kind in [
        BlockType::Signal(0),
        BlockType::Signal(16),
        BlockType::PeriodicOrSignal(5, 0),
        BlockType::PeriodicOrSignal(5, 16),
        BlockType::Signal(-3),
    ] {
        let l = launch(&kind);
        assert_eq!(l.initial, Initial::Fail);
        assert!(l.roles.is_empty());
    }
}

#[test]
fn launch_plans() {
    let l = launch(&BlockType::Once);
    assert_eq!((l.initial, l.roles), (Initial::Nothing, vec![Role::Once]));
    let l = launch(&BlockType::Periodic(30));
    assert_eq!((l.initial, l.roles), (Initial::Nothing, vec![Role::Periodic(30)]));
    let l = launch(&BlockType::Signal(1));
    assert_eq!((l.initial, l.roles), (Initial::Run, vec![Role::Listening(1)]));
    let l = launch(&BlockType::PeriodicOrSignal(7, 15));
    assert_eq!(
        (l.initial, l.roles),
        (Initial::Run, vec![Role::Listening(15), Role::Periodic(7)])
    );
}

#[test]
fn signal_numbers() {
    assert_eq!((SIGHUP, SIGINT, SIGTERM, SIGRTMIN), (1, 2, 15, 34));
    assert_eq!(realtime_signal(1), 35);
    assert_eq!(realtime_signal(15), 49);
    assert!(is_termination(SIGTERM) && is_termination(SIGINT) && is_termination(SIGHUP));
    assert!(!is_termination(35) && !is_termination(9));
}

#[test]
fn subscription_sets() {
    assert!(subscriptions(Role::Once).is_empty());
    assert_eq!(subscriptions(Role::Periodic(3)), vec![15, 2, 1]);
    assert_eq!(subscriptions(Role::Listening(3)), vec![15, 2, 1, 37]);
}

#[test]
fn once_runs_and_ends() {
    assert_eq!(Role::Once.on_start(), step(true, After::Terminate));
}

#[test]
fn periodic_cycle() {
    let r = Role::Periodic(10);
    assert_eq!(r.on_start(), step(true, After::WaitFor(10)));
    assert_eq!(r.on_wakeup(Wakeup::Timeout), step(true, After::WaitFor(10)));
    assert_eq!(r.on_wakeup(Wakeup::Received(35)), step(true, After::WaitFor(10)));
    assert_eq!(r.on_wakeup(Wakeup::Received(SIGINT)), step(false, After::Sentinel));
    assert_eq!(r.on_wakeup(Wakeup::Closed), step(false, After::Terminate));
}

#[test]
fn listening_cycle() {
    let r = Role::Listening(4);
    assert_eq!(r.on_start(), step(false, After::Listen));
    assert_eq!(r.on_wakeup(Wakeup::Received(38)), step(true, After::Listen));
    assert_eq!(r.on_wakeup(Wakeup::Received(SIGHUP)), step(false, After::Sentinel));
    assert_eq!(r.on_wakeup(Wakeup::Closed), step(false, After::Terminate));
}

#[test]
fn termination_ends_two_periodic_contexts() {
    let a = Role::Periodic(1);
    let b = Role::Periodic(60);
    assert_eq!(a.on_wakeup(Wakeup::Received(SIGTERM)), step(false, After::Sentinel));
    assert_eq!(b.on_wakeup(Wakeup::Received(SIGTERM)), step(false, After::Sentinel));
    let mut agg = Aggregator::new(2, " ", " | ", " ");
    let events = vec![(SENTINEL, None), (SENTINEL, None)];
    let (out, taken) = agg.feed(&events);
    assert_eq!(taken, 0);
    assert!(out.is_empty());
}
