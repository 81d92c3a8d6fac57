use nowhere_actors::actor::{run_actor, Actor, ActorError, ActorExit, Context};
use nowhere_actors::mailbox::Mailbox;
use nowhere_actors::supervise::{
    next_backoff, supervise_step, SuperviseAction, SuperviseEvent, INITIAL_BACKOFF_MS,
    MAX_BACKOFF_MS,
};
use nowhere_actors::system::{first_failure, ShutdownBus};

/// Sits on its mailbox and never stops on its own.
struct Sleeper;

impl Actor for Sleeper {
    type Msg = u64;

    fn handle(&mut self, _msg: u64, _ctx: &mut Context) -> Result<(), ActorError> {
        Ok(())
    }
}

#[test]
fn one_signal_stops_every_earlier_subscriber() {
    let mut bus = ShutdownBus::new();
    let mut sub1 = bus.subscribe();
    let mut sub2 = bus.subscribe();
    let mut inbox1: Mailbox<u64> = Mailbox::new(4);
    let inbox2: Mailbox<u64> = Mailbox::new(4);
    assert!(inbox1.try_send(1).is_ok());

    bus.signal();

    let (exit1, _inbox1, _h1) = run_actor(&mut Sleeper, inbox1, sub1.recv(&bus));
    let (exit2, _inbox2, _h2) = run_actor(&mut Sleeper, inbox2, sub2.recv(&bus));
    assert!(matches!(exit1, ActorExit::Shutdown));
    assert!(matches!(exit2, ActorExit::Shutdown));

    // Joining both clean stops propagates no failure.
    let joined = first_failure(vec![Ok(()), Ok(())]);
    assert!(joined.is_ok());
}

#[test]
fn repeated_signals_are_idempotent() {
    let mut bus = ShutdownBus::new();
    let mut sub = bus.subscribe();
    bus.signal();
    bus.signal();
    assert!(sub.recv(&bus));
    // Both signals were consumed by the one receive.
    assert!(!sub.recv(&bus));
}

#[test]
fn late_subscribers_miss_earlier_signals() {
    let mut bus = ShutdownBus::new();
    bus.signal();
    let sub = bus.subscribe();
    assert!(!sub.pending(&bus));
}

#[test]
fn pending_does_not_consume() {
    let mut bus = ShutdownBus::new();
    let mut sub = bus.subscribe();
    bus.signal();
    assert!(sub.pending(&bus));
    assert!(sub.pending(&bus));
    assert!(sub.recv(&bus));
}

#[test]
fn first_failure_reports_the_earliest_error() {
    let results = vec![
        Ok(()),
        Err(ActorError { message: "first".to_string() }),
        Err(ActorError { message: "second".to_string() }),
    ];
    match first_failure(results) {
        Err(e) => assert_eq!(e.message, "first"),
        Ok(()) => panic!("a failed task must surface"),
    }
}

#[test]
fn supervisor_backoff_doubles_to_the_ceiling() {
    assert_eq!(INITIAL_BACKOFF_MS, 100);
    assert_eq!(next_backoff(100), 200);
    assert_eq!(next_backoff(200), 400);
    assert_eq!(next_backoff(16_000), 30_000);
    assert_eq!(next_backoff(MAX_BACKOFF_MS), MAX_BACKOFF_MS);
}

#[test]
fn supervisor_restarts_on_failure_and_stops_on_shutdown() {
    let a = supervise_step(SuperviseEvent::UnitFailed, 100);
    assert_eq!(a, SuperviseAction::Restart { sleep_ms: 100, next_backoff_ms: 200 });
    let a = supervise_step(SuperviseEvent::UnitFailed, 30_000);
    assert_eq!(a, SuperviseAction::Restart { sleep_ms: 30_000, next_backoff_ms: 30_000 });
    assert_eq!(supervise_step(SuperviseEvent::UnitFinished, 400), SuperviseAction::ExitOk);
    assert_eq!(supervise_step(SuperviseEvent::Shutdown, 400), SuperviseAction::ExitOk);
}
