use nowhere_actors::actor::{run_actor, Actor, ActorError, ActorExit, Context};
use nowhere_actors::mailbox::Mailbox;

/// Accumulates a sum and asks to stop once it reaches a threshold.
struct Accumulator {
    sum: u64,
    stop_at: u64,
}

impl Actor for Accumulator {
    type Msg = u64;

    fn handle(&mut self, msg: u64, ctx: &mut Context) -> Result<(), ActorError> {
        self.sum += msg;
        if self.sum >= self.stop_at {
            ctx.stop();
        }
        Ok(())
    }
}

/// Records every message it sees, never stops on its own.
struct Recorder {
    seen: Vec<u64>,
}

impl Actor for Recorder {
    type Msg = u64;

    fn handle(&mut self, msg: u64, _ctx: &mut Context) -> Result<(), ActorError> {
        self.seen.push(msg);
        Ok(())
    }
}

/// Fails on the first message.
struct Grumpy;

impl Actor for Grumpy {
    type Msg = u64;

    fn handle(&mut self, _msg: u64, _ctx: &mut Context) -> Result<(), ActorError> {
        Err(ActorError { message: "refused".to_string() })
    }
}

#[test]
fn fifo_and_stop_at_threshold() {
    let mut inbox: Mailbox<u64> = Mailbox::new(8);
    assert!(inbox.try_send(2).is_ok());
    assert!(inbox.try_send(3).is_ok());
    inbox.drop_producer();
    let mut actor = Accumulator { sum: 0, stop_at: 5 };
    let (exit, _inbox, _handled) = run_actor(&mut actor, inbox, false);
    assert!(matches!(exit, ActorExit::Stopped));
    assert_eq!(actor.sum, 5);
}

#[test]
fn try_send_on_full_returns_message() {
    let mut inbox: Mailbox<u64> = Mailbox::new(1);
    assert!(inbox.try_send(42).is_ok());
    match inbox.try_send(7) {
        Err(m) => assert_eq!(m, 7),
        Ok(()) => panic!("second send must fail: the mailbox is full"),
    }
    assert_eq!(inbox.len(), 1);
}

#[test]
fn try_send_on_closed_returns_message() {
    let mut inbox: Mailbox<u64> = Mailbox::new(4);
    inbox.drop_producer();
    match inbox.try_send(9) {
        Err(m) => assert_eq!(m, 9),
        Ok(()) => panic!("send into a closed mailbox must fail"),
    }
}

#[test]
fn messages_are_delivered_in_send_order() {
    let mut inbox: Mailbox<u64> = Mailbox::new(8);
    assert!(inbox.try_send(1).is_ok());
    assert!(inbox.try_send(2).is_ok());
    assert!(inbox.try_send(3).is_ok());
    inbox.drop_producer();
    let mut actor = Recorder { seen: Vec::new() };
    let (exit, _inbox, _handled) = run_actor(&mut actor, inbox, false);
    assert!(matches!(exit, ActorExit::Drained));
    assert_eq!(actor.seen, vec![1, 2, 3]);
}

#[test]
fn closed_and_drained_resolves_clean() {
    let mut inbox: Mailbox<u64> = Mailbox::new(4);
    assert!(inbox.try_send(10).is_ok());
    inbox.drop_producer();
    let mut actor = Recorder { seen: Vec::new() };
    let (exit, _inbox, _handled) = run_actor(&mut actor, inbox, false);
    assert!(matches!(exit, ActorExit::Drained));
    assert_eq!(actor.seen, vec![10]);
}

#[test]
fn open_empty_mailbox_reports_idle() {
    let inbox: Mailbox<u64> = Mailbox::new(4);
    let mut actor = Recorder { seen: Vec::new() };
    let (exit, _inbox, _handled) = run_actor(&mut actor, inbox, false);
    assert!(matches!(exit, ActorExit::Idle));
}

#[test]
fn pending_shutdown_stops_before_messages() {
    let mut inbox: Mailbox<u64> = Mailbox::new(4);
    assert!(inbox.try_send(1).is_ok());
    let mut actor = Recorder { seen: Vec::new() };
    let (exit, inbox, _handled) = run_actor(&mut actor, inbox, true);
    assert!(matches!(exit, ActorExit::Shutdown));
    assert!(actor.seen.is_empty());
    assert_eq!(inbox.len(), 1);
}

#[test]
fn handler_error_is_terminal() {
    let mut inbox: Mailbox<u64> = Mailbox::new(4);
    assert!(inbox.try_send(1).is_ok());
    inbox.drop_producer();
    let mut actor = Grumpy;
    let (exit, _inbox, _handled) = run_actor(&mut actor, inbox, false);
    match exit {
        ActorExit::Failed(e) => assert_eq!(e.message, "refused"),
        _ => panic!("a failing handler must end the actor with its error"),
    }
}

#[test]
fn cloned_producers_keep_the_mailbox_open() {
    let mut inbox: Mailbox<u64> = Mailbox::new(4);
    inbox.clone_producer();
    inbox.drop_producer();
    assert!(!inbox.closed());
    assert!(inbox.try_send(5).is_ok());
    inbox.drop_producer();
    assert!(inbox.closed());
    assert_eq!(inbox.capacity(), 4);
}
