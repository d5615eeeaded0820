//! The session actor's decisions, driven by hand with the events an actor
//! loop would observe.

use krill::actor::{ActorAction, ActorEvent, Command, SessionActor};
use krill::{Screen, SessionStatus, TransportError};

fn actor() -> SessionActor {
    SessionActor::new(Screen::new(80, 24))
}

fn backend(m: &str) -> TransportError {
    TransportError::Backend(m.to_string())
}

#[test]
fn input_is_written_and_acknowledged_with_its_length() {
    let mut a = actor();
    let acts = a.handle(ActorEvent::Command(Command::Input(b"ping".to_vec())));
    assert!(matches!(acts.as_slice(), [ActorAction::StartWrite(d)] if d == b"ping"));
    let acts = a.handle(ActorEvent::WriteDone(Ok(4)));
    assert!(matches!(acts.as_slice(), [ActorAction::InputDone(Ok(4))]));
}

#[test]
fn commands_during_a_write_are_refused_and_resize_still_served() {
    let mut a = actor();
    a.handle(ActorEvent::Command(Command::Input(b"slow".to_vec())));
    let acts = a.handle(ActorEvent::Command(Command::Input(b"more".to_vec())));
    match acts.as_slice() {
        [ActorAction::RefuseInput(TransportError::Backend(m))] => {
            assert_eq!(m, "input while a write is in flight")
        }
        _ => panic!("input was not refused"),
    }
    let acts = a.handle(ActorEvent::Command(Command::Close));
    match acts.as_slice() {
        [ActorAction::Reply(Err(TransportError::Backend(m)))] => {
            assert_eq!(m, "close requested while a write is in flight")
        }
        _ => panic!("close was not refused"),
    }
    let acts = a.handle(ActorEvent::Command(Command::Resize(100, 40)));
    assert!(matches!(acts.as_slice(), [ActorAction::Resize(100, 40)]));
    let acts = a.handle(ActorEvent::ResizeDone(Ok(())));
    assert!(matches!(acts.as_slice(), [ActorAction::PublishScreen, ActorAction::Reply(Ok(()))]));
    assert_eq!((a.screen().cols(), a.screen().rows()), (100, 40));
    let acts = a.handle(ActorEvent::WriteDone(Ok(4)));
    assert!(matches!(acts.as_slice(), [ActorAction::InputDone(Ok(4))]));
}

#[test]
fn output_drives_the_screen_and_cursor_reports_go_back() {
    let mut a = actor();
    let acts = a.handle(ActorEvent::Read(b"\x1b[3;5H\x1b[6nready".to_vec()));
    assert!(matches!(acts.as_slice(), [ActorAction::StartWrite(r)] if r == b"\x1b[3;5R"));
    assert!(a.screen().text().contains("ready"));
    let acts = a.handle(ActorEvent::WriteDone(Ok(6)));
    assert!(matches!(acts.as_slice(), [ActorAction::PublishScreen]));
    let acts = a.handle(ActorEvent::Read(b"plain".to_vec()));
    assert!(matches!(acts.as_slice(), [ActorAction::PublishScreen]));
}

#[test]
fn replies_during_a_write_are_written_inline() {
    let mut a = actor();
    a.handle(ActorEvent::Command(Command::Input(b"x".to_vec())));
    let acts = a.handle(ActorEvent::Read(b"\x1b[6n\x1b[2;2H\x1b[6n".to_vec()));
    assert!(matches!(acts.as_slice(), [ActorAction::WriteInline(r)] if r == b"\x1b[1;1R"));
    let acts = a.handle(ActorEvent::InlineWriteDone(Ok(6)));
    assert!(matches!(acts.as_slice(), [ActorAction::WriteInline(r)] if r == b"\x1b[2;2R"));
    let acts = a.handle(ActorEvent::InlineWriteDone(Ok(6)));
    assert!(matches!(acts.as_slice(), [ActorAction::PublishScreen]));
    let acts = a.handle(ActorEvent::WriteDone(Ok(1)));
    assert!(matches!(acts.as_slice(), [ActorAction::InputDone(Ok(1))]));
}

#[test]
fn eof_with_failing_teardown_reports_the_failure() {
    let mut a = actor();
    let acts = a.handle(ActorEvent::Read(Vec::new()));
    assert!(matches!(acts.as_slice(), [ActorAction::Close]));
    let acts = a.handle(ActorEvent::CloseDone(Err(backend("teardown failed"))));
    match acts.as_slice() {
        [ActorAction::PublishStatus(s), ActorAction::Stop] => assert_eq!(
            *s,
            SessionStatus::Failed("backend error: teardown failed".to_string())
        ),
        _ => panic!("unexpected actions"),
    }
    assert!(a.handle(ActorEvent::Read(b"late".to_vec())).is_empty());
}

#[test]
fn clean_eof_and_requested_close() {
    let mut a = actor();
    a.handle(ActorEvent::Read(Vec::new()));
    let acts = a.handle(ActorEvent::CloseDone(Ok(())));
    assert!(matches!(
        acts.as_slice(),
        [ActorAction::PublishStatus(SessionStatus::Eof), ActorAction::Stop]
    ));
    let mut a = actor();
    let acts = a.handle(ActorEvent::Command(Command::Close));
    assert!(matches!(acts.as_slice(), [ActorAction::Close]));
    let acts = a.handle(ActorEvent::CloseDone(Ok(())));
    assert!(matches!(
        acts.as_slice(),
        [ActorAction::PublishStatus(SessionStatus::Closed), ActorAction::Reply(Ok(())), ActorAction::Stop]
    ));
    let mut a = actor();
    a.handle(ActorEvent::CommandsEnded);
    let acts = a.handle(ActorEvent::CloseDone(Err(TransportError::Closed)));
    match acts.as_slice() {
        [ActorAction::PublishStatus(s), ActorAction::Stop] => {
            assert_eq!(*s, SessionStatus::Failed("session already closed".to_string()))
        }
        _ => panic!("unexpected actions"),
    }
}

#[test]
fn invalid_resize_is_refused_before_the_transport() {
    let mut a = actor();
    let acts = a.handle(ActorEvent::Command(Command::Resize(4096, 4096)));
    match acts.as_slice() {
        [ActorAction::Reply(Err(TransportError::Backend(m)))] => {
            assert!(m.starts_with("invalid terminal size 4096x4096"))
        }
        _ => panic!("resize was not refused"),
    }
    assert_eq!((a.screen().cols(), a.screen().rows()), (80, 24));
    let acts = a.handle(ActorEvent::Command(Command::Resize(0, 24)));
    assert!(matches!(acts.as_slice(), [ActorAction::Reply(Err(TransportError::Backend(_)))]));
}

#[test]
fn failed_input_write_closes_and_answers_closed() {
    let mut a = actor();
    a.handle(ActorEvent::Command(Command::Input(b"x".to_vec())));
    let acts = a.handle(ActorEvent::WriteDone(Err(backend("broken pipe"))));
    match acts.as_slice() {
        [ActorAction::PublishStatus(s), ActorAction::Close] => {
            assert_eq!(*s, SessionStatus::Failed("backend error: broken pipe".to_string()))
        }
        _ => panic!("unexpected actions"),
    }
    let acts = a.handle(ActorEvent::CloseDone(Ok(())));
    assert!(matches!(
        acts.as_slice(),
        [ActorAction::InputDone(Err(TransportError::Closed)), ActorAction::Stop]
    ));
}

#[test]
fn read_failure_closes_without_answering() {
    let mut a = actor();
    let acts = a.handle(ActorEvent::ReadFailed(TransportError::Closed));
    assert!(matches!(acts.as_slice(), [ActorAction::PublishStatus(_), ActorAction::Close]));
    let acts = a.handle(ActorEvent::CloseDone(Err(backend("ignored"))));
    assert!(matches!(acts.as_slice(), [ActorAction::Stop]));
}
