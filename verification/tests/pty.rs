//! The decisions of a pseudo console's output thread and teardown.

use krill::pty::{
    exit_poll_step, joined_outcome, ExitPoll, ReaderAction, ReaderEvent, ReaderMachine, ReaderPhase,
    TeardownStep, CHILD_EXIT_POLLS,
};

#[test]
fn output_is_delivered_and_waits_while_the_queue_is_full() {
    let mut m = ReaderMachine::new();
    assert_eq!(m.step(ReaderEvent::Read { count: 5, shutdown: false }), vec![ReaderAction::Deliver]);
    assert_eq!(m.step(ReaderEvent::QueueFull), vec![ReaderAction::Sleep]);
    assert_eq!(m.step(ReaderEvent::Slept { shutdown: false }), vec![ReaderAction::Deliver]);
    assert_eq!(m.step(ReaderEvent::Delivered), vec![ReaderAction::Read]);
    assert_eq!(m.phase, ReaderPhase::Reading);
}

#[test]
fn shutdown_drains_and_discards() {
    let mut m = ReaderMachine::new();
    assert_eq!(m.step(ReaderEvent::Read { count: 5, shutdown: true }), vec![ReaderAction::Read]);
    assert_eq!(m.step(ReaderEvent::Read { count: 5, shutdown: false }), vec![ReaderAction::Deliver]);
    assert_eq!(m.step(ReaderEvent::QueueFull), vec![ReaderAction::Sleep]);
    assert_eq!(m.step(ReaderEvent::Slept { shutdown: true }), vec![ReaderAction::Read]);
    assert_eq!(m.step(ReaderEvent::Read { count: 3, shutdown: false }), vec![ReaderAction::Deliver]);
    assert_eq!(
        m.step(ReaderEvent::QueueClosed),
        vec![ReaderAction::RaiseShutdown, ReaderAction::Read]
    );
    assert_eq!(m.step(ReaderEvent::Read { count: 0, shutdown: true }), vec![ReaderAction::Exit]);
    assert_eq!(m.phase, ReaderPhase::Done);
    assert!(m.step(ReaderEvent::Delivered).is_empty());
}

#[test]
fn read_errors_are_retried_until_delivered_or_shutdown() {
    let mut m = ReaderMachine::new();
    assert_eq!(m.step(ReaderEvent::ReadFailed { shutdown: false }), vec![ReaderAction::Deliver]);
    assert_eq!(m.step(ReaderEvent::QueueFull), vec![ReaderAction::Sleep]);
    assert_eq!(m.step(ReaderEvent::Slept { shutdown: false }), vec![ReaderAction::Deliver]);
    assert_eq!(m.step(ReaderEvent::Delivered), vec![ReaderAction::Exit]);
    let mut m = ReaderMachine::new();
    m.step(ReaderEvent::ReadFailed { shutdown: false });
    m.step(ReaderEvent::QueueFull);
    assert_eq!(m.step(ReaderEvent::Slept { shutdown: true }), vec![ReaderAction::Exit]);
    let mut m = ReaderMachine::new();
    assert_eq!(m.step(ReaderEvent::ReadFailed { shutdown: true }), vec![ReaderAction::Exit]);
}

#[test]
fn teardown_reports_the_first_failure() {
    assert_eq!(joined_outcome(true, true), Ok(()));
    assert_eq!(joined_outcome(false, false), Err("ConPTY reader thread panicked".to_string()));
    assert_eq!(joined_outcome(true, false), Err("ConPTY writer thread panicked".to_string()));
    assert!(matches!(exit_poll_step(0, &ExitPoll::Exited), TeardownStep::Finish(Ok(()))));
    assert!(matches!(exit_poll_step(0, &ExitPoll::Running), TeardownStep::Again));
    assert!(matches!(exit_poll_step(CHILD_EXIT_POLLS - 2, &ExitPoll::Running), TeardownStep::Again));
    match exit_poll_step(CHILD_EXIT_POLLS - 1, &ExitPoll::Running) {
        TeardownStep::Finish(Err(m)) => assert_eq!(m, "ConPTY child did not exit within two seconds"),
        _ => panic!("the last look must give up"),
    }
    match exit_poll_step(3, &ExitPoll::Failed("access denied".to_string())) {
        TeardownStep::Finish(Err(m)) => assert_eq!(m, "failed to query ConPTY child exit: access denied"),
        _ => panic!("a failed query must finish"),
    }
}
