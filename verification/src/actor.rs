//! The decisions of a session actor. The actor loop waits on the command
//! queue, on host output and on a write in flight; for each thing it
//! observes it asks [`SessionActor::handle`] what to do, does it, and
//! reports the outcome of every transport operation back as an event.
use vstd::prelude::*;

use crate::model::valid_size;
use crate::performer::{apply_actions, put_all, PerformerView};
use crate::parser::stream_actions;
use crate::screen::{size_error_message, Screen};
use crate::session::{validate_size, SessionCore, SessionStatus, StatusView};
use crate::text::text_of;
use crate::transport::{message_text, ErrorView, TransportError};

verus! {

/// A request from a session handle.
pub enum Command {
    /// Write user input to the host.
    Input(Vec<u8>),
    /// Resize the terminal to `cols` x `rows`.
    Resize(u16, u16),
    /// Close the session.
    Close,
}

/// What the actor loop observed.
pub enum ActorEvent {
    Command(Command),
    /// Every handle is gone: no command will come.
    CommandsEnded,
    /// Host output; empty at the end of output.
    Read(Vec<u8>),
    ReadFailed(TransportError),
    /// The outcome of the write started by [`ActorAction::StartWrite`].
    WriteDone(Result<usize, TransportError>),
    /// The outcome of [`ActorAction::WriteInline`].
    InlineWriteDone(Result<usize, TransportError>),
    /// The outcome of [`ActorAction::Resize`].
    ResizeDone(Result<(), TransportError>),
    /// The outcome of [`ActorAction::Close`].
    CloseDone(Result<(), TransportError>),
}

/// What the actor loop does, in the order given.
pub enum ActorAction {
    /// Answer the input command just received.
    RefuseInput(TransportError),
    /// Answer the resize or close command being handled.
    Reply(Result<(), TransportError>),
    /// Answer the input command whose write was in flight.
    InputDone(Result<usize, TransportError>),
    /// Publish the current screen.
    PublishScreen,
    PublishStatus(SessionStatus),
    /// Start writing these bytes and keep serving reads and commands while
    /// the write is in flight; report [`ActorEvent::WriteDone`].
    StartWrite(Vec<u8>),
    /// Write these bytes and wait for it; report [`ActorEvent::InlineWriteDone`].
    WriteInline(Vec<u8>),
    /// Resize the transport and wait for it; report [`ActorEvent::ResizeDone`].
    Resize(u16, u16),
    /// Close the transport and wait for it; report [`ActorEvent::CloseDone`].
    Close,
    /// Leave the loop.
    Stop,
}

/// The write in flight, if any.
#[derive(Debug, Clone, Copy, PartialEq, Eq, Structural)]
pub enum InFlight {
    Nothing,
    /// User input of this length.
    Input(usize),
    /// A reply to the host.
    Reply,
}

/// Why the transport is being closed.
#[derive(Debug, Clone, Copy, PartialEq, Eq, Structural)]
pub enum CloseCause {
    /// A close command.
    Requested,
    /// Every handle is gone.
    CommandsEnded,
    /// The host's output ended.
    Eof,
    /// A read or write failed.
    Failure,
    /// The write of a user input, or a read while it was in flight, failed.
    InputFailure,
}

/// What the loop waits for.
#[derive(Debug, Clone, Copy, PartialEq, Eq, Structural)]
pub enum Awaiting {
    /// Commands, host output and the write in flight.
    Select,
    /// An inline write.
    InlineWrite,
    /// A transport resize to this size.
    Resize(u16, u16),
    /// A transport close.
    Close(CloseCause),
}

pub enum CommandView {
    Input(Seq<u8>),
    Resize(u16, u16),
    Close,
}

pub enum ActorEventView {
    Command(CommandView),
    CommandsEnded,
    Read(Seq<u8>),
    ReadFailed(ErrorView),
    WriteDone(Result<usize, ErrorView>),
    InlineWriteDone(Result<usize, ErrorView>),
    ResizeDone(Result<(), ErrorView>),
    CloseDone(Result<(), ErrorView>),
}

pub enum ActorActionView {
    RefuseInput(ErrorView),
    Reply(Result<(), ErrorView>),
    InputDone(Result<usize, ErrorView>),
    PublishScreen,
    PublishStatus(StatusView),
    StartWrite(Seq<u8>),
    WriteInline(Seq<u8>),
    Resize(u16, u16),
    Close,
    Stop,
}

pub open spec fn count_view(r: Result<usize, TransportError>) -> Result<usize, ErrorView> {
    match r {
        Ok(n) => Ok(n),
        Err(e) => Err(e@),
    }
}

pub open spec fn unit_view(r: Result<(), TransportError>) -> Result<(), ErrorView> {
    match r {
        Ok(()) => Ok(()),
        Err(e) => Err(e@),
    }
}

impl View for Command {
    type V = CommandView;

    open spec fn view(&self) -> CommandView {
        match self {
            Command::Input(data) => CommandView::Input(data@),
            Command::Resize(c, r) => CommandView::Resize(*c, *r),
            Command::Close => CommandView::Close,
        }
    }
}

impl View for ActorEvent {
    type V = ActorEventView;

    open spec fn view(&self) -> ActorEventView {
        match self {
            ActorEvent::Command(c) => ActorEventView::Command(c@),
            ActorEvent::CommandsEnded => ActorEventView::CommandsEnded,
            ActorEvent::Read(bytes) => ActorEventView::Read(bytes@),
            ActorEvent::ReadFailed(e) => ActorEventView::ReadFailed(e@),
            ActorEvent::WriteDone(r) => ActorEventView::WriteDone(count_view(*r)),
            ActorEvent::InlineWriteDone(r) => ActorEventView::InlineWriteDone(count_view(*r)),
            ActorEvent::ResizeDone(r) => ActorEventView::ResizeDone(unit_view(*r)),
            ActorEvent::CloseDone(r) => ActorEventView::CloseDone(unit_view(*r)),
        }
    }
}

impl View for ActorAction {
    type V = ActorActionView;

    open spec fn view(&self) -> ActorActionView {
        match self {
            ActorAction::RefuseInput(e) => ActorActionView::RefuseInput(e@),
            ActorAction::Reply(r) => ActorActionView::Reply(unit_view(*r)),
            ActorAction::InputDone(r) => ActorActionView::InputDone(count_view(*r)),
            ActorAction::PublishScreen => ActorActionView::PublishScreen,
            ActorAction::PublishStatus(s) => ActorActionView::PublishStatus(s@),
            ActorAction::StartWrite(b) => ActorActionView::StartWrite(b@),
            ActorAction::WriteInline(b) => ActorActionView::WriteInline(b@),
            ActorAction::Resize(c, r) => ActorActionView::Resize(*c, *r),
            ActorAction::Close => ActorActionView::Close,
            ActorAction::Stop => ActorActionView::Stop,
        }
    }
}

pub open spec fn actor_actions_view(a: Seq<ActorAction>) -> Seq<ActorActionView> {
    a.map_values(|x: ActorAction| x@)
}

/// The abstract state of an actor.
#[verifier::ext_equal]
pub struct ActorView {
    /// The screen, the printable chars not yet on it, the replies not yet
    /// handed out.
    pub state: PerformerView,
    /// The host output parsed so far.
    pub fed: Seq<u8>,
    pub in_flight: InFlight,
    /// Replies still to be started after the write in flight, oldest first.
    pub queued: Seq<Seq<u8>>,
    /// Replies still to be written inline, oldest first.
    pub inline: Seq<Seq<u8>>,
    pub awaiting: Awaiting,
    pub stopped: bool,
}

/// The actor after parsing `bytes`: the screen shows them, nothing waits.
pub open spec fn after_read(s: ActorView, bytes: Seq<u8>) -> ActorView {
    let p = apply_actions(s.state, stream_actions(s.fed, bytes));
    ActorView {
        state: PerformerView {
            screen: put_all(p.screen, p.pending),
            pending: Seq::empty(),
            replies: Seq::empty(),
        },
        fed: s.fed + bytes,
        ..s
    }
}

/// The replies parsing `bytes` asks for, oldest first.
pub open spec fn read_replies(s: ActorView, bytes: Seq<u8>) -> Seq<Seq<u8>> {
    apply_actions(s.state, stream_actions(s.fed, bytes)).replies
}

/// A status reporting error `e`.
pub open spec fn failed_with(status: ActorActionView, e: ErrorView) -> bool {
    status matches ActorActionView::PublishStatus(StatusView::Failed(text)) && message_text(e, text)
}

/// A failed read or write: report the failure and close the transport;
/// the write in flight and the replies still to write are dropped.
pub open spec fn fails(s: ActorView, e: ErrorView, t: ActorView, acts: Seq<ActorActionView>) -> bool {
    &&& acts.len() == 2
    &&& failed_with(acts[0], e)
    &&& acts[1] == ActorActionView::Close
    &&& t == ActorView {
        in_flight: InFlight::Nothing,
        queued: Seq::empty(),
        inline: Seq::empty(),
        awaiting: Awaiting::Close(
            if s.in_flight is Input {
                CloseCause::InputFailure
            } else {
                CloseCause::Failure
            },
        ),
        ..s
    }
}

/// Handling while waiting on commands, output and the write in flight.
pub open spec fn select_step(s: ActorView, e: ActorEventView, t: ActorView, acts: Seq<
    ActorActionView,
>) -> bool {
    let idle = s.in_flight == InFlight::Nothing;
    match e {
        ActorEventView::Command(CommandView::Input(data)) => if idle {
            &&& acts == seq![ActorActionView::StartWrite(data)]
            &&& t == ActorView { in_flight: InFlight::Input(data.len() as usize), ..s }
        } else {
            &&& acts == seq![
                ActorActionView::RefuseInput(
                    ErrorView::Backend("input while a write is in flight"@),
                ),
            ]
            &&& t == s
        },
        ActorEventView::Command(CommandView::Resize(c, r)) => if valid_size(c as int, r as int) {
            &&& acts == seq![ActorActionView::Resize(c, r)]
            &&& t == ActorView { awaiting: Awaiting::Resize(c, r), ..s }
        } else {
            &&& acts == seq![
                ActorActionView::Reply(Err(ErrorView::Backend(size_error_message(c, r)))),
            ]
            &&& t == s
        },
        ActorEventView::Command(CommandView::Close) => if idle {
            &&& acts == seq![ActorActionView::Close]
            &&& t == ActorView { awaiting: Awaiting::Close(CloseCause::Requested), ..s }
        } else {
            &&& acts == seq![
                ActorActionView::Reply(
                    Err(ErrorView::Backend("close requested while a write is in flight"@)),
                ),
            ]
            &&& t == s
        },
        ActorEventView::CommandsEnded => if idle {
            &&& acts == seq![ActorActionView::Close]
            &&& t == ActorView { awaiting: Awaiting::Close(CloseCause::CommandsEnded), ..s }
        } else {
            acts.len() == 0 && t == s
        },
        ActorEventView::Read(bytes) => if bytes.len() == 0 {
            if idle {
                &&& acts == seq![ActorActionView::Close]
                &&& t == ActorView { awaiting: Awaiting::Close(CloseCause::Eof), ..s }
            } else {
                acts.len() == 0 && t == s
            }
        } else {
            let u = after_read(s, bytes);
            let replies = read_replies(s, bytes);
            if replies.len() == 0 {
                acts == seq![ActorActionView::PublishScreen] && t == u
            } else if idle {
                &&& acts == seq![ActorActionView::StartWrite(replies[0])]
                &&& t == ActorView { in_flight: InFlight::Reply, queued: replies.drop_first(), ..u }
            } else {
                &&& acts == seq![ActorActionView::WriteInline(replies[0])]
                &&& t == ActorView {
                    inline: replies.drop_first(),
                    awaiting: Awaiting::InlineWrite,
                    ..u
                }
            }
        },
        ActorEventView::ReadFailed(err) => fails(s, err, t, acts),
        ActorEventView::WriteDone(r) => if idle {
            acts.len() == 0 && t == s
        } else {
            match r {
                Err(err) => fails(s, err, t, acts),
                Ok(_) => match s.in_flight {
                    InFlight::Input(n) => {
                        &&& acts == seq![ActorActionView::InputDone(Ok(n))]
                        &&& t == ActorView { in_flight: InFlight::Nothing, ..s }
                    },
                    _ => if s.queued.len() > 0 {
                        &&& acts == seq![ActorActionView::StartWrite(s.queued[0])]
                        &&& t == ActorView { queued: s.queued.drop_first(), ..s }
                    } else {
                        &&& acts == seq![ActorActionView::PublishScreen]
                        &&& t == ActorView { in_flight: InFlight::Nothing, ..s }
                    },
                },
            }
        },
        _ => acts.len() == 0 && t == s,
    }
}

/// Handling while an inline write is awaited.
pub open spec fn inline_step(s: ActorView, e: ActorEventView, t: ActorView, acts: Seq<
    ActorActionView,
>) -> bool {
    match e {
        ActorEventView::InlineWriteDone(Ok(_)) => if s.inline.len() > 0 {
            &&& acts == seq![ActorActionView::WriteInline(s.inline[0])]
            &&& t == ActorView { inline: s.inline.drop_first(), ..s }
        } else {
            &&& acts == seq![ActorActionView::PublishScreen]
            &&& t == ActorView { awaiting: Awaiting::Select, ..s }
        },
        ActorEventView::InlineWriteDone(Err(err)) => fails(s, err, t, acts),
        _ => acts.len() == 0 && t == s,
    }
}

/// Handling while a transport resize to `cols` x `rows` is awaited.
pub open spec fn resize_step(
    s: ActorView,
    cols: u16,
    rows: u16,
    e: ActorEventView,
    t: ActorView,
    acts: Seq<ActorActionView>,
) -> bool {
    match e {
        ActorEventView::ResizeDone(Ok(())) => {
            &&& acts == seq![ActorActionView::PublishScreen, ActorActionView::Reply(Ok(()))]
            &&& t == ActorView {
                state: PerformerView { screen: s.state.screen.resize(cols, rows), ..s.state },
                awaiting: Awaiting::Select,
                ..s
            }
        },
        ActorEventView::ResizeDone(Err(err)) => {
            &&& acts == seq![ActorActionView::Reply(Err(err))]
            &&& t == ActorView { awaiting: Awaiting::Select, ..s }
        },
        _ => acts.len() == 0 && t == s,
    }
}

/// The status a close leads to: `success` when the transport closed, the
/// failure otherwise.
pub open spec fn close_status_ok(
    status: ActorActionView,
    r: Result<(), ErrorView>,
    success: StatusView,
) -> bool {
    match r {
        Ok(()) => status == ActorActionView::PublishStatus(success),
        Err(err) => failed_with(status, err),
    }
}

/// Handling while a transport close is awaited.
pub open spec fn close_step(
    s: ActorView,
    cause: CloseCause,
    e: ActorEventView,
    t: ActorView,
    acts: Seq<ActorActionView>,
) -> bool {
    match e {
        ActorEventView::CloseDone(r) => {
            &&& t == ActorView { stopped: true, ..s }
            &&& match cause {
                CloseCause::Requested => {
                    &&& acts.len() == 3
                    &&& close_status_ok(acts[0], r, StatusView::Closed)
                    &&& acts[1] == ActorActionView::Reply(r)
                    &&& acts[2] == ActorActionView::Stop
                },
                CloseCause::CommandsEnded => {
                    &&& acts.len() == 2
                    &&& close_status_ok(acts[0], r, StatusView::Closed)
                    &&& acts[1] == ActorActionView::Stop
                },
                CloseCause::Eof => {
                    &&& acts.len() == 2
                    &&& close_status_ok(acts[0], r, StatusView::Eof)
                    &&& acts[1] == ActorActionView::Stop
                },
                CloseCause::Failure => acts == seq![ActorActionView::Stop],
                CloseCause::InputFailure => acts == seq![
                    ActorActionView::InputDone(Err(ErrorView::Closed)),
                    ActorActionView::Stop,
                ],
            }
        },
        _ => acts.len() == 0 && t == s,
    }
}

/// What an actor in state `s` does on event `e`, and the state `t` it is
/// left in. A stopped actor does nothing.
pub open spec fn actor_step(s: ActorView, e: ActorEventView, t: ActorView, acts: Seq<
    ActorActionView,
>) -> bool {
    if s.stopped {
        acts.len() == 0 && t == s
    } else {
        match s.awaiting {
            Awaiting::Select => select_step(s, e, t, acts),
            Awaiting::InlineWrite => inline_step(s, e, t, acts),
            Awaiting::Resize(c, r) => resize_step(s, c, r, e, t, acts),
            Awaiting::Close(cause) => close_step(s, cause, e, t, acts),
        }
    }
}

/// The session core and the bookkeeping of one session actor.
pub struct SessionActor {
    core: SessionCore,
    in_flight: InFlight,
    queued: Vec<Vec<u8>>,
    inline: Vec<Vec<u8>>,
    awaiting: Awaiting,
    stopped: bool,
}

pub open spec fn bytes_view(v: Seq<Vec<u8>>) -> Seq<Seq<u8>> {
    v.map_values(|b: Vec<u8>| b@)
}

impl View for SessionActor {
    type V = ActorView;

    closed spec fn view(&self) -> ActorView {
        ActorView {
            state: self.core.state(),
            fed: self.core.fed(),
            in_flight: self.in_flight,
            queued: bytes_view(self.queued@),
            inline: bytes_view(self.inline@),
            awaiting: self.awaiting,
            stopped: self.stopped,
        }
    }
}

impl SessionActor {
    /// Only a valid size is ever awaited; the core has no chars or replies
    /// waiting between events.
    pub closed spec fn wf(&self) -> bool {
        &&& (self.awaiting matches Awaiting::Resize(c, r) ==> valid_size(c as int, r as int))
        &&& self.core.state().pending == Seq::<char>::empty()
        &&& self.core.state().replies == Seq::<Seq<u8>>::empty()
    }

    pub fn new(screen: Screen) -> (a: Self)
        ensures
            a.wf(),
            a@.state.screen == screen@,
            a@.state.pending == Seq::<char>::empty(),
            a@.state.replies == Seq::<Seq<u8>>::empty(),
            a@.fed == Seq::<u8>::empty(),
            a@.in_flight == InFlight::Nothing,
            a@.queued == Seq::<Seq<u8>>::empty(),
            a@.inline == Seq::<Seq<u8>>::empty(),
            a@.awaiting == Awaiting::Select,
            !a@.stopped,
    {
        let a = SessionActor {
            core: SessionCore::new(screen),
            in_flight: InFlight::Nothing,
            queued: Vec::new(),
            inline: Vec::new(),
            awaiting: Awaiting::Select,
            stopped: false,
        };
        proof {
            assert(a@.queued =~= Seq::<Seq<u8>>::empty());
            assert(a@.inline =~= Seq::<Seq<u8>>::empty());
        }
        a
    }

    /// The screen to publish.
    pub fn screen(&self) -> (s: &Screen)
        ensures
            s@ == self@.state.screen,
    {
        self.core.screen()
    }

    /// Decide what to do on `event`; see [`actor_step`].
    pub fn handle(&mut self, event: ActorEvent) -> (acts: Vec<ActorAction>)
        requires
            old(self).wf(),
        ensures
            final(self).wf(),
            actor_step(old(self)@, event@, final(self)@, actor_actions_view(acts@)),
    {
        if self.stopped {
            let acts: Vec<ActorAction> = Vec::new();
            proof {
                assert(actor_actions_view(acts@) =~= Seq::<ActorActionView>::empty());
            }
            return acts;
        }
        match self.awaiting {
            Awaiting::Select => self.on_select(event),
            Awaiting::InlineWrite => self.on_inline(event),
            Awaiting::Resize(c, r) => self.on_resize(c, r, event),
            Awaiting::Close(cause) => self.on_close(cause, event),
        }
    }

    /// Report a failure and close the transport.
    fn fail(&mut self, err: TransportError) -> (acts: Vec<ActorAction>)
        requires
            old(self).wf(),
            !old(self)@.stopped,
        ensures
            final(self).wf(),
            fails(old(self)@, err@, final(self)@, actor_actions_view(acts@)),
    {
        let text = err.message();
        let cause = match self.in_flight {
            InFlight::Input(_) => CloseCause::InputFailure,
            _ => CloseCause::Failure,
        };
        self.in_flight = InFlight::Nothing;
        self.queued = Vec::new();
        self.inline = Vec::new();
        self.awaiting = Awaiting::Close(cause);
        let acts = vec![ActorAction::PublishStatus(SessionStatus::Failed(text)), ActorAction::Close];
        proof {
            assert(self@.queued =~= Seq::<Seq<u8>>::empty());
            assert(self@.inline =~= Seq::<Seq<u8>>::empty());
            assert(actor_actions_view(acts@)[0] == acts@[0]@);
        }
        acts
    }

    fn on_select(&mut self, event: ActorEvent) -> (acts: Vec<ActorAction>)
        requires
            old(self).wf(),
            !old(self)@.stopped,
            old(self)@.awaiting == Awaiting::Select,
        ensures
            final(self).wf(),
            select_step(old(self)@, event@, final(self)@, actor_actions_view(acts@)),
    {
        let idle = self.in_flight == InFlight::Nothing;
        match event {
            ActorEvent::Command(Command::Input(data)) => {
                if idle {
                    self.in_flight = InFlight::Input(data.len());
                    let acts = vec![ActorAction::StartWrite(data)];
                    proof {
                        assert(actor_actions_view(acts@) =~= seq![acts@[0]@]);
                    }
                    acts
                } else {
                    let acts = vec![
                        ActorAction::RefuseInput(
                            TransportError::Backend(text_of("input while a write is in flight")),
                        ),
                    ];
                    proof {
                        assert(actor_actions_view(acts@) =~= seq![acts@[0]@]);
                    }
                    acts
                }
            },
            ActorEvent::Command(Command::Resize(c, r)) => {
                match validate_size(c, r) {
                    Ok(()) => {
                        self.awaiting = Awaiting::Resize(c, r);
                        let acts = vec![ActorAction::Resize(c, r)];
                        proof {
                            assert(actor_actions_view(acts@) =~= seq![acts@[0]@]);
                        }
                        acts
                    },
                    Err(e) => {
                        let acts = vec![ActorAction::Reply(Err(e))];
                        proof {
                            assert(actor_actions_view(acts@) =~= seq![acts@[0]@]);
                        }
                        acts
                    },
                }
            },
            ActorEvent::Command(Command::Close) => {
                if idle {
                    self.awaiting = Awaiting::Close(CloseCause::Requested);
                    let acts = vec![ActorAction::Close];
                    proof {
                        assert(actor_actions_view(acts@) =~= seq![acts@[0]@]);
                    }
                    acts
                } else {
                    let acts = vec![
                        ActorAction::Reply(
                            Err(
                                TransportError::Backend(
                                    text_of("close requested while a write is in flight"),
                                ),
                            ),
                        ),
                    ];
                    proof {
                        assert(actor_actions_view(acts@) =~= seq![acts@[0]@]);
                    }
                    acts
                }
            },
            ActorEvent::CommandsEnded => {
                if idle {
                    self.awaiting = Awaiting::Close(CloseCause::CommandsEnded);
                    let acts = vec![ActorAction::Close];
                    proof {
                        assert(actor_actions_view(acts@) =~= seq![acts@[0]@]);
                    }
                    acts
                } else {
                    Vec::new()
                }
            },
            ActorEvent::Read(bytes) => self.on_output(bytes),
            ActorEvent::ReadFailed(err) => self.fail(err),
            ActorEvent::WriteDone(r) => {
                if idle {
                    Vec::new()
                } else {
                    match r {
                        Err(err) => self.fail(err),
                        Ok(_) => self.on_written(),
                    }
                }
            },
            _ => Vec::new(),
        }
    }

    /// Host output while waiting on the select.
    fn on_output(&mut self, bytes: Vec<u8>) -> (acts: Vec<ActorAction>)
        requires
            old(self).wf(),
            !old(self)@.stopped,
            old(self)@.awaiting == Awaiting::Select,
        ensures
            final(self).wf(),
            select_step(
                old(self)@,
                ActorEventView::Read(bytes@),
                final(self)@,
                actor_actions_view(acts@),
            ),
    {
        let idle = self.in_flight == InFlight::Nothing;
        if bytes.len() == 0 {
            if idle {
                self.awaiting = Awaiting::Close(CloseCause::Eof);
                let acts = vec![ActorAction::Close];
                proof {
                    assert(actor_actions_view(acts@) =~= seq![acts@[0]@]);
                }
                return acts;
            } else {
                return Vec::new();
            }
        }
        let mut replies = self.core.ingest(bytes.as_slice());
        let ghost rv = bytes_view(replies@);
        proof {
            assert(rv == read_replies(old(self)@, bytes@));
            assert(self@.state =~= after_read(old(self)@, bytes@).state);
        }
        if replies.len() == 0 {
            let acts = vec![ActorAction::PublishScreen];
            proof {
                assert(actor_actions_view(acts@) =~= seq![acts@[0]@]);
                assert(self@ =~= after_read(old(self)@, bytes@));
            }
            acts
        } else if idle {
            let first = replies.remove(0);
            self.in_flight = InFlight::Reply;
            self.queued = replies;
            let acts = vec![ActorAction::StartWrite(first)];
            proof {
                assert(actor_actions_view(acts@) =~= seq![acts@[0]@]);
                assert(self@.queued =~= rv.drop_first());
                assert(first@ == rv[0]);
            }
            acts
        } else {
            let first = replies.remove(0);
            self.inline = replies;
            self.awaiting = Awaiting::InlineWrite;
            let acts = vec![ActorAction::WriteInline(first)];
            proof {
                assert(actor_actions_view(acts@) =~= seq![acts@[0]@]);
                assert(self@.inline =~= rv.drop_first());
                assert(first@ == rv[0]);
            }
            acts
        }
    }

    /// The write in flight finished.
    fn on_written(&mut self) -> (acts: Vec<ActorAction>)
        requires
            old(self).wf(),
            !old(self)@.stopped,
            old(self)@.awaiting == Awaiting::Select,
            old(self)@.in_flight != InFlight::Nothing,
        ensures
            final(self).wf(),
            select_step(
                old(self)@,
                ActorEventView::WriteDone(Ok(0)),
                final(self)@,
                actor_actions_view(acts@),
            ),
    {
        match self.in_flight {
            InFlight::Input(n) => {
                self.in_flight = InFlight::Nothing;
                let acts = vec![ActorAction::InputDone(Ok(n))];
                proof {
                    assert(actor_actions_view(acts@) =~= seq![acts@[0]@]);
                }
                acts
            },
            _ => {
                if self.queued.len() > 0 {
                    let ghost qv = bytes_view(self.queued@);
                    let next = self.queued.remove(0);
                    let acts = vec![ActorAction::StartWrite(next)];
                    proof {
                        assert(actor_actions_view(acts@) =~= seq![acts@[0]@]);
                        assert(self@.queued =~= qv.drop_first());
                        assert(next@ == qv[0]);
                    }
                    acts
                } else {
                    self.in_flight = InFlight::Nothing;
                    let acts = vec![ActorAction::PublishScreen];
                    proof {
                        assert(actor_actions_view(acts@) =~= seq![acts@[0]@]);
                    }
                    acts
                }
            },
        }
    }

    fn on_inline(&mut self, event: ActorEvent) -> (acts: Vec<ActorAction>)
        requires
            old(self).wf(),
            !old(self)@.stopped,
            old(self)@.awaiting == Awaiting::InlineWrite,
        ensures
            final(self).wf(),
            inline_step(old(self)@, event@, final(self)@, actor_actions_view(acts@)),
    {
        match event {
            ActorEvent::InlineWriteDone(Ok(_)) => {
                if self.inline.len() > 0 {
                    let ghost iv = bytes_view(self.inline@);
                    let next = self.inline.remove(0);
                    let acts = vec![ActorAction::WriteInline(next)];
                    proof {
                        assert(actor_actions_view(acts@) =~= seq![acts@[0]@]);
                        assert(self@.inline =~= iv.drop_first());
                        assert(next@ == iv[0]);
                    }
                    acts
                } else {
                    self.awaiting = Awaiting::Select;
                    let acts = vec![ActorAction::PublishScreen];
                    proof {
                        assert(actor_actions_view(acts@) =~= seq![acts@[0]@]);
                    }
                    acts
                }
            },
            ActorEvent::InlineWriteDone(Err(err)) => self.fail(err),
            _ => Vec::new(),
        }
    }

    fn on_resize(&mut self, cols: u16, rows: u16, event: ActorEvent) -> (acts: Vec<ActorAction>)
        requires
            old(self).wf(),
            !old(self)@.stopped,
            old(self)@.awaiting == Awaiting::Resize(cols, rows),
        ensures
            final(self).wf(),
            resize_step(old(self)@, cols, rows, event@, final(self)@, actor_actions_view(acts@)),
    {
        match event {
            ActorEvent::ResizeDone(Ok(())) => {
                self.core.resize_screen(cols, rows);
                self.awaiting = Awaiting::Select;
                let acts = vec![ActorAction::PublishScreen, ActorAction::Reply(Ok(()))];
                proof {
                    assert(actor_actions_view(acts@) =~= seq![acts@[0]@, acts@[1]@]);
                }
                acts
            },
            ActorEvent::ResizeDone(Err(err)) => {
                self.awaiting = Awaiting::Select;
                let acts = vec![ActorAction::Reply(Err(err))];
                proof {
                    assert(actor_actions_view(acts@) =~= seq![acts@[0]@]);
                }
                acts
            },
            _ => Vec::new(),
        }
    }

    fn on_close(&mut self, cause: CloseCause, event: ActorEvent) -> (acts: Vec<ActorAction>)
        requires
            old(self).wf(),
            !old(self)@.stopped,
            old(self)@.awaiting == Awaiting::Close(cause),
        ensures
            final(self).wf(),
            close_step(old(self)@, cause, event@, final(self)@, actor_actions_view(acts@)),
    {
        match event {
            ActorEvent::CloseDone(r) => {
                self.stopped = true;
                let acts = match cause {
                    CloseCause::Requested => {
                        let status = close_outcome(&r, SessionStatus::Closed);
                        vec![status, ActorAction::Reply(r), ActorAction::Stop]
                    },
                    CloseCause::CommandsEnded => {
                        vec![close_outcome(&r, SessionStatus::Closed), ActorAction::Stop]
                    },
                    CloseCause::Eof => {
                        vec![close_outcome(&r, SessionStatus::Eof), ActorAction::Stop]
                    },
                    CloseCause::Failure => vec![ActorAction::Stop],
                    CloseCause::InputFailure => {
                        vec![ActorAction::InputDone(Err(TransportError::Closed)), ActorAction::Stop]
                    },
                };
                proof {
                    if acts@.len() == 1 {
                        assert(actor_actions_view(acts@) =~= seq![acts@[0]@]);
                    } else if acts@.len() == 2 {
                        assert(actor_actions_view(acts@) =~= seq![acts@[0]@, acts@[1]@]);
                    }
                }
                acts
            },
            _ => Vec::new(),
        }
    }
}

/// The status published after a close: `success`, or the close's failure.
fn close_outcome(r: &Result<(), TransportError>, success: SessionStatus) -> (a: ActorAction)
    ensures
        close_status_ok(a@, unit_view(*r), success@),
{
    match r {
        Ok(()) => ActorAction::PublishStatus(success),
        Err(e) => ActorAction::PublishStatus(SessionStatus::Failed(e.message())),
    }
}

} // verus!
