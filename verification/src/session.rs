//! What a session decides: its lifecycle status, how host output reaches
//! the screen, and which resizes are allowed. Moving bytes to and from a
//! transport is left to the caller.
use vstd::prelude::*;

use crate::model::valid_size;
use crate::model::ScreenView;
use crate::parser::{stream_actions, ParserConfig, VtParser};
use crate::performer::{apply_actions, put_all, PerformerView, TermPerformer};
use crate::screen::{size_error_message, validate_screen_size, Screen};
use crate::snapshot::SnapshotDto;
use crate::text::{copy_string, text_of};
use crate::transport::TransportError;

verus! {

#[derive(Debug, Clone, PartialEq, Eq)]
pub enum SessionStatus {
    Running,
    Eof,
    Closed,
    Failed(String),
}

/// A status with its failure text as a sequence.
pub enum StatusView {
    Running,
    Eof,
    Closed,
    Failed(Seq<char>),
}

impl View for SessionStatus {
    type V = StatusView;

    open spec fn view(&self) -> StatusView {
        match self {
            SessionStatus::Running => StatusView::Running,
            SessionStatus::Eof => StatusView::Eof,
            SessionStatus::Closed => StatusView::Closed,
            SessionStatus::Failed(m) => StatusView::Failed(m@),
        }
    }
}

/// A session's status as the frontend sees it.
#[derive(Debug, Clone)]
pub struct StatusDto {
    pub state: String,
    pub detail: Option<String>,
}

/// Metadata of a created session.
#[derive(Debug, Clone)]
pub struct SessionInfo {
    pub id: u64,
    pub cols: u16,
    pub rows: u16,
    pub shell: String,
}

/// A screen snapshot with its session's metadata.
#[derive(Debug, Clone)]
pub struct ScreenEnvelope {
    pub id: u64,
    pub cols: u16,
    pub rows: u16,
    pub shell: String,
    pub snapshot: SnapshotDto,
}

/// The state name of a status.
pub open spec fn status_state(s: SessionStatus) -> Seq<char> {
    match s {
        SessionStatus::Running => "running"@,
        SessionStatus::Eof => "eof"@,
        SessionStatus::Closed => "closed"@,
        SessionStatus::Failed(_) => "failed"@,
    }
}

impl StatusDto {
    /// The frontend view of a status: its state name, and the failure text.
    pub fn from_status(status: &SessionStatus) -> (d: Self)
        ensures
            d.state@ == status_state(*status),
            match status {
                SessionStatus::Failed(m) => d.detail matches Some(x) && x@ == m@,
                _ => d.detail is None,
            },
    {
        match status {
            SessionStatus::Running => StatusDto { state: text_of("running"), detail: None },
            SessionStatus::Eof => StatusDto { state: text_of("eof"), detail: None },
            SessionStatus::Closed => StatusDto { state: text_of("closed"), detail: None },
            SessionStatus::Failed(message) => StatusDto {
                state: text_of("failed"),
                detail: Some(copy_string(message)),
            },
        }
    }
}

/// A resize is passed on to the transport only when the screen can take
/// it; otherwise it is refused with the size error's text.
pub fn validate_size(cols: u16, rows: u16) -> (r: Result<(), TransportError>)
    ensures
        r is Ok <==> valid_size(cols as int, rows as int),
        r matches Err(e) ==> (e matches TransportError::Backend(m) && m@ == size_error_message(
            cols,
            rows,
        )),
{
    match validate_screen_size(cols, rows) {
        Ok(()) => Ok(()),
        Err(e) => Err(TransportError::Backend(e.message())),
    }
}

/// The parser and screen of one session.
pub struct SessionCore {
    parser: VtParser,
    performer: TermPerformer,
}

impl SessionCore {
    /// The screen, the printable chars not yet on it, and the replies not
    /// yet handed out.
    pub closed spec fn state(&self) -> PerformerView {
        self.performer@
    }

    /// The host output fed to the parser so far.
    pub closed spec fn fed(&self) -> Seq<u8> {
        self.parser.fed()
    }

    pub open spec fn screen_view(&self) -> ScreenView {
        self.state().screen
    }

    pub fn new(screen: Screen) -> (c: Self)
        ensures
            c.screen_view() == screen@,
            c.state().pending == Seq::<char>::empty(),
            c.state().replies == Seq::<Seq<u8>>::empty(),
            c.fed() == Seq::<u8>::empty(),
    {
        SessionCore {
            parser: VtParser::new(ParserConfig::default()),
            performer: TermPerformer::new(screen),
        }
    }

    pub fn screen(&self) -> (s: &Screen)
        ensures
            s@ == self.screen_view(),
    {
        self.performer.screen()
    }

    /// Feed host output through the parser onto the screen, flush printed
    /// text, and hand out the replies the output asked for, oldest first.
    pub fn ingest(&mut self, bytes: &[u8]) -> (replies: Vec<Vec<u8>>)
        ensures
            final(self).fed() == old(self).fed() + bytes@,
            ({
                let p = apply_actions(old(self).state(), stream_actions(old(self).fed(), bytes@));
                &&& final(self).screen_view() == put_all(p.screen, p.pending)
                &&& replies@.map_values(|r: Vec<u8>| r@) == p.replies
            }),
            final(self).state().pending == Seq::<char>::empty(),
            final(self).state().replies == Seq::<Seq<u8>>::empty(),
    {
        self.parser.advance(bytes, &mut self.performer);
        self.performer.flush();
        self.performer.take_responses()
    }

    /// Resize the screen to a size `validate_size` accepted.
    pub fn resize_screen(&mut self, cols: u16, rows: u16)
        requires
            valid_size(cols as int, rows as int),
        ensures
            final(self).screen_view() == old(self).screen_view().resize(cols, rows),
            final(self).state().pending == old(self).state().pending,
            final(self).state().replies == old(self).state().replies,
            final(self).fed() == old(self).fed(),
    {
        let _ = self.performer.resize(cols, rows);
    }

    /// The screen, with printed text flushed.
    pub fn into_screen(self) -> (s: Screen)
        ensures
            s@ == put_all(self.state().screen, self.state().pending),
    {
        let mut performer = self.performer;
        performer.flush();
        performer.into_screen()
    }
}

} // verus!
