//! Session transports: spawn options, transport errors, and the in-memory
//! loopback that echoes what is written.
use std::collections::VecDeque;
use vstd::prelude::*;

use crate::model::{min, valid_size};
use crate::screen::{size_error_message, validate_screen_size};
use crate::text::{copy_string, push_str, string_from_chars, text_of};

verus! {

#[verifier::external_type_specification]
#[verifier::external_body]
pub struct ExIoError(std::io::Error);

/// `std::io::Error`'s `Display` text. Nothing is promised of it: it comes
/// from the operating system.
#[verifier::external_body]
fn io_error_text(error: &std::io::Error) -> String {
    error.to_string()
}

/// Why a transport operation failed.
#[derive(Debug)]
pub enum TransportError {
    Io(std::io::Error),
    Backend(String),
    Closed,
}

/// A transport error with its text as a sequence; an I/O error's detail
/// is left out.
pub enum ErrorView {
    Io,
    Backend(Seq<char>),
    Closed,
}

impl View for TransportError {
    type V = ErrorView;

    open spec fn view(&self) -> ErrorView {
        match self {
            TransportError::Io(_) => ErrorView::Io,
            TransportError::Backend(m) => ErrorView::Backend(m@),
            TransportError::Closed => ErrorView::Closed,
        }
    }
}

/// Whether `text` is the text of error `e`; an I/O error's text is its
/// prefix followed by what the operating system says.
pub open spec fn message_text(e: ErrorView, text: Seq<char>) -> bool {
    match e {
        ErrorView::Io => starts_with(text, "io error: "@),
        ErrorView::Backend(m) => text == "backend error: "@ + m,
        ErrorView::Closed => text == "session already closed"@,
    }
}

/// Text that starts with `prefix`.
pub open spec fn starts_with(s: Seq<char>, prefix: Seq<char>) -> bool {
    prefix.len() <= s.len() && s.take(prefix.len() as int) == prefix
}

impl TransportError {
    /// The error's text: `io error: …`, `backend error: …` or
    /// `session already closed`.
    pub fn message(&self) -> (s: String)
        ensures
            message_text(self@, s@),
    {
        let mut out: Vec<char> = Vec::new();
        match self {
            TransportError::Io(e) => {
                push_str(&mut out, "io error: ");
                let detail = io_error_text(e);
                push_str(&mut out, detail.as_str());
                proof {
                    assert(out@.take("io error: "@.len() as int) =~= "io error: "@);
                }
            },
            TransportError::Backend(m) => {
                push_str(&mut out, "backend error: ");
                push_str(&mut out, m.as_str());
            },
            TransportError::Closed => {
                push_str(&mut out, "session already closed");
                proof {
                    assert(out@ =~= "session already closed"@);
                }
            },
        }
        string_from_chars(&out)
    }
}

/// How to spawn the shell inside the PTY.
#[derive(Debug, Clone, PartialEq, Eq)]
pub enum ShellKind {
    /// User default (COMSPEC / $SHELL).
    Default,
    PowerShell,
    Cmd,
    Wsl(Option<String>),
}

#[derive(Debug, Clone)]
pub struct SpawnOptions {
    pub shell: ShellKind,
    pub initial_cols: u16,
    pub initial_rows: u16,
}

impl Default for SpawnOptions {
    fn default() -> (o: Self)
        ensures
            o.shell == ShellKind::Default,
            o.initial_cols == 120,
            o.initial_rows == 30,
    {
        SpawnOptions { shell: ShellKind::Default, initial_cols: 120, initial_rows: 30 }
    }
}

/// The program a PTY runs for a shell, its arguments and the environment
/// it adds.
#[derive(Debug, Clone)]
pub struct ShellCommand {
    /// `None`: the user's default shell (COMSPEC / $SHELL).
    pub program: Option<String>,
    pub args: Vec<String>,
    pub env: Vec<(String, String)>,
}

pub open spec fn strings_view(v: Seq<String>) -> Seq<Seq<char>> {
    v.map_values(|s: String| s@)
}

/// What a shell kind runs: PowerShell without its logo, cmd quietly, WSL
/// with the chosen distribution; every shell gets `TERM=xterm-256color`.
pub open spec fn shell_program(kind: ShellKind) -> (Option<Seq<char>>, Seq<Seq<char>>) {
    match kind {
        ShellKind::Default => (None, Seq::empty()),
        ShellKind::PowerShell => (Some("powershell.exe"@), seq!["-NoLogo"@]),
        ShellKind::Cmd => (Some("cmd.exe"@), seq!["/Q"@]),
        ShellKind::Wsl(distro) => (
            Some("wsl.exe"@),
            match distro {
                Some(d) => seq!["-d"@, d@],
                None => Seq::empty(),
            },
        ),
    }
}

/// The command line for a shell kind.
pub fn shell_command(kind: &ShellKind) -> (c: ShellCommand)
    ensures
        (match c.program {
            Some(p) => Some(p@),
            None => None::<Seq<char>>,
        }) == shell_program(*kind).0,
        strings_view(c.args@) == shell_program(*kind).1,
        c.env@.len() == 1,
        c.env@[0].0@ == "TERM"@,
        c.env@[0].1@ == "xterm-256color"@,
{
    let mut args: Vec<String> = Vec::new();
    let program = match kind {
        ShellKind::Default => None,
        ShellKind::PowerShell => {
            args.push(text_of("-NoLogo"));
            Some(text_of("powershell.exe"))
        },
        ShellKind::Cmd => {
            args.push(text_of("/Q"));
            Some(text_of("cmd.exe"))
        },
        ShellKind::Wsl(distro) => {
            match distro {
                Some(d) => {
                    args.push(text_of("-d"));
                    args.push(copy_string(d));
                },
                None => {},
            }
            Some(text_of("wsl.exe"))
        },
    };
    let mut env: Vec<(String, String)> = Vec::new();
    env.push((text_of("TERM"), text_of("xterm-256color")));
    proof {
        assert(strings_view(args@) =~= shell_program(*kind).1);
    }
    ShellCommand { program, args, env }
}

/// Bytes waiting to be read, oldest first.
pub struct ByteQueue {
    bytes: VecDeque<u8>,
}

impl View for ByteQueue {
    type V = Seq<u8>;

    closed spec fn view(&self) -> Seq<u8> {
        self.bytes@
    }
}

impl ByteQueue {
    pub fn new() -> (q: Self)
        ensures
            q@ == Seq::<u8>::empty(),
    {
        ByteQueue { bytes: VecDeque::new() }
    }

    pub fn len(&self) -> (n: usize)
        ensures
            n == self@.len(),
    {
        self.bytes.len()
    }

    pub fn is_empty(&self) -> (b: bool)
        ensures
            b <==> self@.len() == 0,
    {
        self.bytes.len() == 0
    }

    /// Queue `data` behind what is waiting.
    pub fn push(&mut self, data: &[u8])
        ensures
            final(self)@ == old(self)@ + data@,
    {
        let mut i: usize = 0;
        while i < data.len()
            invariant
                i <= data@.len(),
                self@ =~= old(self)@ + data@.take(i as int),
            decreases data.len() - i,
        {
            self.bytes.push_back(data[i]);
            i = i + 1;
        }
        proof {
            assert(data@.take(data@.len() as int) =~= data@);
        }
    }

    /// Move as many waiting bytes as fit into the front of `buf`, oldest
    /// first, and say how many; the rest of `buf` is left alone.
    pub fn pop_into(&mut self, buf: &mut [u8]) -> (n: usize)
        ensures
            n == min(old(buf)@.len() as int, old(self)@.len() as int),
            final(buf)@.len() == old(buf)@.len(),
            final(buf)@.take(n as int) == old(self)@.take(n as int),
            final(buf)@.skip(n as int) == old(buf)@.skip(n as int),
            final(self)@ == old(self)@.skip(n as int),
    {
        let n = if buf.len() < self.bytes.len() {
            buf.len()
        } else {
            self.bytes.len()
        };
        let mut i: usize = 0;
        while i < n
            invariant
                i <= n,
                n == min(old(buf)@.len() as int, old(self)@.len() as int),
                buf@.len() == old(buf)@.len(),
                buf@.take(i as int) =~= old(self)@.take(i as int),
                buf@.skip(i as int) =~= old(buf)@.skip(i as int),
                self@ =~= old(self)@.skip(i as int),
            decreases n - i,
        {
            let byte = match self.bytes.pop_front() {
                Some(b) => b,
                None => 0,
            };
            let ghost before = buf@;
            buf[i] = byte;
            proof {
                assert(buf@ =~= before.update(i as int, byte));
                assert forall|j: int| 0 <= j < buf@.len() - (i + 1) implies #[trigger] buf@.skip(i + 1)[j]
                    == old(buf)@.skip(i + 1)[j] by {
                    assert(before.skip(i as int)[j + 1] == old(buf)@.skip(i as int)[j + 1]);
                }
                assert(buf@.take(i + 1) =~= old(self)@.take(i + 1));
                assert(buf@.skip(i + 1) =~= old(buf)@.skip(i + 1));
            }
            i = i + 1;
        }
        n
    }
}

/// In-memory loopback transport: what is written comes back as output.
pub struct LoopbackTransport {
    pending: ByteQueue,
    cols: u16,
    rows: u16,
}

/// The abstract state of a loopback: bytes waiting to be read, and its size.
pub struct LoopbackView {
    pub pending: Seq<u8>,
    pub cols: u16,
    pub rows: u16,
}

impl LoopbackView {
    /// After `data` is written: it queues behind what is pending.
    pub open spec fn after_write(self, data: Seq<u8>) -> LoopbackView {
        LoopbackView { pending: self.pending + data, ..self }
    }

    /// How many bytes a read with room for `room` takes.
    pub open spec fn read_count(self, room: int) -> int {
        min(room, self.pending.len() as int)
    }

    /// The bytes such a read returns, oldest first.
    pub open spec fn read_bytes(self, room: int) -> Seq<u8> {
        self.pending.take(self.read_count(room))
    }

    /// After such a read.
    pub open spec fn after_read(self, room: int) -> LoopbackView {
        LoopbackView { pending: self.pending.skip(self.read_count(room)), ..self }
    }
}

impl View for LoopbackTransport {
    type V = LoopbackView;

    closed spec fn view(&self) -> LoopbackView {
        LoopbackView { pending: self.pending@, cols: self.cols, rows: self.rows }
    }
}

impl LoopbackTransport {
    /// A loopback of the requested size; the size must be valid.
    pub fn new(opts: &SpawnOptions) -> (t: Self)
        requires
            valid_size(opts.initial_cols as int, opts.initial_rows as int),
        ensures
            t@.pending == Seq::<u8>::empty(),
            t@.cols == opts.initial_cols,
            t@.rows == opts.initial_rows,
    {
        LoopbackTransport { pending: ByteQueue::new(), cols: opts.initial_cols, rows: opts.initial_rows }
    }

    /// (cols, rows).
    pub fn size(&self) -> (s: (u16, u16))
        ensures
            s == (self@.cols, self@.rows),
    {
        (self.cols, self.rows)
    }

    /// Queue `data` as output, in order; all of it is taken.
    pub fn write(&mut self, data: &[u8]) -> (n: usize)
        ensures
            n == data@.len(),
            final(self)@ == old(self)@.after_write(data@),
    {
        self.pending.push(data);
        data.len()
    }

    /// Move as many queued bytes as fit into `buf`, oldest first; `0`
    /// means nothing is queued (or `buf` is empty).
    pub fn read(&mut self, buf: &mut [u8]) -> (n: usize)
        ensures
            n == old(self)@.read_count(old(buf)@.len() as int),
            final(buf)@.len() == old(buf)@.len(),
            final(buf)@.take(n as int) == old(self)@.read_bytes(old(buf)@.len() as int),
            final(buf)@.skip(n as int) == old(buf)@.skip(n as int),
            final(self)@ == old(self)@.after_read(old(buf)@.len() as int),
    {
        self.pending.pop_into(buf)
    }

    /// Track a new size; refused (and nothing changes) unless it is valid.
    pub fn resize(&mut self, cols: u16, rows: u16) -> (r: Result<(), TransportError>)
        ensures
            r is Ok <==> valid_size(cols as int, rows as int),
            r is Ok ==> final(self)@ == (LoopbackView { cols, rows, ..old(self)@ }),
            r is Err ==> final(self)@ == old(self)@,
            r matches Err(e) ==> (e matches TransportError::Backend(m) && m@ == size_error_message(
                cols,
                rows,
            )),
    {
        match validate_screen_size(cols, rows) {
            Ok(()) => {
                self.cols = cols;
                self.rows = rows;
                Ok(())
            },
            Err(e) => Err(TransportError::Backend(e.message())),
        }
    }
}

} // verus!
