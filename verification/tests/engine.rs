//! Errors, messages, replies and the smaller decisions of the engine.

use krill::session::validate_size;
use krill::{
    shell_command, validate_screen_size, ByteQueue, Color, ColorDto, LoopbackTransport, ParserConfig, Screen,
    ScreenSizeError, SessionCore, SessionStatus, ShellKind, SpawnOptions, StatusDto, TermPerformer,
    TransportError, VtParser,
};

#[test]
fn size_validation_errors_name_the_size() {
    assert_eq!(validate_screen_size(80, 24), Ok(()));
    assert_eq!(validate_screen_size(4096, 1024), Ok(()));
    assert_eq!(
        validate_screen_size(4096, 1025),
        Err(ScreenSizeError { cols: 4096, rows: 1025 })
    );
    assert_eq!(validate_screen_size(4097, 1), Err(ScreenSizeError { cols: 4097, rows: 1 }));
    assert_eq!(validate_screen_size(1, 0), Err(ScreenSizeError { cols: 1, rows: 0 }));
}

#[test]
fn size_error_message_text() {
    let e = ScreenSizeError { cols: 0, rows: 24 };
    assert_eq!(
        e.message(),
        "invalid terminal size 0x24; dimensions must be 1..=4096 and total cells <= 4194304"
    );
}

#[test]
fn transport_error_messages() {
    assert_eq!(
        TransportError::Backend("teardown failed".to_string()).message(),
        "backend error: teardown failed"
    );
    assert_eq!(TransportError::Closed.message(), "session already closed");
    let io = TransportError::Io(std::io::Error::new(std::io::ErrorKind::Other, "pipe gone"));
    assert_eq!(io.message(), "io error: pipe gone");
}

#[test]
fn loopback_resize_refuses_invalid_sizes() {
    let mut t = LoopbackTransport::new(&SpawnOptions::default());
    assert!(t.resize(100, 40).is_ok());
    assert_eq!(t.size(), (100, 40));
    match t.resize(0, 40) {
        Err(TransportError::Backend(m)) => assert!(m.starts_with("invalid terminal size 0x40")),
        other => panic!("unexpected {other:?}"),
    }
    assert_eq!(t.size(), (100, 40));
}

#[test]
fn resize_validation_for_the_transport() {
    assert!(validate_size(100, 40).is_ok());
    match validate_size(4096, 4096) {
        Err(TransportError::Backend(m)) => assert_eq!(
            m,
            "invalid terminal size 4096x4096; dimensions must be 1..=4096 and total cells <= 4194304"
        ),
        other => panic!("unexpected {other:?}"),
    }
}

#[test]
fn status_dto_names_states() {
    let d = StatusDto::from_status(&SessionStatus::Running);
    assert_eq!((d.state.as_str(), d.detail), ("running", None));
    let d = StatusDto::from_status(&SessionStatus::Eof);
    assert_eq!(d.state, "eof");
    let d = StatusDto::from_status(&SessionStatus::Closed);
    assert_eq!(d.state, "closed");
    let d = StatusDto::from_status(&SessionStatus::Failed("x".to_string()));
    assert_eq!((d.state.as_str(), d.detail), ("failed", Some("x".to_string())));
}

#[test]
fn shell_commands_per_kind() {
    let c = shell_command(&ShellKind::Default);
    assert_eq!(c.program, None);
    assert!(c.args.is_empty());
    assert_eq!(c.env, vec![("TERM".to_string(), "xterm-256color".to_string())]);
    let c = shell_command(&ShellKind::PowerShell);
    assert_eq!(c.program.as_deref(), Some("powershell.exe"));
    assert_eq!(c.args, vec!["-NoLogo".to_string()]);
    let c = shell_command(&ShellKind::Cmd);
    assert_eq!(c.program.as_deref(), Some("cmd.exe"));
    assert_eq!(c.args, vec!["/Q".to_string()]);
    let c = shell_command(&ShellKind::Wsl(Some("Ubuntu".to_string())));
    assert_eq!(c.program.as_deref(), Some("wsl.exe"));
    assert_eq!(c.args, vec!["-d".to_string(), "Ubuntu".to_string()]);
    let c = shell_command(&ShellKind::Wsl(None));
    assert!(c.args.is_empty());
}

#[test]
fn spawn_options_default() {
    let o = SpawnOptions::default();
    assert_eq!(o.shell, ShellKind::Default);
    assert_eq!((o.initial_cols, o.initial_rows), (120, 30));
    let c = ParserConfig::default();
    assert!(c.mouse_protocol && c.bracketed_paste);
}

#[test]
fn legacy_palette_slots() {
    assert_eq!(i16::from(Color::Default), -1);
    assert_eq!(i16::from(Color::Indexed(7)), 7);
    assert_eq!(i16::from(Color::Rgb(0, 0, 0)), 232);
    assert_eq!(i16::from(Color::Rgb(255, 255, 255)), 255);
    assert_eq!(i16::from(Color::Rgb(100, 100, 100)), 242);
    assert_eq!(ColorDto::from(Color::Rgb(1, 2, 3)), ColorDto::Rgb([1, 2, 3]));
}

fn feed(data: &[u8], cols: u16, rows: u16) -> TermPerformer {
    let mut parser = VtParser::new(ParserConfig::default());
    let mut p = TermPerformer::new(Screen::new(cols, rows));
    parser.advance(data, &mut p);
    p.flush();
    p
}

#[test]
fn indexed_colors_and_clamping() {
    let p = feed(b"\x1b[38;5;196;48;5;300mA\x1b[93;104mB\x1b[39;49mC", 10, 1);
    let a = p.screen.cell(0, 0).unwrap().attrs;
    assert_eq!(a.fg, Some(Color::Indexed(196)));
    assert_eq!(a.bg, Some(Color::Indexed(255)));
    let b = p.screen.cell(0, 1).unwrap().attrs;
    assert_eq!(b.fg, Some(Color::Indexed(11)));
    assert_eq!(b.bg, Some(Color::Indexed(12)));
    let c = p.screen.cell(0, 2).unwrap().attrs;
    assert_eq!((c.fg, c.bg), (None, None));
}

#[test]
fn printed_text_waits_for_flush() {
    let mut parser = VtParser::new(ParserConfig::default());
    let mut p = TermPerformer::new(Screen::new(10, 1));
    parser.advance(b"hi", &mut p);
    assert_eq!(p.screen.text(), "          ");
    p.flush();
    assert_eq!(p.screen.text(), "hi        ");
}

#[test]
fn tabs_and_backspace_and_line_motions() {
    let p = feed(b"a\tb\x08c\x1b[2;1H\x1b[2I", 20, 3);
    assert_eq!(p.screen.text().lines().next().unwrap().trim_end(), "a       c");
    assert_eq!(p.screen.cursor(), (16, 1));
    let p = feed(b"\x1b[3;4H\x1b[F", 10, 5);
    assert_eq!(p.screen.cursor(), (0, 1));
    let p = feed(b"\x1b[3;4H\x1b[E\x1b[7G", 10, 5);
    assert_eq!(p.screen.cursor(), (6, 3));
    let p = feed(b"\x1b[3;4H\x1b[5d", 10, 5);
    assert_eq!(p.screen.cursor(), (3, 4));
}

#[test]
fn erase_line_modes() {
    let p = feed(b"abcdef\x1b[1;3H\x1b[K", 6, 1);
    assert_eq!(p.screen.text(), "ab    ");
    let p = feed(b"abcdef\x1b[1;3H\x1b[1K", 6, 1);
    assert_eq!(p.screen.text(), "  cdef");
    let p = feed(b"abcdef\x1b[1;3H\x1b[2K", 6, 1);
    assert_eq!(p.screen.text(), "      ");
    let p = feed(b"ab\r\ncd\r\nef\x1b[2;2H\x1b[J", 2, 3);
    assert_eq!(p.screen.text(), "ab\nc \n  ");
    let p = feed(b"ab\r\ncd\r\nef\x1b[2;2H\x1b[1J", 2, 3);
    assert_eq!(p.screen.text(), "  \n d\nef");
}

#[test]
fn reverse_index_above_region_is_ignored() {
    let p = feed(b"\x1b[3;4r\x1b[1;1H\x1bM", 5, 5);
    assert_eq!(p.screen.cursor(), (0, 0));
    let p = feed(b"\x1b[3;1H\x1bM", 5, 5);
    assert_eq!(p.screen.cursor(), (0, 1));
}

#[test]
fn session_core_hands_out_cursor_reports() {
    let mut core = SessionCore::new(Screen::new(80, 24));
    let replies = core.ingest(b"\x1b[3;5H\x1b[6nready");
    assert_eq!(replies, vec![b"\x1b[3;5R".to_vec()]);
    assert!(core.screen().text().contains("ready"));
    assert!(core.ingest(b"").is_empty());
    core.resize_screen(100, 40);
    assert_eq!((core.screen().cols(), core.screen().rows()), (100, 40));
    let screen = core.into_screen();
    assert_eq!(screen.cols(), 100);
}

#[test]
fn cursor_report_uses_multi_digit_positions() {
    let mut p = feed(b"\x1b[120;200H\x1b[6n\x1b[?6n\x1b[5n", 300, 150);
    assert_eq!(p.take_responses(), vec![b"\x1b[120;200R".to_vec()]);
}

#[test]
fn byte_queue_hands_out_what_fits_oldest_first() {
    let mut q = ByteQueue::new();
    assert!(q.is_empty());
    q.push(b"hello");
    q.push(b" world");
    let mut buf = [b'#'; 4];
    assert_eq!(q.pop_into(&mut buf), 4);
    assert_eq!(&buf, b"hell");
    let mut big = [b'#'; 10];
    assert_eq!(q.pop_into(&mut big), 7);
    assert_eq!(&big, b"o world###");
    assert_eq!(q.len(), 0);
    assert_eq!(q.pop_into(&mut big), 0);
}

#[test]
fn output_split_across_reads_gives_the_same_screen() {
    let whole: &[u8] = b"ab\x1b[3;5H\x1b[6ncd\x1b[1mef\r\ngh";
    let mut one = SessionCore::new(Screen::new(20, 5));
    let replies_one = one.ingest(whole);
    for cut in 0..whole.len() {
        let mut two = SessionCore::new(Screen::new(20, 5));
        let mut replies = two.ingest(&whole[..cut]);
        replies.extend(two.ingest(&whole[cut..]));
        assert_eq!(two.screen().text(), one.screen().text(), "cut at {cut}");
        assert_eq!(two.screen().cursor(), one.screen().cursor(), "cut at {cut}");
        assert_eq!(replies, replies_one, "cut at {cut}");
    }
    assert_eq!(replies_one, vec![b"\x1b[3;5R".to_vec()]);
}
