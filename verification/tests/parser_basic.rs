use krill::action::VtAction;
use krill::{ParserConfig, VtParser};

/// Minimal sink that records printable chars into a String.
struct Sink {
    printed: String,
}

impl Sink {
    fn perform(&mut self, action: &VtAction) {
        match action {
            VtAction::Print(c) => self.printed.push(*c),
            VtAction::Execute(b'\n') => self.printed.push('\n'),
            _ => {}
        }
    }
}

fn run(p: &mut VtParser, bytes: &[u8], sink: &mut Sink) {
    for action in p.actions(bytes) {
        sink.perform(&action);
    }
}

#[test]
fn parser_passes_plain_text_through() {
    let mut p = VtParser::new(ParserConfig::default());
    let mut sink = Sink {
        printed: String::new(),
    };
    run(&mut p, b"hello world", &mut sink);
    assert_eq!(sink.printed, "hello world");
}

#[test]
fn parser_strips_sgr_sequences() {
    let mut p = VtParser::new(ParserConfig::default());
    let mut sink = Sink {
        printed: String::new(),
    };
    // red bold text then reset
    run(&mut p, b"\x1b[1;31mOK\x1b[0m", &mut sink);
    assert_eq!(sink.printed, "OK");
}

#[test]
fn parser_reports_events_in_order_across_reads() {
    let mut p = VtParser::new(ParserConfig::default());
    let mut actions = p.actions(b"a\x1b[1;3");
    assert_eq!(actions, vec![VtAction::Print('a')]);
    actions = p.actions(b"8:2:1:2:3mb\r\x1b7");
    assert_eq!(
        actions,
        vec![
            VtAction::Csi {
                params: vec![vec![1], vec![38, 2, 1, 2, 3]],
                intermediates: Vec::new(),
                ignore: false,
                action: 'm',
            },
            VtAction::Print('b'),
            VtAction::Execute(b'\r'),
            VtAction::Esc { intermediates: Vec::new(), ignore: false, byte: b'7' },
        ]
    );
    let actions = p.actions(b"\x1b[?25h\xc3\xa9");
    assert_eq!(
        actions,
        vec![
            VtAction::Csi {
                params: vec![vec![25]],
                intermediates: vec![b'?'],
                ignore: false,
                action: 'h',
            },
            VtAction::Print('é'),
        ]
    );
}
