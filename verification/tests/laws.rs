//! Concrete instances of the laws the library proves.

use krill::{
    AttrDto, Attrs, Cell, Color, LoopbackTransport, Modes, Screen, SessionRegistry, SnapshotDto,
    SpawnOptions,
};

fn row_text(s: &Screen, row: u16) -> String {
    (0..s.cols()).map(|c| s.cell(row, c).unwrap().ch).collect()
}

#[test]
fn alt_screen_round_trip_keeps_primary_and_scrollback() {
    let mut s = Screen::with_scrollback_cap(6, 3, 10);
    for ch in "abc".chars() {
        s.put(ch);
    }
    let before = s.text();
    s.set_private_mode(1049, true);
    for _ in 0..10 {
        s.put('z');
        s.line_feed();
    }
    assert_eq!(s.scrollback_len(), 0);
    s.set_private_mode(1049, false);
    assert_eq!(s.text(), before);
    assert_eq!(s.cursor(), (3, 0));
    assert!(!s.modes().alt_screen);
    assert_eq!(s.scrollback_len(), 0);
}

#[test]
fn region_scroll_leaves_outside_rows() {
    let mut s = Screen::new(3, 5);
    for (r, ch) in ['a', 'b', 'c', 'd', 'e'].iter().enumerate() {
        s.goto(r as i64, 0);
        s.put(*ch);
    }
    s.set_scroll_region(2, 4);
    s.scroll_up(2);
    assert_eq!(row_text(&s, 0), "a  ");
    assert_eq!(row_text(&s, 1), "d  ");
    assert_eq!(row_text(&s, 2), "   ");
    assert_eq!(row_text(&s, 3), "   ");
    assert_eq!(row_text(&s, 4), "e  ");
    assert_eq!(s.scrollback_len(), 0);
    s.scroll_down(1);
    assert_eq!(row_text(&s, 1), "   ");
    assert_eq!(row_text(&s, 2), "d  ");
    assert_eq!(row_text(&s, 4), "e  ");
    s.scroll_up(5);
    for r in 1..4 {
        assert_eq!(row_text(&s, r), "   ");
    }
    assert_eq!(row_text(&s, 0), "a  ");
    assert_eq!(row_text(&s, 4), "e  ");
}

#[test]
fn line_feed_at_bottom_feeds_scrollback_up_to_cap() {
    let mut s = Screen::with_scrollback_cap(2, 2, 2);
    for ch in ['1', '2', '3', '4'] {
        s.carriage_return();
        s.put(ch);
        s.goto(1, 0);
        s.line_feed();
    }
    assert_eq!(s.scrollback_len(), 2);
    let newest: String = s.scrollback_line(1).unwrap().iter().map(|c| c.ch).collect();
    assert_eq!(newest, "3 ");
    let oldest: String = s.scrollback_line(0).unwrap().iter().map(|c| c.ch).collect();
    assert_eq!(oldest, "2 ");
    assert_eq!(row_text(&s, 0), "4 ");
    assert_eq!(row_text(&s, 1), "  ");
    assert!(s.scrollback_line(2).is_none());
}

#[test]
fn delete_after_insert_restores_line_but_blanks_the_tail() {
    let mut s = Screen::new(6, 1);
    for ch in "abcdef".chars() {
        s.put(ch);
    }
    s.goto(0, 1);
    s.insert_blanks(2);
    assert_eq!(row_text(&s, 0), "a  bcd");
    s.delete_chars(2);
    assert_eq!(row_text(&s, 0), "abcd  ");
}

#[test]
fn erase_display_two_blanks_in_current_rendition() {
    let mut s = Screen::new(4, 2);
    s.put('x');
    s.sgr(&[7]);
    s.erase_display(2);
    for r in 0..2 {
        for c in 0..4 {
            let cell = s.cell(r, c).unwrap();
            assert_eq!(cell.ch, ' ');
            assert!(cell.attrs.reverse);
        }
    }
}

#[test]
fn save_move_restore_returns_cursor_and_rendition() {
    let mut s = Screen::new(10, 5);
    s.goto(2, 3);
    s.sgr(&[1]);
    s.save_cursor();
    s.goto(4, 9);
    s.sgr(&[0]);
    s.restore_cursor();
    assert_eq!(s.cursor(), (3, 2));
    assert!(s.attrs().bold);
}

#[test]
fn resize_keeps_overlap_and_fills_default_cells() {
    let mut s = Screen::new(3, 2);
    s.sgr(&[1]);
    for ch in "abcdef".chars() {
        s.put(ch);
    }
    s.resize(5, 3).unwrap();
    assert_eq!(row_text(&s, 0), "abc  ");
    assert_eq!(row_text(&s, 1), "def  ");
    assert_eq!(row_text(&s, 2), "     ");
    assert!(s.cell(0, 0).unwrap().attrs.bold);
    assert_eq!(*s.cell(0, 4).unwrap(), Cell::default());
}

#[test]
fn sgr_reset_and_truecolor() {
    let mut s = Screen::new(4, 1);
    s.sgr(&[1, 4, 31, 42]);
    s.sgr(&[0]);
    assert_eq!(*s.attrs(), Attrs::default());
    s.sgr(&[3]);
    s.sgr(&[]);
    assert_eq!(*s.attrs(), Attrs::default());
    s.sgr(&[48, 2, 1, 2, 3]);
    assert_eq!(s.attrs().bg, Some(Color::Rgb(1, 2, 3)));
    assert_eq!(s.attrs().fg, None);
}

#[test]
fn mode_set_then_reset_is_off() {
    let mut s = Screen::new(4, 1);
    for mode in [9, 1000, 1002, 1003, 1006, 2004] {
        s.set_private_mode(mode, true);
        s.set_private_mode(mode, false);
    }
    assert_eq!(*s.modes(), Modes::default());
}

#[test]
fn snapshot_runs_spell_rows_and_name_their_attributes() {
    let mut s = Screen::new(6, 2);
    s.put('a');
    s.sgr(&[1]);
    s.put('b');
    s.put('c');
    s.sgr(&[0]);
    s.put('d');
    let snap = SnapshotDto::from_screen(&s);
    assert_eq!(snap.attrs.len(), 2);
    assert_eq!(snap.attrs[0], AttrDto::default());
    assert!(snap.attrs[1].bold);
    let runs: Vec<(u32, &str)> = snap.lines[0].runs.iter().map(|r| (r.attr, r.text.as_str())).collect();
    assert_eq!(runs, vec![(0, "a"), (1, "bc"), (0, "d  ")]);
    assert_eq!(snap.lines[1].runs.len(), 1);
    assert_eq!(snap.lines[1].runs[0].text, "      ");
    assert_eq!((snap.cursor_col, snap.cursor_row), (4, 0));
    assert!(snap.cursor_visible);
}

#[test]
fn loopback_echoes_then_drains() {
    let mut t = LoopbackTransport::new(&SpawnOptions::default());
    assert_eq!(t.write(b"echo hi\r\n"), 9);
    let mut buf = [0u8; 64];
    let n = t.read(&mut buf);
    assert_eq!(&buf[..n], b"echo hi\r\n");
    assert_eq!(t.read(&mut buf), 0);
}

#[test]
fn registry_insert_get_remove() {
    let mut reg: SessionRegistry<&'static str> = SessionRegistry::new();
    let a = reg.insert("first");
    let b = reg.insert("second");
    assert_eq!((a, b), (0, 1));
    assert_eq!(reg.get(a), Ok(&"first"));
    assert_eq!(reg.remove(a), Ok(()));
    assert_eq!(reg.get(a), Err("no such session".to_string()));
    assert_eq!(reg.remove(a), Err("no such session".to_string()));
    assert_eq!(reg.get(b), Ok(&"second"));
}

#[test]
fn scrolling_a_full_screen_moves_every_line() {
    let mut s = Screen::new(3, 2);
    s.put('a');
    s.goto(1, 0);
    s.put('b');
    s.scroll_up(2);
    assert_eq!(s.scrollback_len(), 2);
    assert_eq!(row_text(&s, 0), "   ");
    assert_eq!(row_text(&s, 1), "   ");
    let first: String = s.scrollback_line(0).unwrap().iter().map(|c| c.ch).collect();
    assert_eq!(first, "a  ");
    let mut one = Screen::new(4, 1);
    one.put('z');
    one.line_feed();
    assert_eq!(one.scrollback_len(), 1);
    assert_eq!(row_text(&one, 0), "    ");
    let mut d = Screen::new(3, 2);
    d.put('q');
    d.scroll_down(5);
    assert_eq!(row_text(&d, 0), "   ");
    assert_eq!(row_text(&d, 1), "   ");
}

#[test]
fn leaving_bare_alt_screen_keeps_primary_and_homes_cursor() {
    let mut s = Screen::new(10, 2);
    s.put('x');
    s.goto(1, 3);
    s.set_private_mode(47, true);
    s.put('y');
    s.set_private_mode(47, false);
    assert_eq!(row_text(&s, 0), "x         ");
    assert_eq!(s.cursor(), (0, 0));
    assert!(!s.modes().alt_screen);
}

#[test]
fn restore_after_moves_prints_and_renditions() {
    let mut s = Screen::new(10, 4);
    s.goto(2, 5);
    s.sgr(&[1]);
    s.save_cursor();
    s.put('a');
    s.sgr(&[0, 7]);
    s.goto(0, 0);
    s.line_feed();
    s.carriage_return();
    s.move_cursor(1, 2);
    s.restore_cursor();
    assert_eq!(s.cursor(), (5, 2));
    assert!(s.attrs().bold && !s.attrs().reverse);
    let before = s.cursor();
    s.restore_cursor();
    assert_eq!(s.cursor(), before);
}
