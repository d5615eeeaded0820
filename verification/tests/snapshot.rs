use krill::{AttrDto, Attrs, Color, ColorDto, Screen, SnapshotDto};

#[test]
fn snapshot_matches_screen_dimensions_and_text() {
    let mut screen = Screen::new(20, 5);
    for ch in "hello".chars() {
        screen.put(ch);
    }
    let snap = SnapshotDto::from_screen(&screen);
    assert_eq!(snap.cols, 20);
    assert_eq!(snap.rows, 5);
    assert_eq!(snap.lines.len(), 5);
    let first = snap.lines[0]
        .runs
        .iter()
        .map(|run| run.text.as_str())
        .collect::<String>();
    assert_eq!(first, "hello               ");
}

#[test]
fn distinct_attributes_get_distinct_palette_entries() {
    let mut screen = Screen::new(10, 2);
    screen.put('a');
    let snap = SnapshotDto::from_screen(&screen);
    // Default attr must always be present at index 0.
    assert_eq!(snap.attrs[0], AttrDto::default());
    let _ = Attrs::default();
}

#[test]
fn color_mapping_preserves_indexed_and_truecolor() {
    assert_eq!(ColorDto::from(Color::Default), ColorDto::Default);
    assert_eq!(ColorDto::from(Color::Indexed(7)), ColorDto::Indexed(7));
    assert_eq!(
        ColorDto::from(Color::Rgb(0xff, 0x80, 0x01)),
        ColorDto::Rgb([0xff, 0x80, 0x01])
    );
}

#[test]
fn truecolor_snapshot_round_trips_rgb() {
    let mut screen = Screen::new(10, 2);
    // SGR truecolor foreground (38;2;r;g;b) then a glyph.
    screen.sgr(&[38, 2, 18, 52, 86]);
    screen.put('x');
    let snap = SnapshotDto::from_screen(&screen);
    let attr = &snap.attrs[snap.lines[0].runs[0].attr as usize];
    assert_eq!(attr.fg, ColorDto::Rgb([18, 52, 86]));
}
