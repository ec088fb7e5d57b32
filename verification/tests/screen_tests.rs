use tokotchi::screen::{char_len, Buffer, Cell};

#[test]
fn put_clips_to_the_buffer() {
    let mut b = Buffer::new(5, 2);
    assert_eq!(b.cells.len(), 10);
    b.put(1, 3, "xyz", 7, true, false);
    assert_eq!(b.cells[8], Cell { ch: 'x', fg: 7, bold: true, dim: false });
    assert_eq!(b.cells[9].ch, 'y');
    assert_eq!(b.cells[5].ch, ' ');
    // rows past the bottom are ignored
    b.put(2, 0, "q", 1, false, false);
    assert!(b.cells.iter().all(|c| c.ch != 'q'));
    // multi-byte characters take one cell each
    b.put(0, 0, "╭─╮", 3, false, true);
    assert_eq!(b.cells[0].ch, '╭');
    assert_eq!(b.cells[2].ch, '╮');
    assert!(b.cells[1].dim);
    b.clear();
    assert!(b.cells.iter().all(|c| *c == Cell::default()));
}

#[test]
fn char_len_counts_characters() {
    assert_eq!(char_len(" ❋ TOKOTCHI ❋ "), 14);
    assert_eq!(char_len(""), 0);
}

fn row_text(b: &Buffer, row: usize) -> String {
    let w = b.w as usize;
    b.cells[row * w..(row + 1) * w].iter().map(|c| c.ch).collect()
}

#[test]
fn draw_box_outlines_a_rounded_card() {
    let mut b = Buffer::new(6, 5);
    b.put(2, 2, "ab", 9, true, false);
    b.draw_box(0, 0, 4, 5, 173);
    assert_eq!(row_text(&b, 0), "╭───╮ ");
    assert_eq!(row_text(&b, 1), "│   │ ");
    assert_eq!(row_text(&b, 2), "│ ab│ ");
    assert_eq!(row_text(&b, 3), "╰───╯ ");
    assert_eq!(row_text(&b, 4), "      ");
    assert_eq!(b.cells[0], Cell { ch: '╭', fg: 173, bold: false, dim: false });
    // the hollow middle keeps what was there
    assert_eq!(b.cells[2 * 6 + 2], Cell { ch: 'a', fg: 9, bold: true, dim: false });
}

#[test]
fn draw_box_clips_at_the_edges() {
    let mut b = Buffer::new(4, 3);
    b.draw_box(1, 2, 4, 5, 1);
    assert_eq!(row_text(&b, 0), "    ");
    assert_eq!(row_text(&b, 1), "  ╭─");
    assert_eq!(row_text(&b, 2), "  │ ");
}

#[test]
fn draw_box_of_one_row_is_its_bottom_edge() {
    let mut b = Buffer::new(3, 1);
    b.draw_box(0, 0, 1, 3, 1);
    assert_eq!(row_text(&b, 0), "╰─╯");
}

#[test]
fn sync_from_reports_each_changed_cell_in_order() {
    let mut front = Buffer::new(3, 2);
    let mut back = Buffer::new(3, 2);
    back.put(0, 2, "x", 5, false, false);
    back.put(1, 0, "yz", 6, true, false);
    let changes = front.sync_from(&back);
    assert_eq!(
        changes,
        vec![
            (0, 2, Cell { ch: 'x', fg: 5, bold: false, dim: false }),
            (1, 0, Cell { ch: 'y', fg: 6, bold: true, dim: false }),
            (1, 1, Cell { ch: 'z', fg: 6, bold: true, dim: false }),
        ]
    );
    assert_eq!(front.cells, back.cells);
    // nothing left to send once the two agree
    assert!(front.sync_from(&back).is_empty());
}

#[test]
fn default_cell_is_a_plain_space() {
    assert_eq!(Cell::default(), Cell { ch: ' ', fg: 0, bold: false, dim: false });
    assert!(Buffer::new(2, 2).cells.iter().all(|c| *c == Cell::default()));
}
