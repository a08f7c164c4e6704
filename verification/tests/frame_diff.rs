use departure_board::frame::{Buffer, Redraw};

fn cells_of(buffer: &Buffer) -> Vec<char> {
    let mut cells = Vec::new();
    for y in 0..buffer.height() {
        for x in 0..buffer.width() {
            cells.push(buffer.cell(x, y));
        }
    }
    cells
}

fn apply(cells: &mut [char], width: u16, updates: &[(u16, u16, char)]) {
    for &(x, y, c) in updates {
        cells[y as usize * width as usize + x as usize] = c;
    }
}

#[test]
fn resize_is_detected_on_either_dimension() {
    let a = Buffer::new(4, 2, "abcdefgh".to_string());
    let same = Buffer::new(4, 2, "xxxx".to_string());
    let wider = Buffer::new(5, 2, "abcdefgh".to_string());
    let taller = Buffer::new(4, 3, "abcdefgh".to_string());
    assert!(!a.has_resized(&same));
    assert!(a.has_resized(&wider));
    assert!(a.has_resized(&taller));
    assert!(wider.has_resized(&a));
}

#[test]
fn first_frame_against_empty_screen_is_a_resize() {
    let empty = Buffer::new(0, 0, String::new());
    let first = Buffer::new(80, 24, "x".to_string());
    assert!(first.has_resized(&empty));
    assert!(matches!(first.plan_redraw(&empty), Redraw::Full));
}

#[test]
fn diff_lists_changed_cells_in_row_major_order() {
    let prev = Buffer::new(3, 2, "abcdef".to_string());
    let cur = Buffer::new(3, 2, "abXYeZ".to_string());
    let diff = cur.get_diff(&prev);
    assert_eq!(diff, vec![(2, 0, 'X'), (0, 1, 'Y'), (2, 1, 'Z')]);
}

#[test]
fn diff_of_equal_frames_is_empty() {
    let prev = Buffer::from_text(5, 3, "one\ntwo\nthree".to_string());
    let cur = Buffer::from_text(5, 3, "one\ntwo\nthree".to_string());
    assert_eq!(cur.get_diff(&prev), Vec::new());
}

#[test]
fn diff_of_frames_without_cells_is_empty() {
    let prev = Buffer::new(0, 7, "abc".to_string());
    let cur = Buffer::new(0, 7, "xyz".to_string());
    assert_eq!(cur.get_diff(&prev), Vec::new());
    let prev = Buffer::new(7, 0, "abc".to_string());
    let cur = Buffer::new(7, 0, "xyz".to_string());
    assert_eq!(cur.get_diff(&prev), Vec::new());
}

#[test]
fn applying_the_diff_reproduces_the_current_frame() {
    let prev = Buffer::from_text(6, 4, "10:00 \n10:05\n\nfooter".to_string());
    let cur = Buffer::from_text(6, 4, "10:01\n10:05 x\nnew\nfooter".to_string());
    let diff = cur.get_diff(&prev);
    let mut cells = cells_of(&prev);
    apply(&mut cells, 6, &diff);
    assert_eq!(cells, cells_of(&cur));
}

#[test]
fn applying_the_diff_in_reverse_order_reproduces_the_current_frame() {
    let prev = Buffer::new(4, 3, "abcdefghijkl".to_string());
    let cur = Buffer::new(4, 3, "abXdYfghijkZ".to_string());
    let mut diff = cur.get_diff(&prev);
    diff.reverse();
    let mut cells = cells_of(&prev);
    apply(&mut cells, 4, &diff);
    assert_eq!(cells, cells_of(&cur));
}

#[test]
fn diff_holds_no_entry_for_an_unchanged_cell() {
    let prev = Buffer::new(4, 3, "abcdefghijkl".to_string());
    let cur = Buffer::new(4, 3, "abXdYfghijkZ".to_string());
    let diff = cur.get_diff(&prev);
    assert_eq!(diff.len(), 3);
    for (x, y, c) in diff {
        assert_ne!(prev.cell(x, y), cur.cell(x, y));
        assert_eq!(cur.cell(x, y), c);
    }
}

#[test]
fn diff_coordinates_are_column_then_row() {
    let prev = Buffer::from_text(5, 3, String::new());
    let cur = Buffer::from_text(5, 3, "\n\n    #".to_string());
    assert_eq!(cur.get_diff(&prev), vec![(4, 2, '#')]);
}

#[test]
fn layout_pads_short_lines_and_missing_rows_with_blanks() {
    let frame = Buffer::from_text(4, 3, "ab\nc".to_string());
    assert_eq!(frame.width(), 4);
    assert_eq!(frame.height(), 3);
    assert_eq!(frame.row(0), "ab  ");
    assert_eq!(frame.row(1), "c   ");
    assert_eq!(frame.row(2), "    ");
}

#[test]
fn layout_clips_long_lines_and_surplus_rows() {
    let frame = Buffer::from_text(3, 2, "abcdef\nghijkl\nmnopqr".to_string());
    assert_eq!(frame.row(0), "abc");
    assert_eq!(frame.row(1), "ghi");
    assert_eq!(cells_of(&frame).len(), 6);
}

#[test]
fn layout_keeps_empty_lines_as_blank_rows() {
    let frame = Buffer::from_text(2, 4, "a\n\nb\n".to_string());
    assert_eq!(frame.row(0), "a ");
    assert_eq!(frame.row(1), "  ");
    assert_eq!(frame.row(2), "b ");
    assert_eq!(frame.row(3), "  ");
}

#[test]
fn layout_counts_characters_not_bytes() {
    let frame = Buffer::from_text(3, 1, "╭─╮".to_string());
    assert_eq!(frame.cell(0, 0), '╭');
    assert_eq!(frame.cell(1, 0), '─');
    assert_eq!(frame.cell(2, 0), '╮');
}

#[test]
fn redraw_plan_is_the_diff_when_the_size_is_unchanged() {
    let prev = Buffer::new(3, 1, "abc".to_string());
    let cur = Buffer::new(3, 1, "abd".to_string());
    match cur.plan_redraw(&prev) {
        Redraw::Updates(updates) => assert_eq!(updates, vec![(2, 0, 'd')]),
        Redraw::Full => panic!("the size did not change"),
    }
}

#[test]
fn redraw_plan_is_full_after_a_resize() {
    let prev = Buffer::new(3, 1, "abc".to_string());
    let cur = Buffer::new(3, 2, "abc".to_string());
    assert!(matches!(cur.plan_redraw(&prev), Redraw::Full));
}

#[test]
fn content_of_exactly_the_grid_s_size_is_the_cells() {
    let frame = Buffer::new(2, 2, "abcd".to_string());
    assert_eq!(frame.width(), 2);
    assert_eq!(frame.height(), 2);
    assert_eq!(cells_of(&frame), vec!['a', 'b', 'c', 'd']);
    assert_eq!(frame.row(0), "ab");
    assert_eq!(frame.row(1), "cd");
}

#[test]
fn content_fills_the_cells_in_row_major_order() {
    let cur = Buffer::new(3, 2, "abXdeY".to_string());
    let prev = Buffer::new(3, 2, "abcdef".to_string());
    assert_eq!(cur.get_diff(&prev), vec![(2, 0, 'X'), (2, 1, 'Y')]);
}

#[test]
fn diff_of_a_large_frame_finds_the_one_changed_cell() {
    let cur = Buffer::new(300, 300, "a".repeat(70000) + "b" + &"a".repeat(19999));
    let prev = Buffer::new(300, 300, "a".repeat(90000));
    assert_eq!(cur.get_diff(&prev), vec![(100, 233, 'b')]);
}

#[test]
fn short_content_is_filled_with_blanks_and_long_content_is_cut() {
    let short = Buffer::new(3, 2, "ab".to_string());
    assert_eq!(cells_of(&short), vec!['a', 'b', ' ', ' ', ' ', ' ']);
    let long = Buffer::new(2, 2, "abcdefgh".to_string());
    assert_eq!(cells_of(&long), vec!['a', 'b', 'c', 'd']);
    let empty = Buffer::new(0, 0, "abc".to_string());
    assert_eq!(cells_of(&empty), Vec::new());
}

#[test]
fn line_feed_in_content_is_a_cell_like_any_other() {
    let frame = Buffer::new(3, 1, "a\nb".to_string());
    assert_eq!(cells_of(&frame), vec!['a', '\n', 'b']);
    let laid_out = Buffer::from_text(3, 1, "a\nb".to_string());
    assert_eq!(cells_of(&laid_out), vec!['a', ' ', ' ']);
}
