use departure_board::board::{
    board_frame, clock_text, departure_row, departure_time_label, footer_row, format_frame,
    format_frame_at, get_departure_board, get_departure_board_at, header_row, render_board,
    rotation_text, visible_rows, Board, ClockTime, DrawError,
};
use departure_board::model::{
    Departure, Line, Timestamp, WienerLinienTrafficInfo, WienerLinienVehicleType,
};
use departure_board::refresh::rotation_index;

fn at(hour: u8, minute: u8) -> Timestamp {
    Timestamp { year: 2024, month: 1, day: 1, hour, minute, second: 0, nanosecond: 0 }
}

fn departure(name: &str, planned: Timestamp, real: Option<Timestamp>, countdown: i64) -> Departure {
    Departure {
        time_planned: planned,
        time_real: real,
        countdown,
        station_name: format!("station {}", name),
        destination_name: format!("to {}", name),
        line: Line { vehicle_type: WienerLinienVehicleType::Tram, name: name.to_string() },
    }
}

fn notes(count: usize) -> Option<Vec<WienerLinienTrafficInfo>> {
    Some(
        (0..count)
            .map(|i| WienerLinienTrafficInfo {
                title: format!("title {}", i),
                description: format!("description {}", i),
                priority: None,
            })
            .collect(),
    )
}

const NOON: ClockTime = ClockTime { hour: 12, minute: 0, second: 9 };

#[test]
fn footer_label_rotates_through_three_notes() {
    let three = notes(3);
    let mut labels = Vec::new();
    for subframe in [0, 1, 2, 3] {
        let index = rotation_index(subframe, &three);
        let footer = footer_row(&three, index, NOON).unwrap();
        labels.push(footer[1].clone());
    }
    assert_eq!(labels, vec!["1/3", "2/3", "3/3", "1/3"]);
}

#[test]
fn footer_shows_clock_label_title_and_description() {
    let footer = footer_row(&notes(3), Some(1), NOON).unwrap();
    assert_eq!(footer, vec!["12:00:09", "2/3", "title 1", "description 1"]);
}

#[test]
fn footer_without_rotation_index_carries_only_the_clock() {
    assert_eq!(footer_row(&notes(3), None, NOON).unwrap(), vec!["12:00:09"]);
    assert_eq!(footer_row(&None, None, NOON).unwrap(), vec!["12:00:09"]);
}

#[test]
fn rotation_index_without_notes_is_out_of_bounds() {
    assert_eq!(footer_row(&None, Some(0), NOON), Err(DrawError::IndexOutOfBoundsError));
    assert_eq!(footer_row(&notes(0), Some(0), NOON), Err(DrawError::IndexOutOfBoundsError));
}

#[test]
fn rotation_index_beyond_the_notes_is_out_of_bounds() {
    assert_eq!(footer_row(&notes(3), Some(3), NOON), Err(DrawError::IndexOutOfBoundsError));
    assert_eq!(
        footer_row(&notes(3), Some(usize::MAX), NOON),
        Err(DrawError::IndexOutOfBoundsError)
    );
    assert!(footer_row(&notes(3), Some(2), NOON).is_ok());
}

#[test]
fn board_with_out_of_bounds_index_is_an_error() {
    let departures = vec![departure("1", at(10, 0), None, 1)];
    assert!(matches!(
        get_departure_board_at(&departures, &notes(2), Some(2), 80, 24, NOON),
        Err(DrawError::IndexOutOfBoundsError)
    ));
    assert!(matches!(
        get_departure_board(&departures, &None, Some(0), 80, 24),
        Err(DrawError::IndexOutOfBoundsError)
    ));
}

#[test]
fn time_label_shows_planned_time_and_countdown() {
    assert_eq!(departure_time_label(&departure("2", at(10, 0), None, 5)), "10:00 (+5)");
}

#[test]
fn time_label_prefers_the_real_time() {
    assert_eq!(
        departure_time_label(&departure("2", at(10, 0), Some(at(10, 4)), 4)),
        "10:04 (+4)"
    );
}

#[test]
fn time_label_pads_hours_and_minutes_to_two_digits() {
    assert_eq!(departure_time_label(&departure("2", at(7, 3), None, 0)), "07:03 (+0)");
    assert_eq!(departure_time_label(&departure("2", at(0, 0), None, 120)), "00:00 (+120)");
    assert_eq!(departure_time_label(&departure("2", at(23, 59), None, 10)), "23:59 (+10)");
}

#[test]
fn time_label_keeps_a_negative_countdown() {
    assert_eq!(departure_time_label(&departure("2", at(9, 58), None, -2)), "09:58 (+-2)");
    assert_eq!(
        departure_time_label(&departure("2", at(9, 58), None, i64::MIN)),
        "09:58 (+-9223372036854775808)"
    );
    assert_eq!(
        departure_time_label(&departure("2", at(9, 58), None, i64::MAX)),
        "09:58 (+9223372036854775807)"
    );
}

#[test]
fn departure_row_has_time_line_station_destination() {
    assert_eq!(
        departure_row(&departure("43", at(10, 0), None, 5)),
        vec!["10:00 (+5)", "43", "station 43", "to 43"]
    );
}

#[test]
fn header_has_the_four_column_titles() {
    assert_eq!(header_row(), vec!["Departure", "Line", "Closest station", "Destination"]);
}

#[test]
fn clock_is_written_with_two_digits_each() {
    assert_eq!(clock_text(ClockTime { hour: 0, minute: 0, second: 0 }), "00:00:00");
    assert_eq!(clock_text(ClockTime { hour: 9, minute: 5, second: 59 }), "09:05:59");
    assert_eq!(clock_text(ClockTime { hour: 23, minute: 10, second: 7 }), "23:10:07");
}

#[test]
fn rotation_label_counts_from_one() {
    assert_eq!(rotation_text(0, 1), "1/1");
    assert_eq!(rotation_text(9, 12), "10/12");
    assert_eq!(rotation_text(99, 100), "100/100");
}

#[test]
fn rows_that_fit_are_a_third_of_the_height_less_five() {
    assert_eq!(visible_rows(0), 0);
    assert_eq!(visible_rows(4), 0);
    assert_eq!(visible_rows(5), 0);
    assert_eq!(visible_rows(6), 0);
    assert_eq!(visible_rows(7), 0);
    assert_eq!(visible_rows(8), 1);
    assert_eq!(visible_rows(24), 6);
    assert_eq!(visible_rows(25), 6);
    assert_eq!(visible_rows(26), 7);
    assert_eq!(visible_rows(u16::MAX), 21843);
}

#[test]
fn surplus_departures_are_truncated() {
    let departures: Vec<Departure> =
        (0..10).map(|i| departure(&i.to_string(), at(10, i as u8), None, i)).collect();
    let board = get_departure_board_at(&departures, &None, None, 80, 14, NOON).unwrap();
    assert_eq!(board.width, 80);
    assert_eq!(board.header, header_row());
    assert_eq!(board.rows.len(), 4);
    assert_eq!(board.rows[0], vec!["10:00 (+0)", "0", "station 0", "to 0"]);
    assert_eq!(board.rows[2], vec!["10:02 (+2)", "2", "station 2", "to 2"]);
    assert_eq!(board.rows[3], vec!["12:00:09"]);
}

#[test]
fn missing_departures_are_padded_with_empty_rows() {
    let departures = vec![departure("7", at(10, 0), None, 1)];
    let board = get_departure_board_at(&departures, &notes(2), Some(1), 80, 17, NOON).unwrap();
    assert_eq!(board.rows.len(), 5);
    assert_eq!(board.rows[0][1], "7");
    assert!(board.rows[1].is_empty());
    assert!(board.rows[2].is_empty());
    assert!(board.rows[3].is_empty());
    assert_eq!(board.rows[4], vec!["12:00:09", "2/2", "title 1", "description 1"]);
}

#[test]
fn board_of_a_low_terminal_has_only_the_footer() {
    let departures = vec![departure("7", at(10, 0), None, 1)];
    let board = get_departure_board_at(&departures, &None, None, 80, 3, NOON).unwrap();
    assert_eq!(board.rows, vec![vec!["12:00:09".to_string()]]);
}

#[test]
fn board_with_the_current_time_has_a_clock_in_its_footer() {
    let departures = vec![departure("7", at(10, 0), None, 1)];
    let board = get_departure_board(&departures, &notes(1), Some(0), 80, 11).unwrap();
    assert_eq!(board.rows.len(), 3);
    let footer = &board.rows[2];
    assert_eq!(footer.len(), 4);
    let clock: Vec<char> = footer[0].chars().collect();
    assert_eq!(clock.len(), 8);
    assert_eq!(clock[2], ':');
    assert_eq!(clock[5], ':');
    let hour: u32 = footer[0][0..2].parse().unwrap();
    let minute: u32 = footer[0][3..5].parse().unwrap();
    let second: u32 = footer[0][6..8].parse().unwrap();
    assert!(hour < 24 && minute < 60 && second < 60);
    assert_eq!(footer[1], "1/1");
}

#[test]
fn rendered_board_is_a_table_of_the_given_width() {
    let departures = vec![departure("43", at(10, 0), None, 5)];
    let board = get_departure_board_at(&departures, &None, None, 80, 8, NOON).unwrap();
    let text = render_board(&board);
    assert!(text.starts_with('╭'));
    assert!(text.contains("Closest station"));
    assert!(text.contains("10:00 (+5)"));
    assert!(text.contains("12:00:09"));
    let lines: Vec<&str> = text.lines().collect();
    assert!(lines.len() >= 7);
    for line in lines {
        assert_eq!(line.chars().count(), 80);
    }
}

#[test]
fn rendered_board_depends_on_the_width() {
    let board = Board {
        width: 40,
        header: header_row(),
        rows: vec![vec!["a".to_string(), "b".to_string(), "c".to_string(), "d".to_string()]],
    };
    let narrow = render_board(&board);
    let wide = render_board(&Board { width: 60, header: header_row(), rows: board.rows.clone() });
    assert_ne!(narrow, wide);
    assert_eq!(narrow.lines().next().unwrap().chars().count(), 40);
    assert_eq!(wide.lines().next().unwrap().chars().count(), 60);
}

#[test]
fn frame_of_a_board_has_the_requested_size() {
    let departures = vec![departure("43", at(10, 0), None, 5)];
    let board = get_departure_board_at(&departures, &None, None, 60, 8, NOON).unwrap();
    let frame = board_frame(&board, 8);
    assert_eq!(frame.width(), 60);
    assert_eq!(frame.height(), 8);
    assert_eq!(frame.cell(0, 0), '╭');
    let text = render_board(&board);
    let first: String = text.lines().next().unwrap().chars().collect();
    assert_eq!(frame.row(0), first);
}

#[test]
fn rendering_copes_with_any_width_and_odd_rows() {
    let rows = vec![
        vec!["10:00 (+5)".to_string(), "43".to_string(), "Lange Gasse".to_string()],
        vec![],
        vec!["a".to_string(); 7],
        vec!["Wien Hütteldorf — Süd\n東京駅 zweite Zeile".to_string(), String::new()],
        vec!["12:00:09".to_string()],
    ];
    for width in (0..40).chain([80, 255, 256, 1000, u16::MAX]) {
        let text = render_board(&Board { width, header: header_row(), rows: rows.clone() });
        assert!(text.contains('╭'));
        let frame = board_frame(&Board { width, header: header_row(), rows: rows.clone() }, 12);
        assert_eq!(frame.width(), width);
        assert_eq!(frame.height(), 12);
    }
    let empty = render_board(&Board { width: 20, header: vec![], rows: vec![] });
    assert!(empty.chars().count() < 200);
}

#[test]
fn formatted_frame_has_exactly_the_requested_size() {
    let departures = vec![departure("43", at(10, 0), None, 5), departure("44", at(10, 2), None, 7)];
    for (width, height) in [(80, 24), (40, 8), (10, 3), (0, 0), (1, 200), (200, 1)] {
        let frame = format_frame_at(&departures, &notes(2), Some(1), width, height, NOON).unwrap();
        assert_eq!(frame.width(), width);
        assert_eq!(frame.height(), height);
        let frame = format_frame(&departures, &None, None, width, height).unwrap();
        assert_eq!(frame.width(), width);
        assert_eq!(frame.height(), height);
    }
}

#[test]
fn formatted_frame_shows_the_drawn_table() {
    let departures = vec![departure("43", at(10, 0), None, 5)];
    let frame = format_frame_at(&departures, &None, None, 70, 9, NOON).unwrap();
    let board = get_departure_board_at(&departures, &None, None, 70, 9, NOON).unwrap();
    let text = render_board(&board);
    for (y, line) in text.lines().take(9).enumerate() {
        assert_eq!(frame.row(y as u16), line);
    }
    assert!(frame.row(1).contains("Departure"));
}

#[test]
fn formatting_a_frame_with_an_out_of_bounds_index_is_an_error() {
    let departures = vec![departure("43", at(10, 0), None, 5)];
    assert!(matches!(
        format_frame_at(&departures, &notes(1), Some(1), 80, 24, NOON),
        Err(DrawError::IndexOutOfBoundsError)
    ));
    assert!(matches!(
        format_frame(&departures, &None, Some(0), 80, 24),
        Err(DrawError::IndexOutOfBoundsError)
    ));
}
