//! The board formatter: from sorted departures, traffic notes and a clock
//! reading to the rows of the table that is shown.

use crate::frame::{layout, Buffer};
use crate::model::{Departure, DepartureView, Timestamp, TrafficInfoView, WienerLinienTrafficInfo};
use crate::text::{
    decimal, push_char, push_decimal, push_signed_decimal, push_two_digits, signed_decimal,
    two_digits,
};
use chrono::Timelike;
use vstd::prelude::*;
use vstd::string::StringExecFns;

verus! {

/// Terminal lines that header, footer and borders take from the height.
pub const RESERVED_LINES: u16 = 5;

/// Terminal lines that one departure takes.
pub const LINES_PER_ROW: u16 = 3;

/// A reading of the wall clock.
#[derive(Clone, Copy, Debug, PartialEq, Eq, Structural)]
pub struct ClockTime {
    pub hour: u8,
    pub minute: u8,
    pub second: u8,
}

/// Why a board could not be drawn.
#[derive(Clone, Copy, Debug, PartialEq, Eq, Structural)]
pub enum DrawError {
    /// A rotation index was given, and there is no traffic note at it.
    IndexOutOfBoundsError,
}

/// The table that is shown: a header, and rows of cells of which the last
/// is the footer.
#[derive(Debug)]
pub struct Board {
    pub width: u16,
    pub header: Vec<String>,
    pub rows: Vec<Vec<String>>,
}

/// What a `Board` holds, with each cell as a sequence of characters.
pub struct BoardView {
    pub width: u16,
    pub header: Seq<Seq<char>>,
    pub rows: Seq<Seq<Seq<char>>>,
}

impl View for Board {
    type V = BoardView;

    open spec fn view(&self) -> BoardView {
        BoardView {
            width: self.width,
            header: self.header.deep_view(),
            rows: self.rows.deep_view(),
        }
    }
}

/// The number of departures that fit a terminal of the given height.
pub open spec fn data_rows(height: nat) -> nat {
    if height >= RESERVED_LINES {
        ((height - RESERVED_LINES) / (LINES_PER_ROW as int)) as nat
    } else {
        0
    }
}

/// The time that is shown for a departure: the real one where it is known,
/// else the planned one.
pub open spec fn shown_time(d: DepartureView) -> Timestamp {
    match d.time_real {
        Some(t) => t,
        None => d.time_planned,
    }
}

/// The first cell of a departure's row: `HH:MM (+countdown)`.
pub open spec fn time_label(d: DepartureView) -> Seq<char> {
    two_digits(shown_time(d).hour as nat) + seq![':'] + two_digits(shown_time(d).minute as nat)
        + seq![' ', '(', '+'] + signed_decimal(d.countdown as int) + seq![')']
}

/// The cells of a departure's row.
pub open spec fn departure_cells(d: DepartureView) -> Seq<Seq<char>> {
    seq![time_label(d), d.line.name, d.station_name, d.destination_name]
}

/// The column titles.
pub open spec fn header_cells() -> Seq<Seq<char>> {
    seq!["Departure"@, "Line"@, "Closest station"@, "Destination"@]
}

/// The clock reading as `HH:MM:SS`.
pub open spec fn clock_label(clock: ClockTime) -> Seq<char> {
    two_digits(clock.hour as nat) + seq![':'] + two_digits(clock.minute as nat) + seq![':']
        + two_digits(clock.second as nat)
}

/// The position of the note shown among all notes, counted from 1.
pub open spec fn rotation_label(index: nat, total: nat) -> Seq<char> {
    decimal(index + 1) + seq!['/'] + decimal(total)
}

/// The cells of the footer. Without a rotation index it holds the clock
/// alone; with one it holds the note at that index, which must exist.
pub open spec fn footer_cells(
    notes: Option<Seq<TrafficInfoView>>,
    index: Option<usize>,
    clock: ClockTime,
) -> Result<Seq<Seq<char>>, DrawError> {
    match index {
        None => Ok(seq![clock_label(clock)]),
        Some(i) => match notes {
            None => Err(DrawError::IndexOutOfBoundsError),
            Some(ns) => if i < ns.len() {
                Ok(
                    seq![
                        clock_label(clock),
                        rotation_label(i as nat, ns.len()),
                        ns[i as int].title,
                        ns[i as int].description,
                    ],
                )
            } else {
                Err(DrawError::IndexOutOfBoundsError)
            },
        },
    }
}

/// The rows between header and footer: as many as fit the height, the
/// first departures in their order, then rows without cells.
pub open spec fn body_rows(departures: Seq<DepartureView>, height: nat) -> Seq<Seq<Seq<char>>> {
    Seq::new(
        data_rows(height),
        |i: int|
            if i < departures.len() {
                departure_cells(departures[i])
            } else {
                Seq::empty()
            },
    )
}

/// The board for the given departures, notes, rotation index, size and
/// clock reading.
pub open spec fn board_content(
    departures: Seq<DepartureView>,
    notes: Option<Seq<TrafficInfoView>>,
    index: Option<usize>,
    width: u16,
    height: u16,
    clock: ClockTime,
) -> Result<BoardView, DrawError> {
    match footer_cells(notes, index, clock) {
        Err(e) => Err(e),
        Ok(footer) => Ok(
            BoardView {
                width,
                header: header_cells(),
                rows: body_rows(departures, height as nat).push(footer),
            },
        ),
    }
}

/// The notes of a feed as the contracts see them.
pub open spec fn notes_view(notes: Option<Vec<WienerLinienTrafficInfo>>) -> Option<
    Seq<TrafficInfoView>,
> {
    match notes {
        Some(ns) => Some(ns.deep_view()),
        None => None,
    }
}

/// The number of departures that fit a terminal of the given height.
pub fn visible_rows(height: u16) -> (r: u16)
    ensures
        r == data_rows(height as nat),
{
    if height >= RESERVED_LINES {
        (height - RESERVED_LINES) / LINES_PER_ROW
    } else {
        0
    }
}

/// The first cell of a departure's row.
pub fn departure_time_label(departure: &Departure) -> (r: String)
    ensures
        r@ == time_label(departure@),
{
    let shown: Timestamp = match departure.time_real {
        Some(t) => t,
        None => departure.time_planned,
    };
    let mut r = String::new();
    push_two_digits(&mut r, shown.hour);
    push_char(&mut r, ':');
    push_two_digits(&mut r, shown.minute);
    push_char(&mut r, ' ');
    push_char(&mut r, '(');
    push_char(&mut r, '+');
    push_signed_decimal(&mut r, departure.countdown);
    push_char(&mut r, ')');
    assert(r@ =~= time_label(departure@));
    r
}

/// The cells of a departure's row.
pub fn departure_row(departure: &Departure) -> (r: Vec<String>)
    ensures
        r.deep_view() == departure_cells(departure@),
{
    let mut r: Vec<String> = Vec::new();
    r.push(departure_time_label(departure));
    r.push(departure.line.name.clone());
    r.push(departure.station_name.clone());
    r.push(departure.destination_name.clone());
    assert(r.deep_view() =~= departure_cells(departure@));
    r
}

/// The clock reading as `HH:MM:SS`.
pub fn clock_text(clock: ClockTime) -> (r: String)
    ensures
        r@ == clock_label(clock),
{
    let mut r = String::new();
    push_two_digits(&mut r, clock.hour);
    push_char(&mut r, ':');
    push_two_digits(&mut r, clock.minute);
    push_char(&mut r, ':');
    push_two_digits(&mut r, clock.second);
    assert(r@ =~= clock_label(clock));
    r
}

/// The position of the note shown among all notes, counted from 1.
pub fn rotation_text(index: usize, total: usize) -> (r: String)
    requires
        index < total,
    ensures
        r@ == rotation_label(index as nat, total as nat),
{
    let mut r = String::new();
    push_decimal(&mut r, (index + 1) as u64);
    push_char(&mut r, '/');
    push_decimal(&mut r, total as u64);
    assert(r@ =~= rotation_label(index as nat, total as nat));
    r
}

/// The cells of the footer, or the error where a rotation index is given
/// and no traffic note stands at it.
pub fn footer_row(
    trafficinfo: &Option<Vec<WienerLinienTrafficInfo>>,
    traffic_info_index: Option<usize>,
    clock: ClockTime,
) -> (r: Result<Vec<String>, DrawError>)
    ensures
        match r {
            Ok(cells) => footer_cells(notes_view(*trafficinfo), traffic_info_index, clock) == Ok::<
                Seq<Seq<char>>,
                DrawError,
            >(cells.deep_view()),
            Err(e) => footer_cells(notes_view(*trafficinfo), traffic_info_index, clock) == Err::<
                Seq<Seq<char>>,
                DrawError,
            >(e),
        },
{
    let mut cells: Vec<String> = Vec::new();
    cells.push(clock_text(clock));
    match traffic_info_index {
        None => {
            assert(cells.deep_view() =~= seq![clock_label(clock)]);
            Ok(cells)
        },
        Some(index) => match trafficinfo {
            None => Err(DrawError::IndexOutOfBoundsError),
            Some(notes) => {
                if index < notes.len() {
                    let note = &notes[index];
                    cells.push(rotation_text(index, notes.len()));
                    cells.push(note.title.clone());
                    cells.push(note.description.clone());
                    assert(cells.deep_view() =~= seq![
                        clock_label(clock),
                        rotation_label(index as nat, notes.deep_view().len()),
                        notes.deep_view()[index as int].title,
                        notes.deep_view()[index as int].description,
                    ]);
                    Ok(cells)
                } else {
                    Err(DrawError::IndexOutOfBoundsError)
                }
            },
        },
    }
}

/// The column titles.
pub fn header_row() -> (r: Vec<String>)
    ensures
        r.deep_view() == header_cells(),
{
    let mut r: Vec<String> = Vec::new();
    r.push(String::from_str("Departure"));
    r.push(String::from_str("Line"));
    r.push(String::from_str("Closest station"));
    r.push(String::from_str("Destination"));
    assert(r.deep_view() =~= header_cells());
    r
}

/// Whether a result is the board, or the error, that was to come out.
pub open spec fn is_board_for(r: Result<Board, DrawError>, expected: Result<BoardView, DrawError>) -> bool {
    match r {
        Ok(board) => expected == Ok::<BoardView, DrawError>(board@),
        Err(e) => expected == Err::<BoardView, DrawError>(e),
    }
}

/// The board for the given departures, notes, rotation index and size, with
/// `clock` in its footer. Departures beyond the rows that fit are left out.
pub fn get_departure_board_at(
    departures: &Vec<Departure>,
    trafficinfo: &Option<Vec<WienerLinienTrafficInfo>>,
    traffic_info_index: Option<usize>,
    width: u16,
    height: u16,
    clock: ClockTime,
) -> (r: Result<Board, DrawError>)
    ensures
        is_board_for(
            r,
            board_content(
                departures.deep_view(),
                notes_view(*trafficinfo),
                traffic_info_index,
                width,
                height,
                clock,
            ),
        ),
{
    let footer = match footer_row(trafficinfo, traffic_info_index, clock) {
        Ok(cells) => cells,
        Err(e) => {
            return Err(e);
        },
    };
    let count: usize = visible_rows(height) as usize;
    let mut rows: Vec<Vec<String>> = Vec::new();
    let mut i: usize = 0;
    while i < count
        invariant
            i <= count,
            count == data_rows(height as nat),
            rows@.len() == i,
            forall|k: int|
                0 <= k < i ==> #[trigger] rows@[k].deep_view() == body_rows(
                    departures.deep_view(),
                    height as nat,
                )[k],
        decreases count - i,
    {
        let row: Vec<String> = if i < departures.len() {
            departure_row(&departures[i])
        } else {
            Vec::new()
        };
        assert(row.deep_view() =~= body_rows(departures.deep_view(), height as nat)[i as int]);
        rows.push(row);
        i += 1;
    }
    assert(rows.deep_view() =~= body_rows(departures.deep_view(), height as nat));
    let ghost body = rows.deep_view();
    rows.push(footer);
    assert(rows.deep_view() =~= body.push(footer.deep_view()));
    Ok(Board { width, header: header_row(), rows })
}

/// Reads the wall clock in the local time zone.
///
/// Trusted: this is `chrono::Local::now` with the `hour`, `minute` and
/// `second` of `chrono::Timelike`, which chrono documents as 0 to 23 and
/// 0 to 59. Which time is read is not stated.
#[verifier::external_body]
fn local_clock() -> (clock: ClockTime)
    ensures
        clock.hour < 24,
        clock.minute < 60,
        clock.second < 60,
{
    let now = chrono::Local::now();
    ClockTime { hour: now.hour() as u8, minute: now.minute() as u8, second: now.second() as u8 }
}

/// Whether a footer can be made: without a rotation index always, with one
/// where a traffic note stands at it.
pub open spec fn rotation_in_bounds(notes: Option<Seq<TrafficInfoView>>, index: Option<usize>) -> bool {
    match index {
        None => true,
        Some(i) => match notes {
            None => false,
            Some(ns) => i < ns.len(),
        },
    }
}

/// The board for the given departures, notes, rotation index and size, with
/// the current local time in its footer.
pub fn get_departure_board(
    departures: &Vec<Departure>,
    trafficinfo: &Option<Vec<WienerLinienTrafficInfo>>,
    traffic_info_index: Option<usize>,
    width: u16,
    height: u16,
) -> (r: Result<Board, DrawError>)
    ensures
        r is Ok <==> rotation_in_bounds(notes_view(*trafficinfo), traffic_info_index),
        exists|clock: ClockTime|
            clock.hour < 24 && clock.minute < 60 && clock.second < 60 && is_board_for(
                r,
                #[trigger] board_content(
                    departures.deep_view(),
                    notes_view(*trafficinfo),
                    traffic_info_index,
                    width,
                    height,
                    clock,
                ),
            ),
{
    let clock = local_clock();
    get_departure_board_at(departures, trafficinfo, traffic_info_index, width, height, clock)
}

/// The text that the table layout makes of a header and rows of cells at
/// a given width: the lines of the drawn table, joined by line feeds.
pub uninterp spec fn table_layout(
    width: u16,
    header: Seq<Seq<char>>,
    rows: Seq<Seq<Seq<char>>>,
) -> Seq<char>;

/// Draws a table of the given width, header and rows as text.
///
/// Trusted: this is `comfy_table::Table` with the preset `UTF8_FULL`, the
/// modifier `UTF8_ROUND_CORNERS` and the arrangement `DynamicFullWidth`,
/// drawn by its `Display`. With the width set, what it draws depends on
/// the header and the rows alone; the contract names that text and says
/// nothing more of it.
#[verifier::external_body]
fn render_table(width: u16, header: &Vec<String>, rows: &Vec<Vec<String>>) -> (text: String)
    ensures
        text@ == table_layout(width, header.deep_view(), rows.deep_view()),
{
    let mut table = comfy_table::Table::new();
    table
        .load_preset(comfy_table::presets::UTF8_FULL)
        .apply_modifier(comfy_table::modifiers::UTF8_ROUND_CORNERS)
        .set_width(width)
        .set_content_arrangement(comfy_table::ContentArrangement::DynamicFullWidth)
        .set_header(header.clone());
    for row in rows {
        table.add_row(row.clone());
    }
    table.to_string()
}

/// The board drawn as text.
pub fn render_board(board: &Board) -> (text: String)
    ensures
        text@ == table_layout(board@.width, board@.header, board@.rows),
{
    render_table(board.width, &board.header, &board.rows)
}

/// The board drawn on a frame of its width and the given height.
pub fn board_frame(board: &Board, height: u16) -> (frame: Buffer)
    ensures
        frame@.width == board@.width,
        frame@.height == height,
        frame@.is_grid(),
        frame@.cells == layout(
            table_layout(board@.width, board@.header, board@.rows),
            board@.width as nat,
            height as nat,
        ),
{
    Buffer::from_text(board.width, height, render_board(board))
}

/// Whether a result is the frame, or the error, that was to come out for
/// a board.
pub open spec fn is_frame_for(
    r: Result<Buffer, DrawError>,
    expected: Result<BoardView, DrawError>,
    height: u16,
) -> bool {
    match r {
        Ok(frame) => {
            &&& expected matches Ok(board)
            &&& frame@.width == board.width
            &&& frame@.height == height
            &&& frame@.is_grid()
            &&& frame@.cells == layout(
                table_layout(board.width, board.header, board.rows),
                board.width as nat,
                height as nat,
            )
        },
        Err(e) => expected == Err::<BoardView, DrawError>(e),
    }
}

/// The frame of exactly the given size that shows the board for the given
/// departures, notes and rotation index, with `clock` in its footer.
pub fn format_frame_at(
    departures: &Vec<Departure>,
    trafficinfo: &Option<Vec<WienerLinienTrafficInfo>>,
    traffic_info_index: Option<usize>,
    width: u16,
    height: u16,
    clock: ClockTime,
) -> (r: Result<Buffer, DrawError>)
    ensures
        r is Ok <==> rotation_in_bounds(notes_view(*trafficinfo), traffic_info_index),
        is_frame_for(
            r,
            board_content(
                departures.deep_view(),
                notes_view(*trafficinfo),
                traffic_info_index,
                width,
                height,
                clock,
            ),
            height,
        ),
{
    match get_departure_board_at(departures, trafficinfo, traffic_info_index, width, height, clock) {
        Ok(board) => Ok(board_frame(&board, height)),
        Err(e) => Err(e),
    }
}

/// The frame of exactly the given size that shows the board for the given
/// departures, notes and rotation index, with the current local time in
/// its footer.
pub fn format_frame(
    departures: &Vec<Departure>,
    trafficinfo: &Option<Vec<WienerLinienTrafficInfo>>,
    traffic_info_index: Option<usize>,
    width: u16,
    height: u16,
) -> (r: Result<Buffer, DrawError>)
    ensures
        r is Ok <==> rotation_in_bounds(notes_view(*trafficinfo), traffic_info_index),
        r matches Ok(frame) ==> frame@.width == width && frame@.height == height
            && frame@.is_grid(),
        exists|clock: ClockTime|
            clock.hour < 24 && clock.minute < 60 && clock.second < 60 && is_frame_for(
                r,
                #[trigger] board_content(
                    departures.deep_view(),
                    notes_view(*trafficinfo),
                    traffic_info_index,
                    width,
                    height,
                    clock,
                ),
                height,
            ),
{
    let clock = local_clock();
    format_frame_at(departures, trafficinfo, traffic_info_index, width, height, clock)
}

} // verus!
