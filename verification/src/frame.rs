//! Frames: fixed-size character grids, and the minimal set of point writes
//! that turns one frame into the next.

use crate::text::{push_char, text_chars};
use vstd::arithmetic::div_mod::lemma_fundamental_div_mod_converse;
use vstd::prelude::*;

verus! {

/// One point write: column, row and the character to put there.
pub type CellUpdate = (u16, u16, char);

/// The mathematical content of a frame: its dimensions and its cells in
/// row-major order.
pub struct Frame {
    pub width: nat,
    pub height: nat,
    pub cells: Seq<char>,
}

impl Frame {
    /// A frame holds exactly one cell per grid position.
    pub open spec fn is_grid(self) -> bool {
        self.cells.len() == self.width * self.height
    }
}

/// The first `n` characters of `content`, one to a cell, with blanks where
/// `content` is shorter.
pub open spec fn filled(content: Seq<char>, n: nat) -> Seq<char> {
    Seq::new(
        n,
        |i: int|
            if i < content.len() {
                content[i]
            } else {
                ' '
            },
    )
}

/// The number of characters of `text` before its first line feed, or all
/// of them where it holds none.
pub open spec fn first_line_len(text: Seq<char>) -> nat
    decreases text.len(),
{
    if text.len() == 0 || text[0] == '\n' {
        0
    } else {
        1 + first_line_len(text.skip(1))
    }
}

/// Line `y` of `text`, counted from 0 and without its line feed; empty where
/// the text has fewer lines.
pub open spec fn line(text: Seq<char>, y: nat) -> Seq<char>
    decreases y,
{
    let n = first_line_len(text);
    if y == 0 {
        text.take(n as int)
    } else if n < text.len() {
        line(text.skip(n as int + 1), (y - 1) as nat)
    } else {
        Seq::empty()
    }
}

/// The character that `text` puts in column `x` of row `y`: a blank where
/// the line is shorter or missing.
pub open spec fn grid_char(text: Seq<char>, x: nat, y: nat) -> char {
    let l = line(text, y);
    if x < l.len() {
        l[x as int]
    } else {
        ' '
    }
}

/// `text` laid out on a grid of `width` columns and `height` rows: each line
/// clipped or padded with blanks to the width, the lines clipped or padded
/// with blank rows to the height.
pub open spec fn layout(text: Seq<char>, width: nat, height: nat) -> Seq<char> {
    Seq::new(
        width * height,
        |i: int| grid_char(text, (i % width as int) as nat, (i / width as int) as nat),
    )
}

proof fn lemma_first_line_len(text: Seq<char>, n: nat)
    requires
        n <= text.len(),
        forall|j: int| 0 <= j < n ==> text[j] != '\n',
        n == text.len() || text[n as int] == '\n',
    ensures
        first_line_len(text) == n,
    decreases n,
{
    if n > 0 {
        lemma_first_line_len(text.skip(1), (n - 1) as nat);
    }
}

/// The point writes that distinguish the first `n` cells of `cur` from those
/// of `prev`, in row-major order.
pub open spec fn diff_cells(prev: Seq<char>, cur: Seq<char>, width: nat, n: nat) -> Seq<CellUpdate>
    decreases n,
{
    if n == 0 {
        Seq::empty()
    } else {
        let i = (n - 1) as nat;
        let rest = diff_cells(prev, cur, width, i);
        if prev[i as int] != cur[i as int] {
            rest.push(((i % width) as u16, (i / width) as u16, cur[i as int]))
        } else {
            rest
        }
    }
}

/// The cells after one point write. A write outside the grid changes nothing.
pub open spec fn apply_update(cells: Seq<char>, width: nat, u: CellUpdate) -> Seq<char> {
    let i = u.1 as int * width + u.0 as int;
    if u.0 < width && i < cells.len() {
        cells.update(i, u.2)
    } else {
        cells
    }
}

/// The cells after a sequence of point writes, applied first to last.
pub open spec fn apply_updates(cells: Seq<char>, width: nat, us: Seq<CellUpdate>) -> Seq<char>
    decreases us.len(),
{
    if us.len() == 0 {
        cells
    } else {
        apply_update(apply_updates(cells, width, us.drop_last()), width, us.last())
    }
}

/// The point writes that turn the frame `prev` into the frame `cur`.
pub open spec fn frame_diff(prev: Frame, cur: Frame) -> Seq<CellUpdate> {
    diff_cells(prev.cells, cur.cells, cur.width, cur.cells.len())
}

/// The cell that a point write addresses, as an index in row-major order.
pub open spec fn update_index(width: nat, u: CellUpdate) -> int {
    u.1 as int * width + u.0 as int
}

/// Two frames of the same size whose dimensions fit a terminal's.
pub open spec fn same_grid(prev: Frame, cur: Frame) -> bool {
    &&& prev.is_grid()
    &&& cur.is_grid()
    &&& prev.width == cur.width
    &&& prev.height == cur.height
    &&& cur.width <= u16::MAX
    &&& cur.height <= u16::MAX
}

proof fn lemma_position(i: nat, width: nat, height: nat)
    requires
        i < width * height,
        width <= u16::MAX,
        height <= u16::MAX,
    ensures
        width > 0,
        0 <= i % width < width,
        0 <= i / width < height,
        (i / width) * width + i % width == i,
        ((i % width) as u16) as int == i % width,
        ((i / width) as u16) as int == i / width,
{
    assert(width > 0) by (nonlinear_arith)
        requires
            i < width * height,
    ;
    assert(0 <= i / width < height) by (nonlinear_arith)
        requires
            i < width * height,
            width > 0,
    ;
    assert((i / width) * width + i % width == i) by (nonlinear_arith)
        requires
            width > 0,
    ;
}

proof fn lemma_diff_prefix(prev: Frame, cur: Frame, n: nat)
    requires
        same_grid(prev, cur),
        n <= cur.cells.len(),
    ensures
        apply_updates(prev.cells, cur.width, diff_cells(prev.cells, cur.cells, cur.width, n))
            =~= cur.cells.take(n as int) + prev.cells.skip(n as int),
        diff_cells(prev.cells, cur.cells, cur.width, n).len() <= n,
        forall|k: int|
            #![trigger diff_cells(prev.cells, cur.cells, cur.width, n)[k]]
            0 <= k < diff_cells(prev.cells, cur.cells, cur.width, n).len() ==> {
                let u = diff_cells(prev.cells, cur.cells, cur.width, n)[k];
                let i = update_index(cur.width, u);
                &&& u.0 < cur.width
                &&& u.1 < cur.height
                &&& k <= i < n
                &&& prev.cells[i] != cur.cells[i]
                &&& u.2 == cur.cells[i]
            },
        forall|j: int, k: int|
            #![trigger diff_cells(prev.cells, cur.cells, cur.width, n)[j], diff_cells(prev.cells, cur.cells, cur.width, n)[k]]
            0 <= j < k < diff_cells(prev.cells, cur.cells, cur.width, n).len() ==> update_index(
                cur.width,
                diff_cells(prev.cells, cur.cells, cur.width, n)[j],
            ) < update_index(cur.width, diff_cells(prev.cells, cur.cells, cur.width, n)[k]),
        forall|i: int|
            #![trigger prev.cells[i]]
            0 <= i < n && prev.cells[i] != cur.cells[i] ==> exists|k: int|
                0 <= k < diff_cells(prev.cells, cur.cells, cur.width, n).len() && update_index(
                    cur.width,
                    #[trigger] diff_cells(prev.cells, cur.cells, cur.width, n)[k],
                ) == i,
    decreases n,
{
    let w = cur.width;
    let d = diff_cells(prev.cells, cur.cells, w, n);
    if n > 0 {
        let m = (n - 1) as nat;
        let rest = diff_cells(prev.cells, cur.cells, w, m);
        lemma_diff_prefix(prev, cur, m);
        lemma_position(m, w, cur.height);
        let before = cur.cells.take(m as int) + prev.cells.skip(m as int);
        if prev.cells[m as int] != cur.cells[m as int] {
            let u = d.last();
            assert(d.drop_last() =~= rest);
            assert(update_index(w, u) == m);
            assert(apply_updates(prev.cells, w, d) == apply_update(before, w, u));
            assert forall|i: int|
                #![trigger prev.cells[i]]
                0 <= i < n && prev.cells[i] != cur.cells[i] implies exists|k: int|
                0 <= k < d.len() && update_index(w, #[trigger] d[k]) == i by {
                if i < m {
                    let k = choose|k: int|
                        0 <= k < rest.len() && update_index(w, #[trigger] rest[k]) == i;
                    assert(d[k] == rest[k]);
                } else {
                    assert(d[d.len() - 1] == u);
                }
            }
        } else {
            assert(before =~= cur.cells.take(n as int) + prev.cells.skip(n as int));
        }
    }
}

/// Applying the diff of two equally sized frames to the earlier one, write
/// by write, gives exactly the later one.
pub proof fn lemma_diff_reproduces_current(prev: Frame, cur: Frame)
    requires
        same_grid(prev, cur),
    ensures
        apply_updates(prev.cells, cur.width, frame_diff(prev, cur)) == cur.cells,
{
    lemma_diff_prefix(prev, cur, cur.cells.len());
    assert(cur.cells.take(cur.cells.len() as int) + prev.cells.skip(cur.cells.len() as int)
        =~= cur.cells);
}

/// The diff holds a write for a cell only where the two frames differ
/// there, never two writes for one cell, and the character it writes is the
/// later frame's.
pub proof fn lemma_diff_is_minimal(prev: Frame, cur: Frame)
    requires
        same_grid(prev, cur),
    ensures
        forall|k: int|
            0 <= k < frame_diff(prev, cur).len() ==> {
                let u = #[trigger] frame_diff(prev, cur)[k];
                let i = update_index(cur.width, u);
                &&& u.0 < cur.width
                &&& u.1 < cur.height
                &&& 0 <= i < cur.cells.len()
                &&& prev.cells[i] != cur.cells[i]
                &&& u.2 == cur.cells[i]
            },
        forall|j: int, k: int|
            0 <= j < k < frame_diff(prev, cur).len() ==> update_index(
                cur.width,
                #[trigger] frame_diff(prev, cur)[j],
            ) < update_index(cur.width, #[trigger] frame_diff(prev, cur)[k]),
{
    lemma_diff_prefix(prev, cur, cur.cells.len());
}

/// Every cell in which the two frames differ has its write in the diff.
pub proof fn lemma_diff_is_complete(prev: Frame, cur: Frame, i: int)
    requires
        same_grid(prev, cur),
        0 <= i < cur.cells.len(),
        prev.cells[i] != cur.cells[i],
    ensures
        exists|k: int|
            0 <= k < frame_diff(prev, cur).len() && update_index(
                cur.width,
                #[trigger] frame_diff(prev, cur)[k],
            ) == i,
{
    lemma_diff_prefix(prev, cur, cur.cells.len());
    let d = frame_diff(prev, cur);
    let k = choose|k: int| 0 <= k < d.len() && update_index(cur.width, #[trigger] d[k]) == i;
    assert(update_index(cur.width, frame_diff(prev, cur)[k]) == i);
}

proof fn lemma_writes_of_current(prev: Frame, cur: Frame, ws: Seq<CellUpdate>)
    requires
        same_grid(prev, cur),
        forall|k: int|
            0 <= k < ws.len() ==> {
                let u = #[trigger] ws[k];
                let i = update_index(cur.width, u);
                u.0 < cur.width && 0 <= i < cur.cells.len() && u.2 == cur.cells[i]
            },
    ensures
        apply_updates(prev.cells, cur.width, ws).len() == prev.cells.len(),
        forall|i: int|
            0 <= i < prev.cells.len() ==> #[trigger] apply_updates(prev.cells, cur.width, ws)[i] == (
            if exists|k: int| 0 <= k < ws.len() && update_index(cur.width, #[trigger] ws[k]) == i {
                cur.cells[i]
            } else {
                prev.cells[i]
            }),
    decreases ws.len(),
{
    if ws.len() > 0 {
        let head = ws.drop_last();
        let u = ws.last();
        lemma_writes_of_current(prev, cur, head);
        let before = apply_updates(prev.cells, cur.width, head);
        let after = apply_updates(prev.cells, cur.width, ws);
        assert(ws[ws.len() - 1] == u);
        assert forall|i: int| 0 <= i < prev.cells.len() implies #[trigger] after[i] == (if exists|k: int|
            0 <= k < ws.len() && update_index(cur.width, #[trigger] ws[k]) == i {
            cur.cells[i]
        } else {
            prev.cells[i]
        }) by {
            if update_index(cur.width, u) == i {
            } else if exists|k: int|
                0 <= k < head.len() && update_index(cur.width, #[trigger] head[k]) == i {
                let k = choose|k: int|
                    0 <= k < head.len() && update_index(cur.width, #[trigger] head[k]) == i;
                assert(ws[k] == head[k]);
            } else {
                assert forall|k: int| 0 <= k < ws.len() implies update_index(
                    cur.width,
                    #[trigger] ws[k],
                ) != i by {
                    if k < head.len() {
                        assert(head[k] == ws[k]);
                    }
                }
            }
        }
    }
}

/// The writes of a diff may be applied in any order, and more than once:
/// any sequence that holds the same writes as the diff of two equally sized
/// frames turns the earlier frame into the later one.
pub proof fn lemma_diff_order_is_irrelevant(prev: Frame, cur: Frame, ws: Seq<CellUpdate>)
    requires
        same_grid(prev, cur),
        forall|u: CellUpdate| ws.contains(u) <==> frame_diff(prev, cur).contains(u),
    ensures
        apply_updates(prev.cells, cur.width, ws) == cur.cells,
{
    let d = frame_diff(prev, cur);
    lemma_diff_is_minimal(prev, cur);
    assert forall|k: int| 0 <= k < ws.len() implies {
        let u = #[trigger] ws[k];
        let i = update_index(cur.width, u);
        u.0 < cur.width && 0 <= i < cur.cells.len() && u.2 == cur.cells[i]
    } by {
        assert(ws.contains(ws[k]));
        assert(d.contains(ws[k]));
        let j = choose|j: int| 0 <= j < d.len() && d[j] == ws[k];
        assert(d[j] == ws[k]);
    }
    lemma_writes_of_current(prev, cur, ws);
    let after = apply_updates(prev.cells, cur.width, ws);
    assert forall|i: int| 0 <= i < cur.cells.len() implies after[i] == cur.cells[i] by {
        if prev.cells[i] != cur.cells[i] {
            lemma_diff_is_complete(prev, cur, i);
            let j = choose|j: int|
                0 <= j < d.len() && update_index(cur.width, #[trigger] d[j]) == i;
            assert(d.contains(d[j]));
            assert(ws.contains(d[j]));
            let k = choose|k: int| 0 <= k < ws.len() && ws[k] == d[j];
            assert(update_index(cur.width, ws[k]) == i);
        }
    }
    assert(after =~= cur.cells);
}

proof fn lemma_cell_in_grid(x: nat, y: nat, width: nat, height: nat)
    requires
        x < width,
        y < height,
        width <= u16::MAX,
        height <= u16::MAX,
    ensures
        y * width + x < width * height,
        y * width + x <= usize::MAX,
        y * width <= usize::MAX,
{
    assert(y * width + x < width * height) by (nonlinear_arith)
        requires
            x < width,
            y < height,
    ;
    assert(width * height <= 0xffff * 0xffff) by (nonlinear_arith)
        requires
            width <= 0xffff,
            height <= 0xffff,
    ;
    assert(y * width >= 0) by (nonlinear_arith);
}

/// How a frame is brought to the screen.
#[derive(Debug)]
pub enum Redraw {
    /// Clear the screen and write every row.
    Full,
    /// Write these cells and leave the rest.
    Updates(Vec<CellUpdate>),
}

/// A rendered terminal screen: `width * height` characters in row-major order.
#[derive(Debug)]
pub struct Buffer {
    width: u16,
    height: u16,
    cells: Vec<char>,
}

impl View for Buffer {
    type V = Frame;

    closed spec fn view(&self) -> Frame {
        Frame { width: self.width as nat, height: self.height as nat, cells: self.cells@ }
    }
}

impl Buffer {
    #[verifier::type_invariant]
    spec fn inv(self) -> bool {
        self.cells@.len() == self.width as nat * self.height as nat
    }

    /// The frame of the given size whose cells are the characters of
    /// `content` in row-major order: character `i` in cell `i`, what is
    /// beyond the last cell cut off, what is missing filled with blanks.
    pub fn new(width: u16, height: u16, content: String) -> (buffer: Buffer)
        ensures
            buffer@.width == width,
            buffer@.height == height,
            buffer@.is_grid(),
            buffer@.cells == filled(content@, width as nat * height as nat),
            content@.len() == width as nat * height as nat ==> buffer@.cells == content@,
    {
        let chars: Vec<char> = text_chars(content.as_str());
        assert(width as nat * height as nat <= 0xffff * 0xffff) by (nonlinear_arith)
            requires
                width <= 0xffff,
                height <= 0xffff,
        ;
        let total: usize = width as usize * height as usize;
        let mut cells: Vec<char> = Vec::new();
        let mut i: usize = 0;
        while i < total
            invariant
                i <= total,
                chars@ == content@,
                cells@.len() == i,
                forall|k: int|
                    0 <= k < i ==> #[trigger] cells@[k] == filled(content@, total as nat)[k],
            decreases total - i,
        {
            let c: char = if i < chars.len() {
                chars[i]
            } else {
                ' '
            };
            cells.push(c);
            i += 1;
        }
        assert(cells@ =~= filled(content@, total as nat));
        assert(content@.len() == total ==> filled(content@, total as nat) =~= content@);
        Buffer { width, height, cells }
    }

    /// The frame of the given size that shows `text`: line `y` of the text
    /// in row `y`, from column 0 on, blanks elsewhere.
    pub fn from_text(width: u16, height: u16, text: String) -> (buffer: Buffer)
        ensures
            buffer@.width == width,
            buffer@.height == height,
            buffer@.is_grid(),
            buffer@.cells == layout(text@, width as nat, height as nat),
    {
        let chars: Vec<char> = text_chars(text.as_str());
        let ghost text = text@;
        let n: usize = chars.len();
        let mut cells: Vec<char> = Vec::new();
        let mut pos: usize = 0;
        let mut exhausted: bool = false;
        let mut y: u16 = 0;
        assert(text.skip(0) =~= text);
        while y < height
            invariant
                y <= height,
                chars@ == text,
                n == text.len(),
                pos <= n,
                cells@.len() == y as nat * width as nat,
                forall|i: int|
                    0 <= i < cells@.len() ==> #[trigger] cells@[i] == grid_char(
                        text,
                        (i % width as int) as nat,
                        (i / width as int) as nat,
                    ),
                !exhausted ==> forall|j: nat|
                    j >= y ==> #[trigger] line(text, j) == line(text.skip(pos as int), (j - y) as nat),
                exhausted ==> forall|j: nat| j >= y ==> #[trigger] line(text, j) == Seq::<char>::empty(),
            decreases height - y,
        {
            let ghost rest = text.skip(pos as int);
            let mut end: usize = pos;
            if !exhausted {
                while end < n && chars[end] != '\n'
                    invariant
                        pos <= end <= n,
                        chars@ == text,
                        n == text.len(),
                        forall|j: int| pos <= j < end ==> text[j] != '\n',
                    decreases n - end,
                {
                    end += 1;
                }
                proof {
                    lemma_first_line_len(rest, (end - pos) as nat);
                }
            }
            let ghost row = line(text, y as nat);
            assert(row == if exhausted {
                Seq::<char>::empty()
            } else {
                rest.take(end - pos)
            });
            let len: usize = end - pos;
            let mut x: u16 = 0;
            while x < width
                invariant
                    x <= width,
                    y < height,
                    chars@ == text,
                    n == text.len(),
                    pos + len <= n,
                    row == line(text, y as nat),
                    row.len() == (if exhausted { 0 } else { len as int }),
                    forall|j: int| 0 <= j < row.len() ==> row[j] == text[pos + j],
                    cells@.len() == y as nat * width as nat + x as nat,
                    forall|i: int|
                        0 <= i < cells@.len() ==> #[trigger] cells@[i] == grid_char(
                            text,
                            (i % width as int) as nat,
                            (i / width as int) as nat,
                        ),
                decreases width - x,
            {
                let c: char = if !exhausted && (x as usize) < len {
                    chars[pos + x as usize]
                } else {
                    ' '
                };
                proof {
                    let i = cells@.len() as int;
                    lemma_fundamental_div_mod_converse(i, width as int, y as int, x as int);
                    assert(c == grid_char(text, x as nat, y as nat));
                }
                cells.push(c);
                x += 1;
            }
            assert(cells@.len() == (y + 1) as nat * width as nat) by (nonlinear_arith)
                requires
                    cells@.len() == y as nat * width as nat + width as nat,
            ;
            if !exhausted {
                if end < n {
                    assert forall|j: nat| j >= y + 1 implies #[trigger] line(text, j) == line(
                        text.skip(end + 1),
                        (j - (y + 1)) as nat,
                    ) by {
                        assert(line(text, j) == line(rest, (j - y) as nat));
                        assert(rest.skip((end - pos) + 1) =~= text.skip(end + 1));
                    }
                    pos = end + 1;
                } else {
                    assert forall|j: nat| j >= y + 1 implies #[trigger] line(text, j) == Seq::<
                        char,
                    >::empty() by {
                        assert(line(text, j) == line(rest, (j - y) as nat));
                    }
                    exhausted = true;
                }
            }
            y += 1;
        }
        assert(height as nat * width as nat == width as nat * height as nat) by (nonlinear_arith);
        assert(cells@ =~= layout(text, width as nat, height as nat));
        Buffer { width, height, cells }
    }

    /// The number of columns.
    pub fn width(&self) -> (w: u16)
        ensures
            w == self@.width,
    {
        self.width
    }

    /// The number of rows.
    pub fn height(&self) -> (h: u16)
        ensures
            h == self@.height,
    {
        self.height
    }

    /// The character in column `x` of row `y`.
    pub fn cell(&self, x: u16, y: u16) -> (c: char)
        requires
            x < self@.width,
            y < self@.height,
        ensures
            self@.is_grid(),
            c == self@.cells[y as int * self@.width + x as int],
    {
        proof {
            use_type_invariant(self);
            lemma_cell_in_grid(x as nat, y as nat, self.width as nat, self.height as nat);
        }
        self.cells[y as usize * self.width as usize + x as usize]
    }

    /// The characters of row `y`, from left to right.
    pub fn row(&self, y: u16) -> (text: String)
        requires
            y < self@.height,
        ensures
            self@.is_grid(),
            text@ == self@.cells.subrange(
                y as int * self@.width,
                y as int * self@.width + self@.width,
            ),
    {
        proof {
            use_type_invariant(self);
        }
        let mut text = String::new();
        let mut x: u16 = 0;
        proof {
            let (w, h) = (self.width as int, self.height as int);
            assert(0 <= y * w && y * w + w <= w * h) by (nonlinear_arith)
                requires
                    0 <= y < h,
                    0 <= w,
            ;
            assert(text@ =~= self.cells@.subrange(y * w, y * w + 0));
        }
        while x < self.width
            invariant
                x <= self.width,
                y < self.height,
                self.cells@.len() == self.width as nat * self.height as nat,
                0 <= y as int * self.width as int,
                y as int * self.width as int + self.width as int <= self.cells@.len(),
                text@ == self.cells@.subrange(
                    y as int * self.width as int,
                    y as int * self.width as int + x as int,
                ),
            decreases self.width - x,
        {
            proof {
                lemma_cell_in_grid(x as nat, y as nat, self.width as nat, self.height as nat);
            }
            let c: char = self.cells[y as usize * self.width as usize + x as usize];
            push_char(&mut text, c);
            assert(text@ =~= self.cells@.subrange(
                y as int * self.width as int,
                y as int * self.width as int + x as int + 1,
            ));
            x += 1;
        }
        text
    }

    /// How to bring the screen from `previous` to this frame: anew where
    /// the size changed, else by the point writes of the diff.
    pub fn plan_redraw(&self, previous: &Buffer) -> (plan: Redraw)
        ensures
            match plan {
                Redraw::Full => self@.width != previous@.width || self@.height
                    != previous@.height,
                Redraw::Updates(updates) => {
                    &&& same_grid(previous@, self@)
                    &&& updates@ == frame_diff(previous@, self@)
                    &&& apply_updates(previous@.cells, self@.width, updates@) == self@.cells
                },
            },
    {
        if self.has_resized(previous) {
            Redraw::Full
        } else {
            Redraw::Updates(self.get_diff(previous))
        }
    }

    /// Whether the two frames differ in width or in height.
    pub fn has_resized(&self, other: &Buffer) -> (r: bool)
        ensures
            r == (self@.width != other@.width || self@.height != other@.height),
    {
        self.width != other.width || self.height != other.height
    }

    /// The point writes that turn `other`, the frame shown before, into
    /// `self`, in row-major order: one for each cell that differs.
    pub fn get_diff(&self, other: &Buffer) -> (updates: Vec<CellUpdate>)
        requires
            self@.width == other@.width,
            self@.height == other@.height,
        ensures
            same_grid(other@, self@),
            updates@ == frame_diff(other@, self@),
            apply_updates(other@.cells, self@.width, updates@) == self@.cells,
            forall|k: int|
                0 <= k < updates@.len() ==> {
                    let u = #[trigger] updates@[k];
                    let i = update_index(self@.width, u);
                    &&& u.0 < self@.width
                    &&& u.1 < self@.height
                    &&& other@.cells[i] != self@.cells[i]
                    &&& u.2 == self@.cells[i]
                },
    {
        proof {
            use_type_invariant(self);
            use_type_invariant(other);
        }
        let mut updates: Vec<CellUpdate> = Vec::new();
        let n: usize = self.cells.len();
        let mut i: usize = 0;
        while i < n
            invariant
                i <= n,
                n == self.cells@.len(),
                n == other.cells@.len(),
                n == self.width as nat * self.height as nat,
                updates@ == diff_cells(other.cells@, self.cells@, self.width as nat, i as nat),
            decreases n - i,
        {
            let current: char = self.cells[i];
            let previous: char = other.cells[i];
            if current != previous {
                let w: usize = self.width as usize;
                assert(w > 0 && i / w < self.height) by (nonlinear_arith)
                    requires
                        i < w * self.height,
                        w == self.width,
                ;
                let x: u16 = (i % w) as u16;
                let y: u16 = (i / w) as u16;
                updates.push((x, y, current));
            }
            i += 1;
        }
        proof {
            lemma_diff_reproduces_current(other@, self@);
            lemma_diff_is_minimal(other@, self@);
        }
        updates
    }
}

} // verus!
