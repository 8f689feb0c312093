//! The diff renderer.
//!
//! The renderer keeps two equally sized cell buffers indexed by
//! `row * width + column`: the frame being composed and the frame last
//! shown. A frame starts with the cursor-home sequence, is composed by
//! drawing the visible pane's grid (clipped to the screen), and ends by
//! emitting, for each row, one cursor-position sequence plus the text of
//! every maximal run of changed cells; unchanged cells emit nothing. The
//! emitted characters accumulate in an output buffer that the surrounding
//! process writes to the terminal and flushes once per frame.

use vstd::prelude::*;

use crate::pane::Pane;
use crate::window::Window;

verus! {

/// The decimal digit character for `d`.
pub open spec fn dec_digit(d: int) -> char
    recommends
        0 <= d <= 9,
{
    ((48 + d) as u8) as char
}

/// The decimal numeral for `n`, most significant digit first.
pub open spec fn dec_chars(n: int) -> Seq<char>
    recommends
        n >= 0,
    decreases n,
{
    if n < 10 {
        seq![dec_digit(n)]
    } else {
        dec_chars(n / 10).push(dec_digit(n % 10))
    }
}

/// The cursor-home escape sequence.
pub open spec fn home_seq() -> Seq<char> {
    seq!['\x1b', '[', 'H']
}

/// The cursor-position escape sequence for 0-based column `x` and row `y`;
/// the wire format is 1-indexed, row first.
pub open spec fn cursor_move_seq(x: int, y: int) -> Seq<char> {
    seq!['\x1b', '['] + dec_chars(y + 1) + seq![';'] + dec_chars(x + 1) + seq!['H']
}

/// The buffer index of the cell at 0-based column `x`, row `y`.
pub open spec fn cell_index(w: int, x: int, y: int) -> int {
    y * w + x
}

/// A cell index is in bounds and decomposes back into its coordinates.
pub proof fn lemma_cell_index(w: int, h: int, x: int, y: int)
    by (nonlinear_arith)
    requires
        0 <= x < w,
        0 <= y < h,
    ensures
        0 <= cell_index(w, x, y) < w * h,
        cell_index(w, x, y) / w == y,
        cell_index(w, x, y) % w == x,
{
}

/// Any in-bounds cell index yields in-range coordinates.
pub proof fn lemma_cell_coords(w: int, h: int, k: int)
    by (nonlinear_arith)
    requires
        w > 0,
        0 <= k < w * h,
    ensures
        0 <= k / w < h,
        0 <= k % w < w,
        k == cell_index(w, k % w, k / w),
{
}

/// The first column at or after `x` in row `y` where the two buffers agree
/// again (or the screen width if they never do): the end of the run of
/// changed cells that starts at `x`.
pub open spec fn run_end(prev: Seq<char>, cur: Seq<char>, w: int, y: int, x: int) -> int
    decreases w - x,
{
    if x >= w {
        w
    } else if cur[cell_index(w, x, y)] == prev[cell_index(w, x, y)] {
        x
    } else {
        run_end(prev, cur, w, y, x + 1)
    }
}

/// The run end lies between its start and the screen width.
pub proof fn lemma_run_end_bounds(prev: Seq<char>, cur: Seq<char>, w: int, y: int, x: int)
    requires
        x <= w,
    ensures
        x <= run_end(prev, cur, w, y, x) <= w,
    decreases w - x,
{
    if x < w && cur[cell_index(w, x, y)] != prev[cell_index(w, x, y)] {
        lemma_run_end_bounds(prev, cur, w, y, x + 1);
    }
}

/// What scanning row `y` from column `x` emits: for each maximal run of
/// changed cells, one cursor move to the run's start followed by the run's
/// current text; nothing for unchanged cells.
pub open spec fn row_diff(prev: Seq<char>, cur: Seq<char>, w: int, y: int, x: int) -> Seq<char>
    decreases w - x,
{
    if x >= w {
        Seq::empty()
    } else if cur[cell_index(w, x, y)] == prev[cell_index(w, x, y)] {
        row_diff(prev, cur, w, y, x + 1)
    } else {
        let e = run_end(prev, cur, w, y, x);
        proof {
            lemma_run_end_bounds(prev, cur, w, y, x + 1);
        }
        cursor_move_seq(x, y) + cur.subrange(cell_index(w, x, y), cell_index(w, e, y))
            + row_diff(prev, cur, w, y, e)
    }
}

/// What the rows from `y` down emit, in row order.
pub open spec fn frame_diff_rows(prev: Seq<char>, cur: Seq<char>, w: int, h: int, y: int) -> Seq<
    char,
>
    decreases h - y,
{
    if y >= h {
        Seq::empty()
    } else {
        row_diff(prev, cur, w, y, 0) + frame_diff_rows(prev, cur, w, h, y + 1)
    }
}

/// Everything one frame's comparison pass emits: the concatenation of each
/// row's runs of changed cells, rows in order, each run as one cursor move
/// plus its text.
pub open spec fn frame_diff(prev: Seq<char>, cur: Seq<char>, w: int, h: int) -> Seq<char> {
    frame_diff_rows(prev, cur, w, h, 0)
}

/// An unchanged row emits nothing.
proof fn lemma_row_diff_same(buf: Seq<char>, w: int, y: int, x: int)
    ensures
        row_diff(buf, buf, w, y, x) == Seq::<char>::empty(),
    decreases w - x,
{
    if x < w {
        lemma_row_diff_same(buf, w, y, x + 1);
    }
}

proof fn lemma_frame_diff_rows_same(buf: Seq<char>, w: int, h: int, y: int)
    ensures
        frame_diff_rows(buf, buf, w, h, y) == Seq::<char>::empty(),
    decreases h - y,
{
    if y < h {
        lemma_row_diff_same(buf, w, y, 0);
        lemma_frame_diff_rows_same(buf, w, h, y + 1);
    }
}

/// Diff minimality: when the frame being shown equals the frame last
/// shown, the comparison pass emits nothing at all, so a repaint of
/// unchanged content costs only the cursor-home sequence of the frame
/// start.
pub proof fn lemma_frame_diff_no_change(buf: Seq<char>, w: int, h: int)
    ensures
        frame_diff(buf, buf, w, h) == Seq::<char>::empty(),
{
    lemma_frame_diff_rows_same(buf, w, h, 0);
}

/// `buf` overwritten with the grid `lines`, clipped to the screen: inside
/// the screen, a cell covered by the grid shows the grid's character and
/// every other cell keeps what `buf` held (lines at or beyond the screen
/// height and columns at or beyond the screen width are never consulted).
pub open spec fn overlay(buf: Seq<char>, lines: Seq<Seq<char>>, w: int) -> Seq<char> {
    Seq::new(
        buf.len(),
        |k: int|
            {
                let y = k / w;
                let x = k % w;
                if y < lines.len() && x < lines[y].len() {
                    lines[y][x]
                } else {
                    buf[k]
                }
            },
    )
}

/// A buffer of `n` blank cells.
pub open spec fn blank_cells(n: int) -> Seq<char> {
    Seq::new(n as nat, |k: int| ' ')
}

/// Appends the decimal numeral of `n` to `out`.
fn push_decimal(out: &mut Vec<char>, n: usize)
    ensures
        final(out)@ == old(out)@ + dec_chars(n as int),
    decreases n,
{
    if n >= 10 {
        push_decimal(out, n / 10);
    }
    let d: u8 = (n % 10) as u8 + 48;
    out.push(d as char);
    proof {
        assert(d as char == dec_digit(n as int % 10));
        if n < 10 {
            assert(n as int % 10 == n as int);
            assert(out@ =~= old(out)@ + dec_chars(n as int));
        } else {
            assert(out@ =~= old(out)@ + dec_chars(n as int));
        }
    }
}

/// Appends every character of `src` to `out`.
fn push_all(out: &mut Vec<char>, src: &Vec<char>)
    ensures
        final(out)@ == old(out)@ + src@,
{
    let mut k: usize = 0;
    while k < src.len()
        invariant
            0 <= k <= src@.len(),
            out@ == old(out)@ + src@.subrange(0, k as int),
        decreases src@.len() - k,
    {
        out.push(src[k]);
        k = k + 1;
        proof {
            assert(out@ =~= old(out)@ + src@.subrange(0, k as int));
        }
    }
    proof {
        assert(src@.subrange(0, src@.len() as int) =~= src@);
    }
}

/// A vector of `n` blank cells.
fn blank_buffer(n: usize) -> (r: Vec<char>)
    ensures
        r@ == blank_cells(n as int),
{
    let mut r: Vec<char> = Vec::new();
    let mut k: usize = 0;
    while k < n
        invariant
            0 <= k <= n,
            r@ == blank_cells(k as int),
        decreases n - k,
    {
        r.push(' ');
        k = k + 1;
        proof {
            assert(r@ =~= blank_cells(k as int));
        }
    }
    r
}

/// Turns a pane's grid into terminal output by diffing cell buffers.
pub struct Renderer {
    screen_width: usize,
    screen_height: usize,
    render_buffer: Vec<char>,
    previous_render_buffer: Vec<char>,
    output: Vec<char>,
}

impl Renderer {
    /// The screen width measured at startup.
    pub closed spec fn width_spec(&self) -> int {
        self.screen_width as int
    }

    /// The screen height measured at startup.
    pub closed spec fn height_spec(&self) -> int {
        self.screen_height as int
    }

    /// The cells of the frame being composed.
    pub closed spec fn cells(&self) -> Seq<char> {
        self.render_buffer@
    }

    /// The cells of the frame last shown.
    pub closed spec fn shown(&self) -> Seq<char> {
        self.previous_render_buffer@
    }

    /// The emitted characters not yet handed to the terminal.
    pub closed spec fn out(&self) -> Seq<char> {
        self.output@
    }

    /// Both cell buffers cover the screen exactly.
    pub closed spec fn wf(&self) -> bool {
        &&& self.cells().len() == self.width_spec() * self.height_spec()
        &&& self.shown().len() == self.width_spec() * self.height_spec()
    }

    /// Sizes both cell buffers to the measured screen, all blank, with no
    /// pending output.
    pub fn new(screen_width: usize, screen_height: usize) -> (r: Self)
        requires
            screen_width * screen_height <= usize::MAX,
        ensures
            r.wf(),
            r.width_spec() == screen_width,
            r.height_spec() == screen_height,
            r.cells() == blank_cells(screen_width as int * screen_height as int),
            r.shown() == blank_cells(screen_width as int * screen_height as int),
            r.out() == Seq::<char>::empty(),
    {
        let buffer_size = screen_width * screen_height;
        Self {
            screen_width,
            screen_height,
            render_buffer: blank_buffer(buffer_size),
            previous_render_buffer: blank_buffer(buffer_size),
            output: Vec::new(),
        }
    }

    /// Emits the cursor-home sequence, remembers the frame just composed
    /// as the one now shown, and clears the composition buffer.
    pub fn begin_frame(&mut self)
        requires
            old(self).wf(),
        ensures
            final(self).wf(),
            final(self).width_spec() == old(self).width_spec(),
            final(self).height_spec() == old(self).height_spec(),
            final(self).out() == old(self).out() + home_seq(),
            final(self).shown() == old(self).cells(),
            final(self).cells() == blank_cells(old(self).width_spec() * old(self).height_spec()),
    {
        self.set_cursor_home();
        self.previous_render_buffer = clone_cells(&self.render_buffer);
        self.reset_render_buffer();
    }

    /// Emits one frame's comparison pass: per row, a cursor move plus text
    /// for every maximal run of changed cells. The surrounding process
    /// flushes the stream once after this.
    pub fn end_frame(&mut self)
        requires
            old(self).wf(),
        ensures
            final(self).wf(),
            final(self).width_spec() == old(self).width_spec(),
            final(self).height_spec() == old(self).height_spec(),
            final(self).cells() == old(self).cells(),
            final(self).shown() == old(self).shown(),
            final(self).out() == old(self).out() + frame_diff(
                old(self).shown(),
                old(self).cells(),
                old(self).width_spec(),
                old(self).height_spec(),
            ),
    {
        self.flush();
    }

    /// Hands over everything emitted so far, leaving the output empty.
    pub fn take_output(&mut self) -> (r: Vec<char>)
        ensures
            r@ == old(self).out(),
            final(self).out() == Seq::<char>::empty(),
            final(self).wf() == old(self).wf(),
            final(self).width_spec() == old(self).width_spec(),
            final(self).height_spec() == old(self).height_spec(),
            final(self).cells() == old(self).cells(),
            final(self).shown() == old(self).shown(),
    {
        let mut taken: Vec<char> = Vec::new();
        core::mem::swap(&mut taken, &mut self.output);
        taken
    }

    /// Emits the cursor-home sequence.
    fn set_cursor_home(&mut self)
        ensures
            final(self).out() == old(self).out() + home_seq(),
            final(self).cells() == old(self).cells(),
            final(self).shown() == old(self).shown(),
            final(self).width_spec() == old(self).width_spec(),
            final(self).height_spec() == old(self).height_spec(),
            final(self).wf() == old(self).wf(),
    {
        self.output.push('\x1b');
        self.output.push('[');
        self.output.push('H');
        proof {
            assert(self.output@ =~= old(self).out() + home_seq());
        }
    }

    /// Emits the cursor-position sequence for 0-based column `x`, row `y`.
    fn move_cursor_to(&mut self, x: usize, y: usize)
        requires
            x < usize::MAX,
            y < usize::MAX,
        ensures
            final(self).out() == old(self).out() + cursor_move_seq(x as int, y as int),
            final(self).cells() == old(self).cells(),
            final(self).shown() == old(self).shown(),
            final(self).width_spec() == old(self).width_spec(),
            final(self).height_spec() == old(self).height_spec(),
            final(self).wf() == old(self).wf(),
    {
        self.output.push('\x1b');
        self.output.push('[');
        push_decimal(&mut self.output, y + 1);
        self.output.push(';');
        push_decimal(&mut self.output, x + 1);
        self.output.push('H');
        proof {
            assert(self.output@ =~= old(self).out() + cursor_move_seq(x as int, y as int));
        }
    }

    /// Blanks every cell of the composition buffer.
    fn reset_render_buffer(&mut self)
        ensures
            final(self).cells() == blank_cells(old(self).cells().len() as int),
            final(self).shown() == old(self).shown(),
            final(self).out() == old(self).out(),
            final(self).width_spec() == old(self).width_spec(),
            final(self).height_spec() == old(self).height_spec(),
    {
        let n = self.render_buffer.len();
        let mut k: usize = 0;
        while k < n
            invariant
                0 <= k <= n,
                self.render_buffer@.len() == n,
                forall|i: int| 0 <= i < k ==> self.render_buffer@[i] == ' ',
                forall|i: int|
                    k <= i < n ==> self.render_buffer@[i] == old(self).render_buffer@[i],
                self.previous_render_buffer@ == old(self).previous_render_buffer@,
                self.output@ == old(self).output@,
                self.screen_width == old(self).screen_width,
                self.screen_height == old(self).screen_height,
            decreases n - k,
        {
            self.render_buffer[k] = ' ';
            k = k + 1;
        }
        proof {
            assert(self.render_buffer@ =~= blank_cells(old(self).cells().len() as int));
        }
    }
}

/// The value a cell has after a grid is drawn over a buffer: the grid's
/// character where the grid covers the cell, the buffer's old value
/// elsewhere.
pub open spec fn overlay_cell(buf: Seq<char>, lines: Seq<Seq<char>>, w: int, k: int) -> char {
    let y = k / w;
    let x = k % w;
    if y < lines.len() && x < lines[y].len() {
        lines[y][x]
    } else {
        buf[k]
    }
}

/// `run_end` is reached exactly at the first column where the buffers
/// agree again (or at the width).
proof fn lemma_run_end_of(prev: Seq<char>, cur: Seq<char>, w: int, y: int, a: int, b: int)
    requires
        a <= b <= w,
        forall|i: int|
            a <= i < b ==> cur[#[trigger] cell_index(w, i, y)] != prev[cell_index(w, i, y)],
        b == w || cur[cell_index(w, b, y)] == prev[cell_index(w, b, y)],
    ensures
        run_end(prev, cur, w, y, a) == b,
    decreases b - a,
{
    if a < b {
        assert(cur[cell_index(w, a, y)] != prev[cell_index(w, a, y)]);
        lemma_run_end_of(prev, cur, w, y, a + 1, b);
    }
}

impl Renderer {
    /// The buffer index of the cell at 0-based column `x`, row `y`.
    fn render_buffer_index_from_position(&self, x: usize, y: usize) -> (r: usize)
        requires
            self.wf(),
            x < self.width_spec(),
            y < self.height_spec(),
        ensures
            r == cell_index(self.width_spec(), x as int, y as int),
            r < self.cells().len(),
    {
        let n = self.render_buffer.len();
        proof {
            lemma_cell_index(self.width_spec(), self.height_spec(), x as int, y as int);
            assert(cell_index(self.width_spec(), x as int, y as int) < n as int);
        }
        y * self.screen_width + x
    }

    /// Draws the window's visible pane (currently always the first).
    pub fn draw_window(&mut self, window: &Window)
        requires
            old(self).wf(),
            window@.len() >= 1,
        ensures
            final(self).wf(),
            final(self).width_spec() == old(self).width_spec(),
            final(self).height_spec() == old(self).height_spec(),
            final(self).shown() == old(self).shown(),
            final(self).out() == old(self).out(),
            final(self).cells() == overlay(old(self).cells(), window@[0], old(self).width_spec()),
    {
        self.draw_pane(window.get_pane(0));
    }

    /// Writes the pane's grid into the composition buffer, clipped to the
    /// screen: lines at or beyond the screen height and columns at or
    /// beyond the screen width are skipped; cells the grid does not cover
    /// are left as they are.
    #[verifier::loop_isolation(false)]
    fn draw_pane(&mut self, pane: &Pane)
        requires
            old(self).wf(),
        ensures
            final(self).wf(),
            final(self).width_spec() == old(self).width_spec(),
            final(self).height_spec() == old(self).height_spec(),
            final(self).shown() == old(self).shown(),
            final(self).out() == old(self).out(),
            final(self).cells() == overlay(old(self).cells(), pane@, old(self).width_spec()),
    {
        let ghost lines = pane@;
        let ghost w = old(self).width_spec();
        let ghost h = old(self).height_spec();
        let ghost len = old(self).cells().len() as int;
        let data = pane.get_grid().get_data();
        let mut y: usize = 0;
        while y < data.len() && y < self.screen_height
            invariant
                0 <= y <= h,
                y as int <= lines.len(),
                self.screen_width == old(self).screen_width,
                self.screen_height == old(self).screen_height,
                self.previous_render_buffer@ == old(self).previous_render_buffer@,
                self.output@ == old(self).output@,
                self.render_buffer@.len() == len,
                forall|k: int|
                    0 <= k < len ==> self.render_buffer@[k] == (if k / w < y as int {
                        overlay_cell(old(self).cells(), lines, w, k)
                    } else {
                        old(self).cells()[k]
                    }),
            decreases data@.len() - y,
        {
            let line = &data[y];
            let mut x: usize = 0;
            while x < line.len() && x < self.screen_width
                invariant
                    0 <= x <= w,
                    x as int <= line@.len(),
                    0 <= y < h,
                    y < lines.len(),
                    line@ == lines[y as int],
                    self.screen_width == old(self).screen_width,
                    self.screen_height == old(self).screen_height,
                    self.previous_render_buffer@ == old(self).previous_render_buffer@,
                    self.output@ == old(self).output@,
                    self.render_buffer@.len() == len,
                    forall|k: int|
                        0 <= k < len ==> self.render_buffer@[k] == (if k / w < y as int || (k / w
                            == y as int && k % w < x as int) {
                            overlay_cell(old(self).cells(), lines, w, k)
                        } else {
                            old(self).cells()[k]
                        }),
                decreases line@.len() - x,
            {
                let idx = self.render_buffer_index_from_position(x, y);
                self.render_buffer[idx] = line[x];
                proof {
                    lemma_cell_index(w, h, x as int, y as int);
                    assert forall|k: int| 0 <= k < len implies self.render_buffer@[k] == (if k / w
                        < y as int || (k / w == y as int && k % w < x as int + 1) {
                        overlay_cell(old(self).cells(), lines, w, k)
                    } else {
                        old(self).cells()[k]
                    }) by {
                        lemma_cell_coords(w, h, k);
                    }
                }
                x = x + 1;
            }
            proof {
                let xe = x as int;
                assert forall|k: int| 0 <= k < len implies self.render_buffer@[k] == (if k / w < y
                    + 1 {
                    overlay_cell(old(self).cells(), lines, w, k)
                } else {
                    old(self).cells()[k]
                }) by {
                    lemma_cell_coords(w, h, k);
                    if k / w == y as int && k % w >= xe {
                        assert(xe == lines[y as int].len() || xe == w);
                        assert(overlay_cell(old(self).cells(), lines, w, k) == old(
                            self,
                        ).cells()[k]);
                    }
                }
            }
            y = y + 1;
        }
        proof {
            assert forall|k: int| 0 <= k < len implies self.render_buffer@[k] == overlay_cell(
                old(self).cells(),
                lines,
                w,
                k,
            ) by {
                lemma_cell_coords(w, h, k);
                if k / w >= y as int {
                    assert(y as int == lines.len() || y as int == h);
                    if y as int == lines.len() {
                        assert(overlay_cell(old(self).cells(), lines, w, k) == old(
                            self,
                        ).cells()[k]);
                    }
                }
            }
            assert(self.render_buffer@ =~= overlay(old(self).cells(), lines, w));
        }
    }

    /// One frame's comparison pass: scans each row left to right, and for
    /// every maximal run of cells that differ from the frame last shown
    /// emits one cursor move followed by the run's current text.
    #[verifier::loop_isolation(false)]
    fn flush(&mut self)
        requires
            old(self).wf(),
        ensures
            final(self).wf(),
            final(self).width_spec() == old(self).width_spec(),
            final(self).height_spec() == old(self).height_spec(),
            final(self).cells() == old(self).cells(),
            final(self).shown() == old(self).shown(),
            final(self).out() == old(self).out() + frame_diff(
                old(self).shown(),
                old(self).cells(),
                old(self).width_spec(),
                old(self).height_spec(),
            ),
    {
        let ghost w = old(self).width_spec();
        let ghost h = old(self).height_spec();
        let ghost prevb = old(self).shown();
        let ghost curb = old(self).cells();
        let mut y: usize = 0;
        while y < self.screen_height
            invariant
                0 <= y <= h,
                self.screen_width == old(self).screen_width,
                self.screen_height == old(self).screen_height,
                self.render_buffer@ == old(self).render_buffer@,
                self.previous_render_buffer@ == old(self).previous_render_buffer@,
                old(self).out() + frame_diff(prevb, curb, w, h) == self.output@ + frame_diff_rows(
                    prevb,
                    curb,
                    w,
                    h,
                    y as int,
                ),
            decreases h - y,
        {
            let mut x: usize = 0;
            proof {
                assert(frame_diff_rows(prevb, curb, w, h, y as int) == row_diff(
                    prevb,
                    curb,
                    w,
                    y as int,
                    0,
                ) + frame_diff_rows(prevb, curb, w, h, y as int + 1));
                assert(old(self).out() + frame_diff(prevb, curb, w, h) =~= self.output@ + row_diff(
                    prevb,
                    curb,
                    w,
                    y as int,
                    0,
                ) + frame_diff_rows(prevb, curb, w, h, y as int + 1));
            }
            while x < self.screen_width
                invariant
                    0 <= x <= w,
                    0 <= y < h,
                    self.screen_width == old(self).screen_width,
                    self.screen_height == old(self).screen_height,
                    self.render_buffer@ == old(self).render_buffer@,
                    self.previous_render_buffer@ == old(self).previous_render_buffer@,
                    old(self).out() + frame_diff(prevb, curb, w, h) == self.output@ + row_diff(
                        prevb,
                        curb,
                        w,
                        y as int,
                        x as int,
                    ) + frame_diff_rows(prevb, curb, w, h, y as int + 1),
                decreases w - x,
            {
                let idx = self.render_buffer_index_from_position(x, y);
                if self.render_buffer[idx] != self.previous_render_buffer[idx] {
                    let sequence_start_x = x;
                    let mut sequence: Vec<char> = Vec::new();
                    let mut run_done = false;
                    while x < self.screen_width && !run_done
                        invariant
                            sequence_start_x <= x <= w,
                            0 <= y < h,
                            self.screen_width == old(self).screen_width,
                            self.screen_height == old(self).screen_height,
                            self.render_buffer@ == old(self).render_buffer@,
                            self.previous_render_buffer@ == old(self).previous_render_buffer@,
                            sequence@ == curb.subrange(
                                cell_index(w, sequence_start_x as int, y as int),
                                cell_index(w, x as int, y as int),
                            ),
                            forall|i: int|
                                sequence_start_x <= i < x ==> curb[#[trigger] cell_index(
                                    w,
                                    i,
                                    y as int,
                                )] != prevb[cell_index(w, i, y as int)],
                            run_done ==> x < w && curb[cell_index(w, x as int, y as int)]
                                == prevb[cell_index(w, x as int, y as int)],
                        decreases w - x + (if run_done {
                            0int
                        } else {
                            1int
                        }),
                    {
                        let char_idx = self.render_buffer_index_from_position(x, y);
                        if self.render_buffer[char_idx] != self.previous_render_buffer[char_idx] {
                            sequence.push(self.render_buffer[char_idx]);
                            proof {
                                lemma_cell_index(w, h, x as int, y as int);
                                assert(sequence@ =~= curb.subrange(
                                    cell_index(w, sequence_start_x as int, y as int),
                                    cell_index(w, x as int + 1, y as int),
                                ));
                            }
                            x = x + 1;
                        } else {
                            run_done = true;
                        }
                    }
                    proof {
                        lemma_run_end_of(
                            prevb,
                            curb,
                            w,
                            y as int,
                            sequence_start_x as int,
                            x as int,
                        );
                    }
                    let ghost out_before = self.output@;
                    self.move_cursor_to(sequence_start_x, y);
                    push_all(&mut self.output, &sequence);
                    proof {
                        assert(row_diff(prevb, curb, w, y as int, sequence_start_x as int)
                            == cursor_move_seq(sequence_start_x as int, y as int) + curb.subrange(
                            cell_index(w, sequence_start_x as int, y as int),
                            cell_index(w, x as int, y as int),
                        ) + row_diff(prevb, curb, w, y as int, x as int));
                        assert(old(self).out() + frame_diff(prevb, curb, w, h) =~= self.output@
                            + row_diff(prevb, curb, w, y as int, x as int) + frame_diff_rows(
                            prevb,
                            curb,
                            w,
                            h,
                            y as int + 1,
                        ));
                    }
                } else {
                    proof {
                        assert(row_diff(prevb, curb, w, y as int, x as int) == row_diff(
                            prevb,
                            curb,
                            w,
                            y as int,
                            x as int + 1,
                        ));
                    }
                    x = x + 1;
                }
            }
            proof {
                assert(row_diff(prevb, curb, w, y as int, w) == Seq::<char>::empty());
                assert(old(self).out() + frame_diff(prevb, curb, w, h) =~= self.output@
                    + frame_diff_rows(prevb, curb, w, h, y as int + 1));
            }
            y = y + 1;
        }
        proof {
            assert(frame_diff_rows(prevb, curb, w, h, h) == Seq::<char>::empty());
            assert(self.output@ =~= old(self).out() + frame_diff(prevb, curb, w, h));
        }
    }
}

/// A copy of a cell buffer.
fn clone_cells(v: &Vec<char>) -> (r: Vec<char>)
    ensures
        r@ == v@,
{
    let mut r: Vec<char> = Vec::new();
    let mut k: usize = 0;
    while k < v.len()
        invariant
            0 <= k <= v@.len(),
            r@ == v@.subrange(0, k as int),
        decreases v@.len() - k,
    {
        r.push(v[k]);
        k = k + 1;
        proof {
            assert(r@ =~= v@.subrange(0, k as int));
        }
    }
    proof {
        assert(v@.subrange(0, v@.len() as int) =~= v@);
    }
    r
}

} // verus!
