//! A model terminal, and the proof that replaying a frame's emission
//! reproduces the composed frame.
//!
//! The model consumes the renderer's character stream the way a terminal
//! would: a cursor-home or cursor-position escape sequence moves the
//! cursor, every other character is written at the cursor, which then
//! advances within the row. Replaying everything one frame emits onto a
//! screen that still shows the previous frame yields exactly the frame
//! that was composed: the diff loses nothing.

use vstd::prelude::*;

use crate::renderer::cursor_move_seq;
use crate::renderer::dec_chars;
use crate::renderer::dec_digit;
use crate::renderer::frame_diff;
use crate::renderer::frame_diff_rows;
use crate::renderer::home_seq;
use crate::renderer::lemma_run_end_bounds;
use crate::renderer::row_diff;
use crate::renderer::run_end;

verus! {

/// A decimal digit character.
pub open spec fn is_digit_char(c: char) -> bool {
    '0' <= c <= '9'
}

/// The value of one digit character.
pub open spec fn digit_char_val(c: char) -> int {
    c as int - 48
}

/// The first position at or after `i` that does not hold a digit.
pub open spec fn digits_end(s: Seq<char>, i: int) -> int
    decreases s.len() - i,
{
    if i < s.len() && is_digit_char(s[i]) {
        digits_end(s, i + 1)
    } else {
        i
    }
}

/// The number the digits at positions `i` up to `e` spell.
pub open spec fn digits_val(s: Seq<char>, i: int, e: int) -> int
    decreases e - i,
{
    if i >= e {
        0
    } else {
        digits_val(s, i, e - 1) * 10 + digit_char_val(s[e - 1])
    }
}

pub proof fn lemma_digits_end_bounds(s: Seq<char>, i: int)
    requires
        0 <= i <= s.len(),
    ensures
        i <= digits_end(s, i) <= s.len(),
    decreases s.len() - i,
{
    if i < s.len() && is_digit_char(s[i]) {
        lemma_digits_end_bounds(s, i + 1);
    }
}

/// The screen with `c` written at the cursor, when the cursor is on the
/// screen.
pub open spec fn write_cell(
    screen: Seq<char>,
    w: int,
    h: int,
    row: int,
    col: int,
    c: char,
) -> Seq<char> {
    if 0 <= row < h && 0 <= col < w {
        screen.update(row * w + col, c)
    } else {
        screen
    }
}

/// The screen after a run of characters is written left to right from
/// the cursor.
pub open spec fn write_run(
    screen: Seq<char>,
    w: int,
    h: int,
    row: int,
    col: int,
    text: Seq<char>,
) -> Seq<char>
    decreases text.len(),
{
    if text.len() == 0 {
        screen
    } else {
        write_run(write_cell(screen, w, h, row, col, text[0]), w, h, row, col + 1,
            text.drop_first())
    }
}

/// The model terminal: consumes `out` from the given screen and cursor,
/// and yields the screen, cursor row and cursor column afterwards. It
/// understands exactly what the renderer writes: the cursor-home
/// sequence, the 1-indexed cursor-position sequence, and literal
/// characters, which are written at the cursor; a malformed escape stops
/// it.
pub open spec fn replay(
    screen: Seq<char>,
    w: int,
    h: int,
    row: int,
    col: int,
    out: Seq<char>,
) -> (Seq<char>, int, int)
    decreases out.len(),
{
    if out.len() == 0 {
        (screen, row, col)
    } else if out[0] == '\x1b' {
        if out.len() >= 3 && out[1] == '[' && out[2] == 'H' {
            replay(screen, w, h, 0, 0, out.skip(3))
        } else if out.len() >= 2 && out[1] == '[' {
            let re = digits_end(out, 2);
            proof {
                lemma_digits_end_bounds(out, 2);
            }
            if re > 2 && re < out.len() && out[re] == ';' {
                let ce = digits_end(out, re + 1);
                proof {
                    lemma_digits_end_bounds(out, re + 1);
                }
                if ce < out.len() && out[ce] == 'H' {
                    replay(
                        screen,
                        w,
                        h,
                        digits_val(out, 2, re) - 1,
                        digits_val(out, re + 1, ce) - 1,
                        out.skip(ce + 1),
                    )
                } else {
                    (screen, row, col)
                }
            } else {
                (screen, row, col)
            }
        } else {
            (screen, row, col)
        }
    } else {
        replay(write_cell(screen, w, h, row, col, out[0]), w, h, row, col + 1, out.skip(1))
    }
}

/// Every character of a decimal numeral is a digit.
proof fn lemma_dec_chars_digits(n: int)
    requires
        n >= 0,
    ensures
        dec_chars(n).len() >= 1,
        forall|j: int| 0 <= j < dec_chars(n).len() ==> is_digit_char(#[trigger] dec_chars(n)[j]),
    decreases n,
{
    if n >= 10 {
        lemma_dec_chars_digits(n / 10);
    }
}

/// Scanning digits stops exactly at the end of an embedded numeral when
/// a non-digit follows it.
proof fn lemma_digits_end_of_numeral(s: Seq<char>, i: int, e: int)
    requires
        0 <= i <= e < s.len(),
        forall|j: int| i <= j < e ==> is_digit_char(#[trigger] s[j]),
        !is_digit_char(s[e]),
    ensures
        digits_end(s, i) == e,
    decreases e - i,
{
    if i < e {
        lemma_digits_end_of_numeral(s, i + 1, e);
    }
}

/// Parsing the digits of a decimal numeral gives back its number.
proof fn lemma_digits_val_of_numeral(s: Seq<char>, i: int, n: int)
    requires
        n >= 0,
        0 <= i,
        i + dec_chars(n).len() <= s.len(),
        forall|j: int| 0 <= j < dec_chars(n).len() ==> s[i + j] == #[trigger] dec_chars(n)[j],
    ensures
        digits_val(s, i, i + dec_chars(n).len()) == n,
    decreases n,
{
    reveal_with_fuel(digits_val, 2);
    let len = dec_chars(n).len() as int;
    assert(s[i + (len - 1)] == dec_chars(n)[len - 1]);
    if n < 10 {
        assert(digits_val(s, i, i + 1) == digit_char_val(s[i]));
        assert(dec_chars(n)[0] == dec_digit(n));
    } else {
        assert(dec_chars(n) == dec_chars(n / 10).push(dec_digit(n % 10)));
        assert forall|j: int|
            0 <= j < dec_chars(n / 10).len() implies s[i + j] == #[trigger] dec_chars(
            n / 10,
        )[j] by {
            assert(dec_chars(n / 10)[j] == dec_chars(n)[j]);
            assert(s[i + j] == dec_chars(n)[j]);
        }
        lemma_digits_val_of_numeral(s, i, n / 10);
        assert(digits_val(s, i, i + len) == digits_val(s, i, i + len - 1) * 10 + digit_char_val(
            s[i + len - 1],
        ));
    }
}

/// The model consumes a cursor-home sequence by homing the cursor.
proof fn lemma_replay_home(
    screen: Seq<char>,
    w: int,
    h: int,
    row: int,
    col: int,
    rest: Seq<char>,
)
    ensures
        replay(screen, w, h, row, col, home_seq() + rest) == replay(screen, w, h, 0, 0, rest),
{
    let out = home_seq() + rest;
    assert(out[0] == '\x1b' && out[1] == '[' && out[2] == 'H');
    assert(out.skip(3) =~= rest);
}

/// The model consumes a cursor-position sequence by moving the cursor to
/// the 0-based column `x`, row `y` it names.
proof fn lemma_replay_move(
    screen: Seq<char>,
    w: int,
    h: int,
    row: int,
    col: int,
    x: int,
    y: int,
    rest: Seq<char>,
)
    requires
        0 <= x,
        0 <= y,
    ensures
        replay(screen, w, h, row, col, cursor_move_seq(x, y) + rest) == replay(
            screen,
            w,
            h,
            y,
            x,
            rest,
        ),
{
    let out = cursor_move_seq(x, y) + rest;
    let rd = dec_chars(y + 1);
    let cd = dec_chars(x + 1);
    lemma_dec_chars_digits(y + 1);
    lemma_dec_chars_digits(x + 1);
    let re = 2 + rd.len() as int;
    let ce = re + 1 + cd.len() as int;
    assert(out[0] == '\x1b' && out[1] == '[');
    assert(forall|j: int| 0 <= j < rd.len() ==> out[2 + j] == #[trigger] rd[j]);
    assert(out[re] == ';');
    assert(forall|j: int| 0 <= j < cd.len() ==> out[re + 1 + j] == #[trigger] cd[j]);
    assert(out[ce] == 'H');
    assert(!is_digit_char('\x1b') && !is_digit_char(';') && !is_digit_char('H')) by {
        assert('\x1b' as int == 27 && ';' as int == 59 && 'H' as int == 72);
        assert('0' as int == 48 && '9' as int == 57);
    }
    assert(out[2] != 'H');
    assert(forall|j: int| 2 <= j < re ==> is_digit_char(#[trigger] out[j]));
    lemma_digits_end_of_numeral(out, 2, re);
    assert(forall|j: int| re + 1 <= j < ce ==> is_digit_char(#[trigger] out[j]));
    lemma_digits_end_of_numeral(out, re + 1, ce);
    lemma_digits_val_of_numeral(out, 2, y + 1);
    lemma_digits_val_of_numeral(out, re + 1, x + 1);
    assert(out.skip(ce + 1) =~= rest);
}

/// The model consumes a run of ordinary characters by writing them left
/// to right from the cursor.
proof fn lemma_replay_text(
    screen: Seq<char>,
    w: int,
    h: int,
    row: int,
    col: int,
    text: Seq<char>,
    rest: Seq<char>,
)
    requires
        forall|j: int| 0 <= j < text.len() ==> #[trigger] text[j] != '\x1b',
    ensures
        replay(screen, w, h, row, col, text + rest) == replay(
            write_run(screen, w, h, row, col, text),
            w,
            h,
            row,
            col + text.len(),
            rest,
        ),
    decreases text.len(),
{
    if text.len() == 0 {
        assert(text + rest =~= rest);
    } else {
        let out = text + rest;
        assert(out[0] == text[0]);
        assert(out.skip(1) =~= text.drop_first() + rest);
        lemma_replay_text(
            write_cell(screen, w, h, row, col, text[0]),
            w,
            h,
            row,
            col + 1,
            text.drop_first(),
            rest,
        );
    }
}

/// The screen that shows `cur` in every cell before `limit` and `prev`
/// in every cell from `limit` on: the state midway through replaying a
/// frame's emission.
pub open spec fn merged_until(prev: Seq<char>, cur: Seq<char>, limit: int) -> Seq<char> {
    Seq::new(prev.len(), |k: int| if k < limit {
        cur[k]
    } else {
        prev[k]
    })
}

/// Replaying what remains of a frame's emission, from the cell at column
/// `x` of row `y` on, completes the screen to the composed frame. The
/// incoming cursor does not matter: every run is preceded by its own
/// cursor move.
proof fn lemma_replay_from(
    prev: Seq<char>,
    cur: Seq<char>,
    w: int,
    h: int,
    y: int,
    x: int,
    row: int,
    col: int,
)
    requires
        w >= 1,
        prev.len() == w * h,
        cur.len() == w * h,
        0 <= y < h,
        0 <= x <= w,
        forall|k: int| 0 <= k < cur.len() ==> #[trigger] cur[k] != '\x1b',
    ensures
        replay(
            merged_until(prev, cur, y * w + x),
            w,
            h,
            row,
            col,
            row_diff(prev, cur, w, y, x) + frame_diff_rows(prev, cur, w, h, y + 1),
        ).0 == cur,
    decreases h - y, w - x,
{
    let screen = merged_until(prev, cur, y * w + x);
    let rows_rest = frame_diff_rows(prev, cur, w, h, y + 1);
    if x < w {
        assert(0 <= y * w + x < w * h) by (nonlinear_arith)
            requires
                0 <= x < w && 0 <= y < h,
        ;
        if cur[y * w + x] == prev[y * w + x] {
            assert(row_diff(prev, cur, w, y, x) == row_diff(prev, cur, w, y, x + 1));
            assert(merged_until(prev, cur, y * w + x) =~= merged_until(prev, cur, y * w + x + 1));
            lemma_replay_from(prev, cur, w, h, y, x + 1, row, col);
        } else {
            let e = run_end(prev, cur, w, y, x);
            lemma_run_end_bounds(prev, cur, w, y, x);
            let text = cur.subrange(y * w + x, y * w + e);
            assert(row_diff(prev, cur, w, y, x) == cursor_move_seq(x, y) + text + row_diff(
                prev,
                cur,
                w,
                y,
                e,
            ));
            let tail1 = text + (row_diff(prev, cur, w, y, e) + rows_rest);
            assert(row_diff(prev, cur, w, y, x) + rows_rest =~= cursor_move_seq(x, y) + tail1);
            lemma_replay_move(screen, w, h, row, col, x, y, tail1);
            assert(0 <= y * w + e <= w * h) by (nonlinear_arith)
                requires
                    0 <= x < e <= w && 0 <= y < h,
            ;
            assert(forall|j: int| 0 <= j < text.len() ==> #[trigger] text[j] != '\x1b');
            lemma_replay_text(
                screen,
                w,
                h,
                y,
                x,
                text,
                row_diff(prev, cur, w, y, e) + rows_rest,
            );
            lemma_write_run_merges(prev, cur, w, h, y, x, e);
            lemma_replay_from(prev, cur, w, h, y, e, y, x + text.len() as int);
        }
    } else {
        assert(row_diff(prev, cur, w, y, w) == Seq::<char>::empty());
        assert(row_diff(prev, cur, w, y, x) + rows_rest =~= rows_rest);
        if y + 1 < h {
            assert(rows_rest == row_diff(prev, cur, w, y + 1, 0) + frame_diff_rows(
                prev,
                cur,
                w,
                h,
                y + 2,
            ));
            assert(y * w + w == (y + 1) * w) by (nonlinear_arith);
            assert(merged_until(prev, cur, y * w + x) =~= merged_until(prev, cur, (y + 1) * w));
            lemma_replay_from(prev, cur, w, h, y + 1, 0, row, col);
        } else {
            assert(rows_rest == Seq::<char>::empty());
            assert(y * w + w == w * h) by (nonlinear_arith)
                requires
                    y + 1 == h,
            ;
            assert(screen =~= cur);
        }
    }
}

/// Writing a run of current cells over the merged screen extends the
/// merged region to the run's end.
proof fn lemma_write_run_merges(
    prev: Seq<char>,
    cur: Seq<char>,
    w: int,
    h: int,
    y: int,
    x: int,
    e: int,
)
    requires
        w >= 1,
        prev.len() == w * h,
        cur.len() == w * h,
        0 <= y < h,
        0 <= x <= e <= w,
    ensures
        write_run(
            merged_until(prev, cur, y * w + x),
            w,
            h,
            y,
            x,
            cur.subrange(y * w + x, y * w + e),
        ) == merged_until(prev, cur, y * w + e),
    decreases e - x,
{
    assert(0 <= y * w + x && y * w + x <= y * w + e && y * w + e <= w * h) by (nonlinear_arith)
        requires
            0 <= y < h && 0 <= x <= e <= w,
    ;
    let text = cur.subrange(y * w + x, y * w + e);
    if x == e {
        assert(text.len() == 0);
        assert(merged_until(prev, cur, y * w + x) =~= merged_until(prev, cur, y * w + e));
    } else {
        assert(0 <= y * w + x < w * h) by (nonlinear_arith)
            requires
                0 <= x < w && 0 <= y < h && e <= w && x < e,
        ;
        assert(text[0] == cur[y * w + x]);
        assert(write_cell(merged_until(prev, cur, y * w + x), w, h, y, x, text[0])
            =~= merged_until(prev, cur, y * w + x + 1));
        assert(text.drop_first() =~= cur.subrange(y * w + x + 1, y * w + e));
        lemma_write_run_merges(prev, cur, w, h, y, x + 1, e);
    }
}

/// Diff correctness: replaying everything one frame emits, the
/// cursor-home sequence of the frame start followed by the comparison
/// pass's cursor moves and runs, onto a screen still showing the
/// previous frame reproduces exactly the frame that was composed,
/// whatever the cursor position was. A screen of blanks stands for a
/// blank terminal. Characters are addressed by their cells, so the
/// composed frame may hold anything except the escape character itself,
/// which a grid never receives as printable text.
pub proof fn lemma_replay_frame(
    prev: Seq<char>,
    cur: Seq<char>,
    w: int,
    h: int,
    row: int,
    col: int,
)
    requires
        w >= 1,
        prev.len() == w * h,
        cur.len() == w * h,
        forall|k: int| 0 <= k < cur.len() ==> #[trigger] cur[k] != '\x1b',
    ensures
        replay(prev, w, h, row, col, home_seq() + frame_diff(prev, cur, w, h)).0 == cur,
{
    lemma_replay_home(prev, w, h, row, col, frame_diff(prev, cur, w, h));
    assert(h >= 0) by (nonlinear_arith)
        requires
            w >= 1 && w * h >= 0,
    ;
    if h == 0 {
        assert(frame_diff_rows(prev, cur, w, h, 0) == Seq::<char>::empty());
        assert(prev =~= cur);
    } else {
        assert(merged_until(prev, cur, 0) =~= prev);
        lemma_replay_from(prev, cur, w, h, 0, 0, 0, 0);
        assert(frame_diff(prev, cur, w, h) =~= row_diff(prev, cur, w, 0, 0) + frame_diff_rows(
            prev,
            cur,
            w,
            h,
            1,
        ));
    }
}

} // verus!
