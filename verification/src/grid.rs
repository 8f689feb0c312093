//! The text buffer of one pane.
//!
//! A grid is an append-only sequence of lines. It never shrinks and never
//! rewraps: appending a character extends the last line (materialising a
//! first line when the grid is still empty), and a line feed starts a new,
//! empty line. The grid is owned by its pane and mutated only by the
//! dispatch loop.

use vstd::prelude::*;

use crate::event::GridUpdate;

verus! {

/// `g` with `c` appended to its last line; a first line is created when the
/// grid has none.
pub open spec fn with_char(g: Seq<Seq<char>>, c: char) -> Seq<Seq<char>> {
    if g.len() == 0 {
        seq![seq![c]]
    } else {
        g.update(g.len() - 1, g.last().push(c))
    }
}

/// `g` with a new empty line appended.
pub open spec fn with_new_line(g: Seq<Seq<char>>) -> Seq<Seq<char>> {
    g.push(Seq::empty())
}

/// The effect of one grid update on a grid's content.
pub open spec fn apply_update(g: Seq<Seq<char>>, u: GridUpdate) -> Seq<Seq<char>> {
    match u {
        GridUpdate::AppendChar(c) => with_char(g, c),
        GridUpdate::NewLine => with_new_line(g),
    }
}

/// The effect of a sequence of grid updates, applied in order.
pub open spec fn apply_updates(g: Seq<Seq<char>>, us: Seq<GridUpdate>) -> Seq<Seq<char>>
    decreases us.len(),
{
    if us.len() == 0 {
        g
    } else {
        apply_update(apply_updates(g, us.drop_last()), us.last())
    }
}

/// How many of the updates start a new line.
pub open spec fn newline_count(us: Seq<GridUpdate>) -> nat
    decreases us.len(),
{
    if us.len() == 0 {
        0
    } else {
        newline_count(us.drop_last()) + (if us.last() is NewLine {
            1nat
        } else {
            0nat
        })
    }
}

/// The lines that a sequence of updates describes, read off the updates
/// themselves: there is one implicit first line, each `NewLine` opens a
/// fresh line, and each `AppendChar` extends whichever line is last at that
/// moment. Line `i` is therefore the concatenation, in order, of the
/// `AppendChar` payloads between the `i`-th and `i+1`-th `NewLine`.
pub open spec fn lines_of(us: Seq<GridUpdate>) -> Seq<Seq<char>>
    decreases us.len(),
{
    if us.len() == 0 {
        seq![Seq::empty()]
    } else {
        let prev = lines_of(us.drop_last());
        match us.last() {
            GridUpdate::AppendChar(c) => prev.update(prev.len() - 1, prev.last().push(c)),
            GridUpdate::NewLine => prev.push(Seq::empty()),
        }
    }
}

/// The described lines are always one more than the `NewLine` count.
pub proof fn lemma_lines_of_len(us: Seq<GridUpdate>)
    ensures
        lines_of(us).len() == newline_count(us) + 1,
    decreases us.len(),
{
    if us.len() > 0 {
        lemma_lines_of_len(us.drop_last());
    }
}

/// Grid append law: for a sequence of updates applied to an empty grid that
/// begins with an `AppendChar`, the grid holds exactly the lines the updates
/// describe, so its line count is the `NewLine` count plus one (the implicit
/// first line), and each line is the concatenation, in order, of the
/// `AppendChar` payloads applied while it was the last line.
pub proof fn lemma_grid_append_law(us: Seq<GridUpdate>)
    requires
        us.len() > 0,
        us[0] is AppendChar,
    ensures
        apply_updates(Seq::empty(), us) == lines_of(us),
        apply_updates(Seq::empty(), us).len() == newline_count(us) + 1,
    decreases us.len(),
{
    lemma_lines_of_len(us);
    if us.len() == 1 {
        let c = us[0]->AppendChar_0;
        assert(us.last() == us[0]);
        assert(us.drop_last().len() == 0);
        assert(apply_updates(Seq::empty(), us.drop_last()) == Seq::<Seq<char>>::empty());
        assert(apply_updates(Seq::empty(), us) == with_char(Seq::empty(), c));
        assert(lines_of(us.drop_last()) == seq![Seq::<char>::empty()]);
        assert(apply_updates(Seq::empty(), us) =~~= lines_of(us));
    } else {
        let vs = us.drop_last();
        assert(vs[0] == us[0]);
        lemma_grid_append_law(vs);
        lemma_lines_of_len(vs);
    }
}

/// The text content of one pane: an append-only buffer of lines.
#[derive(Clone)]
pub struct Grid {
    data: Vec<Vec<char>>,
}

impl View for Grid {
    type V = Seq<Seq<char>>;

    closed spec fn view(&self) -> Seq<Seq<char>> {
        Seq::new(self.data@.len(), |i: int| self.data@[i]@)
    }
}

impl Grid {
    pub fn new() -> (r: Self)
        ensures
            r@ == Seq::<Seq<char>>::empty(),
    {
        let r = Self { data: Vec::new() };
        proof {
            assert(r@ =~= Seq::<Seq<char>>::empty());
        }
        r
    }

    /// Appends one character to the last line, creating a first line if the
    /// grid has none.
    pub fn update(&mut self, c: char)
        ensures
            final(self)@ == with_char(old(self)@, c),
    {
        if self.data.len() == 0 {
            self.data.push(Vec::new());
        }
        let mut line = self.data.pop().unwrap();
        line.push(c);
        self.data.push(line);
        proof {
            assert(self@ =~= with_char(old(self)@, c));
        }
    }

    /// Starts a new, empty line.
    pub fn new_line(&mut self)
        ensures
            final(self)@ == with_new_line(old(self)@),
    {
        self.data.push(Vec::new());
        proof {
            assert(self@ =~= with_new_line(old(self)@));
        }
    }

    /// The grid's lines, in order.
    pub fn get_data(&self) -> (r: &[Vec<char>])
        ensures
            r@.len() == self@.len(),
            forall|i: int| 0 <= i < r@.len() ==> (#[trigger] r@[i])@ == self@[i],
    {
        self.data.as_slice()
    }
}

} // verus!
