use vstd::prelude::*;

use crate::colors::BoardColor;

verus! {

pub const WIDTH: usize = 10;

pub const HEIGHT: usize = 40;

pub const DISPLAY_HEIGHT: usize = 20;

/// The playing field: HEIGHT rows of WIDTH cells. Row 0 is the bottom row;
/// rows at DISPLAY_HEIGHT and above form the hidden spawn buffer.
pub struct Board {
    cells: Vec<Vec<BoardColor>>,
}

/// The mathematical grid behind a vector of rows.
pub open spec fn views_of(v: Seq<Vec<BoardColor>>) -> Seq<Seq<BoardColor>> {
    v.map_values(|row: Vec<BoardColor>| row@)
}

/// A row with no Empty cell is full and gets cleared.
pub open spec fn row_full(row: Seq<BoardColor>) -> bool {
    forall|c: int| 0 <= c < WIDTH ==> row[c] != BoardColor::Empty
}

/// A row of Empty cells.
pub open spec fn empty_row() -> Seq<BoardColor> {
    Seq::new(WIDTH as nat, |c: int| BoardColor::Empty)
}

/// A grid of Empty cells.
pub open spec fn empty_grid() -> Seq<Seq<BoardColor>> {
    Seq::new(HEIGHT as nat, |r: int| empty_row())
}

/// The unified boundary-and-occupancy predicate: a coordinate is occupied
/// if it lies outside the grid or its cell holds a non-Empty color.
pub open spec fn grid_occupied(g: Seq<Seq<BoardColor>>, r: int, c: int) -> bool {
    r < 0 || r >= HEIGHT || c < 0 || c >= WIDTH || g[r][c] != BoardColor::Empty
}

/// The rows that survive clearing: every non-full row, bottom to top,
/// keeping their relative order.
pub open spec fn live_rows(g: Seq<Seq<BoardColor>>) -> Seq<Seq<BoardColor>>
    decreases g.len(),
{
    if g.len() == 0 {
        Seq::empty()
    } else {
        let rest = live_rows(g.drop_last());
        if row_full(g.last()) {
            rest
        } else {
            rest.push(g.last())
        }
    }
}

/// The grid after clearing: the surviving rows compacted to the bottom,
/// topped up with empty rows to the full height.
pub open spec fn cleared_grid(g: Seq<Seq<BoardColor>>) -> Seq<Seq<BoardColor>> {
    live_rows(g) + Seq::new((HEIGHT - live_rows(g).len()) as nat, |r: int| empty_row())
}

/// Clearing never keeps more rows than there were.
pub proof fn lemma_live_rows_len(g: Seq<Seq<BoardColor>>)
    ensures
        live_rows(g).len() <= g.len(),
    decreases g.len(),
{
    if g.len() > 0 {
        lemma_live_rows_len(g.drop_last());
    }
}

/// A grid with no full row survives clearing unchanged.
proof fn lemma_live_rows_all(g: Seq<Seq<BoardColor>>)
    requires
        forall|r: int| 0 <= r < g.len() ==> !row_full(#[trigger] g[r]),
    ensures
        live_rows(g) == g,
    decreases g.len(),
{
    if g.len() > 0 {
        lemma_live_rows_all(g.drop_last());
        assert(live_rows(g) =~= g);
    }
}

/// If the only full row of a grid is row i, clearing keeps exactly the
/// other rows, in order.
proof fn lemma_live_rows_single_full(g: Seq<Seq<BoardColor>>, i: int)
    requires
        0 <= i < g.len(),
        row_full(g[i]),
        forall|r: int| 0 <= r < g.len() && r != i ==> !row_full(#[trigger] g[r]),
    ensures
        live_rows(g) == g.remove(i),
    decreases g.len(),
{
    if i == g.len() - 1 {
        lemma_live_rows_all(g.drop_last());
        assert(g.remove(i) =~= g.drop_last());
    } else {
        lemma_live_rows_single_full(g.drop_last(), i);
        assert(g.remove(i) =~= g.drop_last().remove(i).push(g.last()));
    }
}

/// Clearing a grid whose one and only full row is row i removes that row,
/// shifts every row above it down by one, keeps the total row count, and
/// leaves the newly vacated top row Empty.
pub proof fn lemma_clear_single_full_row(g: Seq<Seq<BoardColor>>, i: int)
    requires
        g.len() == HEIGHT,
        0 <= i < g.len(),
        row_full(g[i]),
        forall|r: int| 0 <= r < g.len() && r != i ==> !row_full(#[trigger] g[r]),
    ensures
        cleared_grid(g) == g.remove(i).push(empty_row()),
        cleared_grid(g).len() == HEIGHT,
        cleared_grid(g)[HEIGHT - 1] == empty_row(),
        HEIGHT - live_rows(g).len() == 1,
{
    lemma_live_rows_single_full(g, i);
    assert(cleared_grid(g) =~= g.remove(i).push(empty_row()));
}

impl View for Board {
    type V = Seq<Seq<BoardColor>>;

    closed spec fn view(&self) -> Seq<Seq<BoardColor>> {
        views_of(self.cells@)
    }
}

impl Board {
    /// The view mirrors the underlying rows one for one.
    proof fn lemma_rows(&self)
        ensures
            self.cells@.len() == self@.len(),
            forall|r: int| 0 <= r < self@.len() ==> (#[trigger] self.cells@[r])@ == self@[r],
    {
    }

    pub open spec fn wf(&self) -> bool {
        &&& self@.len() == HEIGHT
        &&& forall|r: int| 0 <= r < HEIGHT ==> (#[trigger] self@[r]).len() == WIDTH
    }

    /// A fresh all-Empty board.
    pub fn new() -> (b: Board)
        ensures
            b.wf(),
            b@ == empty_grid(),
    {
        let mut cells: Vec<Vec<BoardColor>> = Vec::new();
        let mut r: usize = 0;
        while r < HEIGHT
            invariant
                r <= HEIGHT,
                cells@.len() == r,
                forall|k: int| 0 <= k < r ==> (#[trigger] cells@[k])@ == empty_row(),
            decreases HEIGHT - r,
        {
            let row = empty_row_vec();
            cells.push(row);
            r = r + 1;
        }
        let b = Board { cells };
        proof {
            assert(b@ =~~= empty_grid());
        }
        b
    }

    /// Clear every cell; invoked only on the lose condition.
    pub fn reset(&mut self)
        ensures
            final(self).wf(),
            final(self)@ == empty_grid(),
    {
        let fresh = Board::new();
        self.cells = fresh.cells;
        proof {
            assert(self@ =~~= empty_grid());
        }
    }

    /// Read one cell.
    pub fn get(&self, r: usize, c: usize) -> (color: BoardColor)
        requires
            self.wf(),
            r < HEIGHT,
            c < WIDTH,
        ensures
            color == self@[r as int][c as int],
    {
        proof {
            self.lemma_rows();
        }
        self.cells[r][c]
    }

    /// Write one cell.
    pub fn set_cell(&mut self, r: usize, c: usize, color: BoardColor)
        requires
            old(self).wf(),
            r < HEIGHT,
            c < WIDTH,
        ensures
            final(self).wf(),
            final(self)@ == old(self)@.update(
                r as int,
                old(self)@[r as int].update(c as int, color),
            ),
    {
        proof {
            self.lemma_rows();
        }
        self.cells[r][c] = color;
        proof {
            self.lemma_rows();
            assert(self@ =~~= old(self)@.update(
                r as int,
                old(self)@[r as int].update(c as int, color),
            ));
        }
    }

    /// The unified boundary-and-occupancy test: out of range or non-Empty.
    pub fn occupied(&self, r: i64, c: i64) -> (b: bool)
        requires
            self.wf(),
        ensures
            b == grid_occupied(self@, r as int, c as int),
    {
        proof {
            self.lemma_rows();
        }
        if r < 0 || r >= HEIGHT as i64 || c < 0 || c >= WIDTH as i64 {
            true
        } else {
            self.cells[r as usize][c as usize] != BoardColor::Empty
        }
    }

    /// Whether a whole row is occupied.
    fn is_row_full(&self, r: usize) -> (b: bool)
        requires
            self.wf(),
            r < HEIGHT,
        ensures
            b == row_full(self@[r as int]),
    {
        let mut c: usize = 0;
        while c < WIDTH
            invariant
                self.wf(),
                r < HEIGHT,
                c <= WIDTH,
                forall|k: int| 0 <= k < c ==> self@[r as int][k] != BoardColor::Empty,
            decreases WIDTH - c,
        {
            proof {
                self.lemma_rows();
            }
            if self.cells[r][c] == BoardColor::Empty {
                return false;
            }
            c = c + 1;
        }
        true
    }

    /// Remove every full row, shift the rows above each down, and top the
    /// grid up with empty rows; returns how many rows were cleared.
    pub fn clear_full_rows(&mut self) -> (n: u8)
        requires
            old(self).wf(),
        ensures
            final(self).wf(),
            final(self)@ == cleared_grid(old(self)@),
            n as int == HEIGHT - live_rows(old(self)@).len(),
            n <= HEIGHT,
    {
        let ghost g0 = self@;
        let mut kept: Vec<Vec<BoardColor>> = Vec::new();
        let mut r: usize = 0;
        proof {
            assert(g0.take(0) =~= Seq::<Seq<BoardColor>>::empty());
        }
        while r < HEIGHT
            invariant
                self.wf(),
                self@ == g0,
                r <= HEIGHT,
                views_of(kept@) == live_rows(g0.take(r as int)),
                forall|k: int| 0 <= k < kept@.len() ==> (#[trigger] kept@[k])@.len() == WIDTH,
            decreases HEIGHT - r,
        {
            proof {
                assert(g0.take(r + 1).drop_last() =~= g0.take(r as int));
                assert(g0.take(r + 1).last() == g0[r as int]);
            }
            if !self.is_row_full(r) {
                let mut nr: Vec<BoardColor> = Vec::new();
                let mut c: usize = 0;
                while c < WIDTH
                    invariant
                        self.wf(),
                        self@ == g0,
                        r < HEIGHT,
                        c <= WIDTH,
                        nr@.len() == c,
                        forall|k: int| 0 <= k < c ==> nr@[k] == self@[r as int][k],
                    decreases WIDTH - c,
                {
                    proof {
                        self.lemma_rows();
                    }
                    nr.push(self.cells[r][c]);
                    c = c + 1;
                }
                proof {
                    assert(nr@ =~= g0[r as int]);
                }
                kept.push(nr);
                proof {
                    assert(views_of(kept@) =~= live_rows(g0.take(r + 1)));
                }
            } else {
                proof {
                    assert(views_of(kept@) =~= live_rows(g0.take(r + 1)));
                }
            }
            r = r + 1;
        }
        proof {
            assert(g0.take(HEIGHT as int) =~= g0);
            lemma_live_rows_len(g0);
        }
        let n: usize = HEIGHT - kept.len();
        while kept.len() < HEIGHT
            invariant
                kept@.len() <= HEIGHT,
                live_rows(g0).len() <= kept@.len(),
                views_of(kept@).take(live_rows(g0).len() as int) == live_rows(g0),
                forall|k: int|
                    live_rows(g0).len() <= k < kept@.len() ==> (#[trigger] kept@[k])@
                        == empty_row(),
                forall|k: int| 0 <= k < kept@.len() ==> (#[trigger] kept@[k])@.len() == WIDTH,
            decreases HEIGHT - kept@.len(),
        {
            let row = empty_row_vec();
            kept.push(row);
            proof {
                assert(views_of(kept@).take(live_rows(g0).len() as int) =~= live_rows(g0));
            }
        }
        self.cells = kept;
        proof {
            assert(self@ =~~= cleared_grid(g0));
        }
        n as u8
    }
}

/// A fresh all-Empty row.
fn empty_row_vec() -> (row: Vec<BoardColor>)
    ensures
        row@ == empty_row(),
{
    let mut row: Vec<BoardColor> = Vec::new();
    let mut c: usize = 0;
    while c < WIDTH
        invariant
            c <= WIDTH,
            row@.len() == c,
            forall|k: int| 0 <= k < c ==> row@[k] == BoardColor::Empty,
        decreases WIDTH - c,
    {
        row.push(BoardColor::Empty);
        c = c + 1;
    }
    proof {
        assert(row@ =~= empty_row());
    }
    row
}

} // verus!
