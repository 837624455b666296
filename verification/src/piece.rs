use vstd::prelude::*;

use crate::colors::BoardColor;
use rand::seq::SliceRandom;

verus! {

/// One of the seven tetromino kinds. Shapes, colors and wall-kick tables are
/// fixed per kind and looked up through the methods below.
#[derive(Clone, Copy, PartialEq, Eq, Structural, Debug)]
pub enum Piece {
    O,
    I,
    S,
    Z,
    T,
    L,
    J,
}

impl Piece {
    /// Which cells of the 4x4 mask are occupied, per rotation state.
    /// Cell (i, j) sits i rows below and j columns right of the anchor.
    pub open spec fn shape_cell_spec(self, rot: int, i: int, j: int) -> bool {
        match self {
            Piece::O => (i == 0 || i == 1) && (j == 1 || j == 2),
            Piece::I => if rot == 0 {
                i == 1 && 0 <= j <= 3
            } else if rot == 1 {
                j == 2 && 0 <= i <= 3
            } else if rot == 2 {
                i == 2 && 0 <= j <= 3
            } else {
                j == 1 && 0 <= i <= 3
            },
            Piece::S => if rot == 0 {
                (i == 0 && (j == 1 || j == 2)) || (i == 1 && (j == 0 || j == 1))
            } else if rot == 1 {
                (j == 1 && (i == 0 || i == 1)) || (j == 2 && (i == 1 || i == 2))
            } else if rot == 2 {
                (i == 1 && (j == 1 || j == 2)) || (i == 2 && (j == 0 || j == 1))
            } else {
                (j == 0 && (i == 0 || i == 1)) || (j == 1 && (i == 1 || i == 2))
            },
            Piece::Z => if rot == 0 {
                (i == 0 && (j == 0 || j == 1)) || (i == 1 && (j == 1 || j == 2))
            } else if rot == 1 {
                (j == 2 && (i == 0 || i == 1)) || (j == 1 && (i == 1 || i == 2))
            } else if rot == 2 {
                (i == 1 && (j == 0 || j == 1)) || (i == 2 && (j == 1 || j == 2))
            } else {
                (j == 1 && (i == 0 || i == 1)) || (j == 0 && (i == 1 || i == 2))
            },
            Piece::T => if rot == 0 {
                (i == 0 && j == 1) || (i == 1 && 0 <= j <= 2)
            } else if rot == 1 {
                (j == 1 && 0 <= i <= 2) || (i == 1 && j == 2)
            } else if rot == 2 {
                (i == 1 && 0 <= j <= 2) || (i == 2 && j == 1)
            } else {
                (j == 1 && 0 <= i <= 2) || (i == 1 && j == 0)
            },
            Piece::L => if rot == 0 {
                (i == 0 && j == 2) || (i == 1 && 0 <= j <= 2)
            } else if rot == 1 {
                (j == 1 && 0 <= i <= 2) || (i == 2 && j == 2)
            } else if rot == 2 {
                (i == 1 && 0 <= j <= 2) || (i == 2 && j == 0)
            } else {
                (j == 1 && 0 <= i <= 2) || (i == 0 && j == 0)
            },
            Piece::J => if rot == 0 {
                (i == 0 && j == 0) || (i == 1 && 0 <= j <= 2)
            } else if rot == 1 {
                (j == 1 && 0 <= i <= 2) || (i == 0 && j == 2)
            } else if rot == 2 {
                (i == 1 && 0 <= j <= 2) || (i == 2 && j == 2)
            } else {
                (j == 1 && 0 <= i <= 2) || (i == 2 && j == 0)
            },
        }
    }

    /// Executable lookup of one cell of the shape mask.
    pub fn shape_cell(&self, rot: u8, i: u8, j: u8) -> (b: bool)
        requires
            rot < 4,
        ensures
            b == self.shape_cell_spec(rot as int, i as int, j as int),
    {
        match self {
            Piece::O => (i == 0 || i == 1) && (j == 1 || j == 2),
            Piece::I => if rot == 0 {
                i == 1 && j <= 3
            } else if rot == 1 {
                j == 2 && i <= 3
            } else if rot == 2 {
                i == 2 && j <= 3
            } else {
                j == 1 && i <= 3
            },
            Piece::S => if rot == 0 {
                (i == 0 && (j == 1 || j == 2)) || (i == 1 && (j == 0 || j == 1))
            } else if rot == 1 {
                (j == 1 && (i == 0 || i == 1)) || (j == 2 && (i == 1 || i == 2))
            } else if rot == 2 {
                (i == 1 && (j == 1 || j == 2)) || (i == 2 && (j == 0 || j == 1))
            } else {
                (j == 0 && (i == 0 || i == 1)) || (j == 1 && (i == 1 || i == 2))
            },
            Piece::Z => if rot == 0 {
                (i == 0 && (j == 0 || j == 1)) || (i == 1 && (j == 1 || j == 2))
            } else if rot == 1 {
                (j == 2 && (i == 0 || i == 1)) || (j == 1 && (i == 1 || i == 2))
            } else if rot == 2 {
                (i == 1 && (j == 0 || j == 1)) || (i == 2 && (j == 1 || j == 2))
            } else {
                (j == 1 && (i == 0 || i == 1)) || (j == 0 && (i == 1 || i == 2))
            },
            Piece::T => if rot == 0 {
                (i == 0 && j == 1) || (i == 1 && j <= 2)
            } else if rot == 1 {
                (j == 1 && i <= 2) || (i == 1 && j == 2)
            } else if rot == 2 {
                (i == 1 && j <= 2) || (i == 2 && j == 1)
            } else {
                (j == 1 && i <= 2) || (i == 1 && j == 0)
            },
            Piece::L => if rot == 0 {
                (i == 0 && j == 2) || (i == 1 && j <= 2)
            } else if rot == 1 {
                (j == 1 && i <= 2) || (i == 2 && j == 2)
            } else if rot == 2 {
                (i == 1 && j <= 2) || (i == 2 && j == 0)
            } else {
                (j == 1 && i <= 2) || (i == 0 && j == 0)
            },
            Piece::J => if rot == 0 {
                (i == 0 && j == 0) || (i == 1 && j <= 2)
            } else if rot == 1 {
                (j == 1 && i <= 2) || (i == 0 && j == 2)
            } else if rot == 2 {
                (i == 1 && j <= 2) || (i == 2 && j == 2)
            } else {
                (j == 1 && i <= 2) || (i == 2 && j == 0)
            },
        }
    }

    /// The locked color of this kind.
    pub open spec fn color_spec(self) -> BoardColor {
        match self {
            Piece::O => BoardColor::Yellow,
            Piece::I => BoardColor::LightBlue,
            Piece::S => BoardColor::Red,
            Piece::Z => BoardColor::Green,
            Piece::T => BoardColor::Purple,
            Piece::L => BoardColor::Orange,
            Piece::J => BoardColor::DarkBlue,
        }
    }

    pub fn color(&self) -> (c: BoardColor)
        ensures
            c == self.color_spec(),
    {
        match self {
            Piece::O => BoardColor::Yellow,
            Piece::I => BoardColor::LightBlue,
            Piece::S => BoardColor::Red,
            Piece::Z => BoardColor::Green,
            Piece::T => BoardColor::Purple,
            Piece::L => BoardColor::Orange,
            Piece::J => BoardColor::DarkBlue,
        }
    }

    /// Wall-kick candidate `idx` for a rotation from state `from` to state
    /// `to`, as a (column offset, row offset) pair. The O piece kicks nowhere;
    /// the I piece has its own asymmetric table; the rest share one table.
    pub open spec fn kick_spec(self, from: int, to: int, idx: int) -> (int, int) {
        match self {
            Piece::O => (0, 0),
            Piece::I => i_kick(from, to, idx),
            _ => normal_kick(from, to, idx),
        }
    }

    /// Executable lookup of one wall-kick candidate.
    pub fn kick(&self, from: u8, to: u8, idx: u8) -> (k: (i32, i32))
        requires
            from < 4,
            to < 4,
            idx < 4,
        ensures
            k.0 == self.kick_spec(from as int, to as int, idx as int).0,
            k.1 == self.kick_spec(from as int, to as int, idx as int).1,
    {
        match self {
            Piece::O => (0, 0),
            Piece::I => {
                if (from == 0 && to == 1) || (from == 3 && to == 2) {
                    if idx == 0 { (-2, 0) } else if idx == 1 { (1, 0) }
                    else if idx == 2 { (-2, -1) } else { (1, 2) }
                } else if (from == 0 && to == 3) || (from == 1 && to == 2) {
                    if idx == 0 { (-1, 0) } else if idx == 1 { (2, 0) }
                    else if idx == 2 { (-1, 2) } else { (2, -1) }
                } else if (from == 1 && to == 0) || (from == 2 && to == 3) {
                    if idx == 0 { (2, 0) } else if idx == 1 { (-1, 0) }
                    else if idx == 2 { (2, 1) } else { (-1, -2) }
                } else if (from == 2 && to == 1) || (from == 3 && to == 0) {
                    if idx == 0 { (1, 0) } else if idx == 1 { (-2, 0) }
                    else if idx == 2 { (1, -2) } else { (-2, 1) }
                } else {
                    (0, 0)
                }
            },
            _ => {
                if (from == 0 || from == 2) && to == 1 {
                    if idx == 0 { (-1, 0) } else if idx == 1 { (-1, 1) }
                    else if idx == 2 { (0, -2) } else { (-1, -2) }
                } else if (from == 0 || from == 2) && to == 3 {
                    if idx == 0 { (1, 0) } else if idx == 1 { (1, 1) }
                    else if idx == 2 { (0, -2) } else { (1, -2) }
                } else if from == 1 && (to == 0 || to == 2) {
                    if idx == 0 { (1, 0) } else if idx == 1 { (1, -1) }
                    else if idx == 2 { (0, 2) } else { (1, 2) }
                } else if from == 3 && (to == 0 || to == 2) {
                    if idx == 0 { (-1, 0) } else if idx == 1 { (-1, -1) }
                    else if idx == 2 { (0, 2) } else { (-1, 2) }
                } else {
                    (0, 0)
                }
            },
        }
    }

    /// A freshly shuffled full bag: each of the seven kinds exactly once,
    /// in uniformly random order.
    pub fn random_bag() -> (bag: Vec<Piece>)
        ensures
            is_full_bag(bag@),
    {
        let mut v: Vec<Piece> = Vec::new();
        v.push(Piece::O);
        v.push(Piece::I);
        v.push(Piece::S);
        v.push(Piece::Z);
        v.push(Piece::T);
        v.push(Piece::L);
        v.push(Piece::J);
        proof {
            assert(v@ =~= seq![
                Piece::O, Piece::I, Piece::S, Piece::Z, Piece::T, Piece::L, Piece::J,
            ]);
            assert forall|k: Piece| kind_count(v@, k) == 1 by {
                reveal_with_fuel(kind_count, 8);
            }
        }
        shuffle_pieces(&mut v);
        v
    }
}

/// Shared wall-kick table of the five kinds other than O and I.
pub open spec fn normal_kick(from: int, to: int, idx: int) -> (int, int) {
    if (from == 0 || from == 2) && to == 1 {
        if idx == 0 { (-1, 0) } else if idx == 1 { (-1, 1) }
        else if idx == 2 { (0, -2) } else { (-1, -2) }
    } else if (from == 0 || from == 2) && to == 3 {
        if idx == 0 { (1, 0) } else if idx == 1 { (1, 1) }
        else if idx == 2 { (0, -2) } else { (1, -2) }
    } else if from == 1 && (to == 0 || to == 2) {
        if idx == 0 { (1, 0) } else if idx == 1 { (1, -1) }
        else if idx == 2 { (0, 2) } else { (1, 2) }
    } else if from == 3 && (to == 0 || to == 2) {
        if idx == 0 { (-1, 0) } else if idx == 1 { (-1, -1) }
        else if idx == 2 { (0, 2) } else { (-1, 2) }
    } else {
        (0, 0)
    }
}

/// Wall-kick table of the I piece.
pub open spec fn i_kick(from: int, to: int, idx: int) -> (int, int) {
    if (from == 0 && to == 1) || (from == 3 && to == 2) {
        if idx == 0 { (-2, 0) } else if idx == 1 { (1, 0) }
        else if idx == 2 { (-2, -1) } else { (1, 2) }
    } else if (from == 0 && to == 3) || (from == 1 && to == 2) {
        if idx == 0 { (-1, 0) } else if idx == 1 { (2, 0) }
        else if idx == 2 { (-1, 2) } else { (2, -1) }
    } else if (from == 1 && to == 0) || (from == 2 && to == 3) {
        if idx == 0 { (2, 0) } else if idx == 1 { (-1, 0) }
        else if idx == 2 { (2, 1) } else { (-1, -2) }
    } else if (from == 2 && to == 1) || (from == 3 && to == 0) {
        if idx == 0 { (1, 0) } else if idx == 1 { (-2, 0) }
        else if idx == 2 { (1, -2) } else { (-2, 1) }
    } else {
        (0, 0)
    }
}

/// How many entries of the sequence are the given kind.
pub open spec fn kind_count(s: Seq<Piece>, k: Piece) -> int
    decreases s.len(),
{
    if s.len() == 0 {
        0
    } else {
        kind_count(s.drop_last(), k) + if s.last() == k { 1int } else { 0int }
    }
}

/// A full bag holds each of the seven kinds exactly once.
pub open spec fn is_full_bag(s: Seq<Piece>) -> bool {
    s.len() == 7 && forall|k: Piece| kind_count(s, k) == 1
}

proof fn lemma_kind_count_nonneg(s: Seq<Piece>, k: Piece)
    ensures
        kind_count(s, k) >= 0,
    decreases s.len(),
{
    if s.len() > 0 {
        lemma_kind_count_nonneg(s.drop_last(), k);
    }
}

proof fn lemma_index_gives_count(s: Seq<Piece>, k: Piece, i: int)
    requires
        0 <= i < s.len(),
        s[i] == k,
    ensures
        kind_count(s, k) >= 1,
    decreases s.len(),
{
    lemma_kind_count_nonneg(s.drop_last(), k);
    if i < s.len() - 1 {
        lemma_index_gives_count(s.drop_last(), k, i);
    }
}

proof fn lemma_count_gives_index(s: Seq<Piece>, k: Piece)
    requires
        kind_count(s, k) >= 1,
    ensures
        exists|i: int| 0 <= i < s.len() && s[i] == k,
    decreases s.len(),
{
    if s.len() > 0 {
        if s.last() == k {
            assert(s[s.len() - 1] == k);
        } else {
            lemma_count_gives_index(s.drop_last(), k);
            let i = choose|i: int| 0 <= i < s.drop_last().len() && s.drop_last()[i] == k;
            assert(s[i] == k);
        }
    }
}

proof fn lemma_two_indices_give_two(s: Seq<Piece>, k: Piece, i: int, j: int)
    requires
        0 <= i < j < s.len(),
        s[i] == k,
        s[j] == k,
    ensures
        kind_count(s, k) >= 2,
    decreases s.len(),
{
    if j == s.len() - 1 {
        lemma_index_gives_count(s.drop_last(), k, i);
    } else {
        lemma_two_indices_give_two(s.drop_last(), k, i, j);
    }
}

/// A full bag — in particular every refill batch appended to the piece
/// queue — holds each of the seven kinds at exactly one position.
pub proof fn lemma_full_bag_each_kind_once(s: Seq<Piece>, k: Piece)
    requires
        is_full_bag(s),
    ensures
        exists|i: int| 0 <= i < s.len() && s[i] == k,
        forall|i: int, j: int| 0 <= i < j < s.len() && s[i] == k ==> s[j] != k,
{
    lemma_count_gives_index(s, k);
    assert forall|i: int, j: int| 0 <= i < j < s.len() && s[i] == k implies s[j] != k by {
        if s[j] == k {
            lemma_two_indices_give_two(s, k, i, j);
        }
    }
}

/// Every shape has at least one occupied cell, whatever the rotation.
pub proof fn lemma_shape_nonempty(p: Piece, rot: int)
    requires
        0 <= rot < 4,
    ensures
        exists|i: int, j: int| 0 <= i < 4 && 0 <= j < 4 && p.shape_cell_spec(rot, i, j),
{
    if p is I {
        if rot == 1 {
            assert(p.shape_cell_spec(rot, 1, 2));
        } else if rot == 2 {
            assert(p.shape_cell_spec(rot, 2, 1));
        } else {
            assert(p.shape_cell_spec(rot, 1, 1));
        }
    } else {
        assert(p.shape_cell_spec(rot, 1, 1));
    }
}

/// Relies on rand's SliceRandom::shuffle (seeded from rand::thread_rng):
/// it reorders the elements of the slice in place by Fisher-Yates swaps,
/// so the length and the per-kind counts are exactly those of the input.
#[verifier::external_body]
fn shuffle_pieces(v: &mut Vec<Piece>)
    ensures
        final(v)@.len() == old(v)@.len(),
        forall|k: Piece| kind_count(final(v)@, k) == kind_count(old(v)@, k),
{
    v.shuffle(&mut rand::thread_rng());
}

} // verus!
