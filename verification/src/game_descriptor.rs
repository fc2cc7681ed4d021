use crate::default_game_descriptor::DefaultGameDescriptor;
use vstd::prelude::*;

verus! {

/// Represents the coordinates of cells.
#[derive(Debug, Clone, Copy, PartialEq, Eq, Structural)]
pub struct Coord {
    pub x: i16,
    pub y: i16,
}

/// What a descriptor holds: the neighbour counts at which a live cell stays
/// alive, those at which a dead cell comes to life, and the cells alive at
/// the start, each in the order in which it was added.
pub struct DescriptorView {
    pub survival: Seq<u8>,
    pub birth: Seq<u8>,
    pub live_cells: Seq<Coord>,
}

/// The least `x` among `cells` and 0.
pub open spec fn least_x(cells: Seq<Coord>) -> int
    decreases cells.len(),
{
    if cells.len() == 0 {
        0
    } else {
        let rest = least_x(cells.drop_last());
        if cells.last().x < rest {
            cells.last().x as int
        } else {
            rest
        }
    }
}

/// The least `y` among `cells` and 0.
pub open spec fn least_y(cells: Seq<Coord>) -> int
    decreases cells.len(),
{
    if cells.len() == 0 {
        0
    } else {
        let rest = least_y(cells.drop_last());
        if cells.last().y < rest {
            cells.last().y as int
        } else {
            rest
        }
    }
}

/// `cell` moved by `-dx` and `-dy`.
pub open spec fn moved(cell: Coord, dx: int, dy: int) -> Coord {
    Coord { x: (cell.x - dx) as i16, y: (cell.y - dy) as i16 }
}

/// Whether every cell, moved so that the least coordinate on each axis
/// becomes 0 where it was negative, still fits into 16 bits with sign.
pub open spec fn normalizable(cells: Seq<Coord>) -> bool {
    forall|i: int|
        0 <= i < cells.len() ==> (#[trigger] cells[i]).x - least_x(cells) <= i16::MAX
            && cells[i].y - least_y(cells) <= i16::MAX
}

/// `cells`, each moved by the least `x` and the least `y`, in the same order.
pub open spec fn normalized(cells: Seq<Coord>) -> Seq<Coord> {
    Seq::new(cells.len(), |i: int| moved(cells[i], least_x(cells), least_y(cells)))
}

/// Whether no cell has a negative coordinate.
pub open spec fn nonnegative(cells: Seq<Coord>) -> bool {
    forall|i: int| 0 <= i < cells.len() ==> (#[trigger] cells[i]).x >= 0 && cells[i].y >= 0
}

/// `least_x` is at most 0, at least the smallest 16-bit number, no greater
/// than any `x`, and is 0 or the `x` of some cell.
pub proof fn least_x_is_least(cells: Seq<Coord>)
    ensures
        i16::MIN <= least_x(cells) <= 0,
        forall|i: int| 0 <= i < cells.len() ==> least_x(cells) <= (#[trigger] cells[i]).x,
        least_x(cells) == 0 || exists|i: int|
            0 <= i < cells.len() && (#[trigger] cells[i]).x == least_x(cells),
    decreases cells.len(),
{
    if cells.len() > 0 {
        let front = cells.drop_last();
        least_x_is_least(front);
        assert forall|i: int| 0 <= i < cells.len() implies least_x(cells) <= (
        #[trigger] cells[i]).x by {
            if i < front.len() {
                assert(front[i] == cells[i]);
            }
        }
        if least_x(cells) != 0 {
            if cells.last().x < least_x(front) {
                assert(cells[cells.len() - 1].x == least_x(cells));
            } else {
                let i = choose|i: int| 0 <= i < front.len() && (#[trigger] front[i]).x == least_x(front);
                assert(cells[i].x == least_x(cells));
            }
        }
    }
}

/// `least_y` is at most 0, at least the smallest 16-bit number, no greater
/// than any `y`, and is 0 or the `y` of some cell.
pub proof fn least_y_is_least(cells: Seq<Coord>)
    ensures
        i16::MIN <= least_y(cells) <= 0,
        forall|i: int| 0 <= i < cells.len() ==> least_y(cells) <= (#[trigger] cells[i]).y,
        least_y(cells) == 0 || exists|i: int|
            0 <= i < cells.len() && (#[trigger] cells[i]).y == least_y(cells),
    decreases cells.len(),
{
    if cells.len() > 0 {
        let front = cells.drop_last();
        least_y_is_least(front);
        assert forall|i: int| 0 <= i < cells.len() implies least_y(cells) <= (
        #[trigger] cells[i]).y by {
            if i < front.len() {
                assert(front[i] == cells[i]);
            }
        }
        if least_y(cells) != 0 {
            if cells.last().y < least_y(front) {
                assert(cells[cells.len() - 1].y == least_y(cells));
            } else {
                let i = choose|i: int| 0 <= i < front.len() && (#[trigger] front[i]).y == least_y(front);
                assert(cells[i].y == least_y(cells));
            }
        }
    }
}

/// Normalizing keeps the number of cells, and leaves no negative coordinate.
pub proof fn normalized_is_nonnegative(cells: Seq<Coord>)
    requires
        normalizable(cells),
    ensures
        normalized(cells).len() == cells.len(),
        nonnegative(normalized(cells)),
{
    least_x_is_least(cells);
    least_y_is_least(cells);
    assert forall|i: int| 0 <= i < cells.len() implies (#[trigger] normalized(cells)[i]).x >= 0
        && normalized(cells)[i].y >= 0 by {
        assert(cells[i].x - least_x(cells) <= i16::MAX);
    }
}

/// Normalizing keeps the order of the cells and how they lie to each other:
/// every cell is moved by the same amount.
pub proof fn normalized_keeps_geometry(cells: Seq<Coord>, i: int, j: int)
    requires
        normalizable(cells),
        0 <= i < cells.len(),
        0 <= j < cells.len(),
    ensures
        normalized(cells)[i] == moved(cells[i], least_x(cells), least_y(cells)),
        normalized(cells)[i].x - normalized(cells)[j].x == cells[i].x - cells[j].x,
        normalized(cells)[i].y - normalized(cells)[j].y == cells[i].y - cells[j].y,
{
    least_x_is_least(cells);
    least_y_is_least(cells);
    assert(cells[i].x - least_x(cells) <= i16::MAX);
    assert(cells[j].x - least_x(cells) <= i16::MAX);
}

/// Cells without a negative coordinate can be normalized, and normalizing
/// them changes nothing.
pub proof fn normalized_keeps_nonnegative(cells: Seq<Coord>)
    requires
        nonnegative(cells),
    ensures
        least_x(cells) == 0,
        least_y(cells) == 0,
        normalizable(cells),
        normalized(cells) == cells,
{
    least_x_is_least(cells);
    least_y_is_least(cells);
    assert(normalized(cells) =~= cells);
}

/// Describes the initial state of a Game of Life.
pub trait GameDescriptor: View<V = DescriptorView> {
    /// Get the survival rules. Logically, this can contain up to 8 digits in
    /// the range [1,8].
    fn survival(&self) -> (rules: &[u8])
        ensures
            rules@ == self@.survival,
    ;

    /// Get the birth rules. Logically, this can contain up to 8 digits in the
    /// range [1,8].
    fn birth(&self) -> (rules: &[u8])
        ensures
            rules@ == self@.birth,
    ;

    /// Get the living cells. Coordinates can be negative, depending on the
    /// input file.
    fn live_cells(&self) -> (cells: &[Coord])
        ensures
            cells@ == self@.live_cells,
    ;

    /// Copy this `GameDescriptor`, adjusting for negative coordinates in the
    /// living cells: on each axis on which a coordinate is negative, every
    /// cell is moved by the least coordinate. The copy has the same rules
    /// and no negative coordinate; where there was none, its cells are those
    /// of `self`.
    fn no_negative_coords(&self) -> (shifted: DefaultGameDescriptor)
        requires
            normalizable(self@.live_cells),
        ensures
            shifted@.survival == self@.survival,
            shifted@.birth == self@.birth,
            shifted@.live_cells == normalized(self@.live_cells),
            shifted@.live_cells.len() == self@.live_cells.len(),
            nonnegative(shifted@.live_cells),
            nonnegative(self@.live_cells) ==> shifted@.live_cells == self@.live_cells,
    ;
}

} // verus!
