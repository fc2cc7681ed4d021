use crate::game_descriptor::{
    least_x, least_x_is_least, least_y, least_y_is_least, moved, nonnegative, normalizable,
    normalized, normalized_is_nonnegative, normalized_keeps_nonnegative, Coord, DescriptorView,
    GameDescriptor,
};
use vstd::prelude::*;

verus! {

/// A descriptor that is filled by appending: rules and live cells are kept
/// in the order in which they were added, and nothing is removed but by
/// [`DefaultGameDescriptor::clear_rules`].
pub struct DefaultGameDescriptor {
    survival: Vec<u8>,
    birth: Vec<u8>,
    live_cells: Vec<Coord>,
}

impl View for DefaultGameDescriptor {
    type V = DescriptorView;

    closed spec fn view(&self) -> DescriptorView {
        DescriptorView {
            survival: self.survival@,
            birth: self.birth@,
            live_cells: self.live_cells@,
        }
    }
}

impl DefaultGameDescriptor {
    /// A descriptor without rules and without live cells.
    pub fn new() -> (gd: Self)
        ensures
            gd@.survival == Seq::<u8>::empty(),
            gd@.birth == Seq::<u8>::empty(),
            gd@.live_cells == Seq::<Coord>::empty(),
    {
        DefaultGameDescriptor { survival: Vec::new(), birth: Vec::new(), live_cells: Vec::new() }
    }

    /// Appends `value` to the survival rules.
    pub fn add_survival(&mut self, value: u8)
        ensures
            final(self)@ == (DescriptorView {
                survival: old(self)@.survival.push(value),
                ..old(self)@
            }),
    {
        self.survival.push(value);
    }

    /// Appends `value` to the birth rules.
    pub fn add_birth(&mut self, value: u8)
        ensures
            final(self)@ == (DescriptorView { birth: old(self)@.birth.push(value), ..old(self)@ }),
    {
        self.birth.push(value);
    }

    /// Drops all survival and birth rules; the live cells stay.
    pub fn clear_rules(&mut self)
        ensures
            final(self)@ == (DescriptorView {
                survival: Seq::<u8>::empty(),
                birth: Seq::<u8>::empty(),
                ..old(self)@
            }),
    {
        self.survival.clear();
        self.birth.clear();
    }

    /// The least `x` and the least `y` among the live cells and 0.
    fn least(&self) -> (least: (i16, i16))
        ensures
            least.0 == least_x(self@.live_cells),
            least.1 == least_y(self@.live_cells),
    {
        let ghost cells = self.live_cells@;
        let mut min_x: i16 = 0;
        let mut min_y: i16 = 0;
        let mut i: usize = 0;
        while i < self.live_cells.len()
            invariant
                0 <= i <= self.live_cells.len(),
                cells == self.live_cells@,
                min_x == least_x(cells.take(i as int)),
                min_y == least_y(cells.take(i as int)),
            decreases self.live_cells.len() - i,
        {
            let cell = self.live_cells[i];
            assert(cells.take(i + 1).drop_last() == cells.take(i as int));
            if cell.x < min_x {
                min_x = cell.x;
            }
            if cell.y < min_y {
                min_y = cell.y;
            }
            i += 1;
        }
        assert(cells.take(i as int) == cells);
        (min_x, min_y)
    }

    /// Tests whether the live cells can be moved out of the negative: whether
    /// `no_negative_coords` may be called.
    pub fn can_normalize(&self) -> (r: bool)
        ensures
            r == normalizable(self@.live_cells),
    {
        let ghost cells = self.live_cells@;
        let (min_x, min_y) = self.least();
        let mut i: usize = 0;
        while i < self.live_cells.len()
            invariant
                0 <= i <= self.live_cells.len(),
                cells == self.live_cells@,
                min_x == least_x(cells),
                min_y == least_y(cells),
                forall|j: int|
                    0 <= j < i ==> (#[trigger] cells[j]).x - least_x(cells) <= i16::MAX
                        && cells[j].y - least_y(cells) <= i16::MAX,
            decreases self.live_cells.len() - i,
        {
            let cell = self.live_cells[i];
            if cell.x as i32 - min_x as i32 > 32767 || cell.y as i32 - min_y as i32 > 32767 {
                assert(!(cells[i as int].x - least_x(cells) <= i16::MAX && cells[i as int].y
                    - least_y(cells) <= i16::MAX));
                return false;
            }
            i += 1;
        }
        true
    }

    /// Appends the cell at `x`, `y` to the live cells.
    pub fn add_live_cell(&mut self, x: i16, y: i16)
        ensures
            final(self)@ == (DescriptorView {
                live_cells: old(self)@.live_cells.push(Coord { x, y }),
                ..old(self)@
            }),
    {
        self.live_cells.push(Coord { x: x, y: y });
    }
}

impl GameDescriptor for DefaultGameDescriptor {
    fn survival(&self) -> (rules: &[u8]) {
        self.survival.as_slice()
    }

    fn birth(&self) -> (rules: &[u8]) {
        self.birth.as_slice()
    }

    fn live_cells(&self) -> (cells: &[Coord]) {
        self.live_cells.as_slice()
    }

    fn no_negative_coords(&self) -> (shifted: DefaultGameDescriptor) {
        let ghost cells = self.live_cells@;
        let (min_x, min_y) = self.least();

        let mut ret = DefaultGameDescriptor::new();
        let mut k: usize = 0;
        while k < self.survival.len()
            invariant
                0 <= k <= self.survival.len(),
                ret@.survival == self.survival@.take(k as int),
                ret@.birth == Seq::<u8>::empty(),
                ret@.live_cells == Seq::<Coord>::empty(),
            decreases self.survival.len() - k,
        {
            ret.add_survival(self.survival[k]);
            assert(self.survival@.take(k + 1) == self.survival@.take(k as int).push(
                self.survival@[k as int],
            ));
            k += 1;
        }
        assert(self.survival@.take(k as int) == self.survival@);
        k = 0;
        while k < self.birth.len()
            invariant
                0 <= k <= self.birth.len(),
                ret@.survival == self.survival@,
                ret@.birth == self.birth@.take(k as int),
                ret@.live_cells == Seq::<Coord>::empty(),
            decreases self.birth.len() - k,
        {
            ret.add_birth(self.birth[k]);
            assert(self.birth@.take(k + 1) == self.birth@.take(k as int).push(self.birth@[k as int]));
            k += 1;
        }
        assert(self.birth@.take(k as int) == self.birth@);

        proof {
            least_x_is_least(cells);
            least_y_is_least(cells);
        }
        k = 0;
        while k < self.live_cells.len()
            invariant
                0 <= k <= self.live_cells.len(),
                cells == self.live_cells@,
                normalizable(cells),
                min_x == least_x(cells),
                min_y == least_y(cells),
                forall|j: int| 0 <= j < cells.len() ==> min_x <= (#[trigger] cells[j]).x,
                forall|j: int| 0 <= j < cells.len() ==> min_y <= (#[trigger] cells[j]).y,
                ret@.survival == self.survival@,
                ret@.birth == self.birth@,
                ret@.live_cells == normalized(cells).take(k as int),
            decreases self.live_cells.len() - k,
        {
            let cell = self.live_cells[k];
            assert(cells[k as int].x - least_x(cells) <= i16::MAX);
            ret.add_live_cell(cell.x - min_x, cell.y - min_y);
            assert(normalized(cells).take(k + 1) == normalized(cells).take(k as int).push(
                moved(cells[k as int], least_x(cells), least_y(cells)),
            ));
            k += 1;
        }
        assert(normalized(cells).take(k as int) == normalized(cells));
        proof {
            normalized_is_nonnegative(cells);
            if nonnegative(cells) {
                normalized_keeps_nonnegative(cells);
            }
        }
        ret
    }
}

} // verus!
