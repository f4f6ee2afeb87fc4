//! Conway's Game of Life on a grid whose edges wrap around.

use fixedbitset::FixedBitSet;
use vstd::arithmetic::div_mod::{lemma_fundamental_div_mod_converse, lemma_mod_bound};
use vstd::prelude::*;
use vstd::string::StringExecFns;

verus! {

/// `fixedbitset::FixedBitSet`, a set of bits of fixed length. Nothing is
/// known of a value but what the specifications below say of its bits.
#[verifier::external_type_specification]
#[verifier::external_body]
pub struct ExFixedBitSet(FixedBitSet);

/// The bits of a `FixedBitSet`, from bit 0 up to its length.
pub uninterp spec fn contents(set: FixedBitSet) -> Seq<bool>;

/// `FixedBitSet::with_capacity` makes a set of the given length with every
/// bit clear.
pub assume_specification[ FixedBitSet::with_capacity ](bits: usize) -> (set: FixedBitSet)
    ensures
        contents(set) == Seq::new(bits as nat, |i: int| false),
;

/// `FixedBitSet::len` is the number of bits, set or not.
pub assume_specification[ FixedBitSet::len ](set: &FixedBitSet) -> (length: usize)
    ensures
        length == contents(*set).len(),
;

/// `FixedBitSet::contains` reads one bit; a bit beyond the length reads as
/// clear.
pub assume_specification[ FixedBitSet::contains ](set: &FixedBitSet, bit: usize) -> (enabled: bool)
    ensures
        enabled == (bit < contents(*set).len() && contents(*set)[bit as int]),
;

/// `FixedBitSet::set` writes one bit and leaves the others; it panics on a
/// bit beyond the length.
pub assume_specification[ FixedBitSet::set ](set: &mut FixedBitSet, bit: usize, enabled: bool)
    requires
        bit < contents(*old(set)).len(),
    ensures
        contents(*final(set)) == contents(*old(set)).update(bit as int, enabled),
;

/// `FixedBitSet::toggle` inverts one bit and leaves the others; it panics on
/// a bit beyond the length.
pub assume_specification[ FixedBitSet::toggle ](set: &mut FixedBitSet, bit: usize)
    requires
        bit < contents(*old(set)).len(),
    ensures
        contents(*final(set)) == contents(*old(set)).update(
            bit as int,
            !contents(*old(set))[bit as int],
        ),
;

/// Cloning a `FixedBitSet` copies its length and its bits.
pub assume_specification[ <FixedBitSet as Clone>::clone ](set: &FixedBitSet) -> (copy: FixedBitSet)
    ensures
        contents(copy) == contents(*set),
;

/// `FixedBitSet::as_slice` shows the blocks of 32 bits in which the set keeps
/// its bits, lowest bit first.
pub assume_specification[ FixedBitSet::as_slice ](set: &FixedBitSet) -> (blocks: &[u32])
    ensures
        blocks@.len() == (contents(*set).len() + 31) / 32,
        forall|bit: int|
            0 <= bit < contents(*set).len() ==> #[trigger] contents(*set)[bit] == (blocks@[bit
                / 32] & (1u32 << ((bit % 32) as u32)) != 0),
;

/// `fastrand::bool` draws a random boolean from the thread's generator.
pub assume_specification[ fastrand::bool ]() -> bool
;

/// Whether the terminal program is running, paused, or about to leave.
#[derive(Clone, Copy, Debug, PartialEq, Eq, Structural)]
pub enum Status {
    Running,
    Pause,
    Over,
}

/// The keys the terminal program tells apart.
#[derive(Clone, Copy, Debug, PartialEq, Eq, Structural)]
pub enum Key {
    Esc,
    Char(char),
    Other,
}

/// The status after a key press: escape or control-c ends the program, the
/// space bar pauses a running game and resumes any other, every other key
/// changes nothing. `control` tells whether control, and no other modifier,
/// was held.
pub open spec fn status_after(status: Status, key: Key, control: bool) -> Status {
    match key {
        Key::Esc => Status::Over,
        Key::Char(c) => if c == 'c' && control {
            Status::Over
        } else if c == ' ' {
            if status == Status::Running {
                Status::Pause
            } else {
                Status::Running
            }
        } else {
            status
        },
        Key::Other => status,
    }
}

/// Applies a key press to the program's status; the universe is left alone.
pub fn handle_event(world: &mut World, key: Key, control: bool)
    ensures
        final(world).status_now() == status_after(old(world).status_now(), key, control),
        final(world).universe() == old(world).universe(),
        final(world).description() == old(world).description(),
{
    let status = match key {
        Key::Esc => Status::Over,
        Key::Char(c) => {
            if c == 'c' && control {
                Status::Over
            } else if c == ' ' {
                match world.status {
                    Status::Running => Status::Pause,
                    _ => Status::Running,
                }
            } else {
                return ;
            }
        },
        Key::Other => {
            return ;
        },
    };
    world.status = status;
}

/// The rule of the game: a live cell survives with two or three live
/// neighbors, a dead cell comes alive with exactly three.
pub open spec fn survives(alive: bool, neighbors: nat) -> bool {
    if alive {
        neighbors == 2 || neighbors == 3
    } else {
        neighbors == 3
    }
}

/// The three steps that lead to the neighbors along an axis of length
/// `extent`: one back (which wraps around), none, one forward.
pub open spec fn offset(extent: nat, k: int) -> int {
    if k == 0 {
        extent - 1
    } else if k == 1 {
        0
    } else {
        1
    }
}

/// A cell of row `row` and column `column` lies at this place in a grid that
/// is `width` cells wide.
pub proof fn lemma_index(width: int, height: int, row: int, column: int)
    requires
        0 <= row < height,
        0 <= column < width,
    ensures
        0 <= row * width + column < width * height,
        (row * width + column) / width == row,
        (row * width + column) % width == column,
{
    assert(0 <= row * width && row * width + width <= height * width) by (nonlinear_arith)
        requires
            0 <= row,
            row + 1 <= height,
            0 <= width,
    ;
    assert(height * width == width * height) by (nonlinear_arith);
    lemma_fundamental_div_mod_converse(row * width + column, width, row, column);
}

pub struct Universe {
    width: u32,
    height: u32,
    cells: FixedBitSet,
}

impl Universe {
    /// Number of columns.
    pub closed spec fn columns(&self) -> nat {
        self.width as nat
    }

    /// Number of rows.
    pub closed spec fn rows(&self) -> nat {
        self.height as nat
    }

    /// The cells row by row: `true` for a live cell.
    pub closed spec fn grid(&self) -> Seq<bool> {
        contents(self.cells)
    }

    /// The grid holds one cell for each place, and their number fits in 32
    /// bits.
    pub open spec fn wf(&self) -> bool {
        &&& self.grid().len() == self.columns() * self.rows()
        &&& self.columns() * self.rows() <= u32::MAX
    }

    /// Whether the neighbors of every cell can be reached without leaving
    /// the range of 32 bits.
    pub open spec fn can_tick(&self) -> bool {
        self.columns() <= 0x8000_0000 && self.rows() <= 0x8000_0000
    }

    pub open spec fn alive(&self, row: int, column: int) -> bool {
        self.grid()[row * self.columns() + column]
    }

    /// What the neighbor `dr` rows and `dc` columns away adds to the count:
    /// one if it is alive, and nothing if the step leads nowhere.
    pub open spec fn neighbor(&self, row: int, column: int, dr: int, dc: int) -> nat {
        if dr == 0 && dc == 0 {
            0
        } else if self.alive(
            (row + dr) % (self.rows() as int),
            (column + dc) % (self.columns() as int),
        ) {
            1
        } else {
            0
        }
    }

    /// The live cells among the first `n` of the nine steps around a cell.
    pub open spec fn counted(&self, row: int, column: int, n: nat) -> nat
        decreases n,
    {
        if n == 0 {
            0
        } else {
            self.counted(row, column, (n - 1) as nat) + self.neighbor(
                row,
                column,
                offset(self.rows(), (n - 1) / 3),
                offset(self.columns(), (n - 1) % 3),
            )
        }
    }

    /// The number of live cells around a cell, across the edges.
    pub open spec fn live_neighbors(&self, row: int, column: int) -> nat {
        self.counted(row, column, 9)
    }

    /// The universe as text: a row per line, `Q` for a live cell and `-` for
    /// a dead one.
    pub open spec fn text(&self) -> Seq<char> {
        let stride = self.columns() as int + 1;
        Seq::new(
            (stride * self.rows()) as nat,
            |k: int|
                if k % stride == self.columns() {
                    '\n'
                } else if self.alive(k / stride, k % stride) {
                    'Q'
                } else {
                    '-'
                },
        )
    }

    fn get_index(&self, row: u32, column: u32) -> (index: usize)
        requires
            self.wf(),
            row < self.rows(),
            column < self.columns(),
        ensures
            index == row * self.columns() + column,
            index < self.grid().len(),
    {
        proof {
            lemma_index(self.columns() as int, self.rows() as int, row as int, column as int);
            assert(row * self.width <= row * self.width + column);
        }
        (row * self.width + column) as usize
    }

    fn live_neighbor_count(&self, row: u32, column: u32) -> (count: u8)
        requires
            self.wf(),
            self.can_tick(),
            row < self.rows(),
            column < self.columns(),
        ensures
            count == self.live_neighbors(row as int, column as int),
    {
        let mut count: u8 = 0;
        let row_steps: [u32; 3] = [self.height - 1, 0, 1];
        let column_steps: [u32; 3] = [self.width - 1, 0, 1];
        let mut i: usize = 0;
        while i < 3
            invariant
                self.wf(),
                self.can_tick(),
                row < self.rows(),
                column < self.columns(),
                i <= 3,
                count <= 3 * i,
                count == self.counted(row as int, column as int, (3 * i) as nat),
                forall|k: int| 0 <= k < 3 ==> row_steps[k] == offset(self.rows(), k),
                forall|k: int| 0 <= k < 3 ==> column_steps[k] == offset(self.columns(), k),
            decreases 3 - i,
        {
            let delta_row = row_steps[i];
            let mut j: usize = 0;
            while j < 3
                invariant
                    self.wf(),
                    self.can_tick(),
                    row < self.rows(),
                    column < self.columns(),
                    i < 3,
                    j <= 3,
                    count <= 3 * i + j,
                    delta_row == offset(self.rows(), i as int),
                    count == self.counted(row as int, column as int, (3 * i + j) as nat),
                    forall|k: int| 0 <= k < 3 ==> column_steps[k] == offset(self.columns(), k),
                decreases 3 - j,
            {
                let delta_col = column_steps[j];
                assert((3 * i + j) / 3 == i && (3 * i + j) % 3 == j);
                if !(delta_row == 0 && delta_col == 0) {
                    let neighbor_row = (row + delta_row) % self.height;
                    let neighbor_col = (column + delta_col) % self.width;
                    proof {
                        lemma_mod_bound((row + delta_row) as int, self.height as int);
                        lemma_mod_bound((column + delta_col) as int, self.width as int);
                    }
                    let idx = self.get_index(neighbor_row, neighbor_col);
                    if self.cells.contains(idx) {
                        count += 1;
                    }
                }
                j += 1;
            }
            i += 1;
        }
        count
    }

    /// Replaces every generation by the next one.
    pub fn tick(&mut self)
        requires
            old(self).wf(),
            old(self).can_tick(),
        ensures
            final(self).wf(),
            final(self).columns() == old(self).columns(),
            final(self).rows() == old(self).rows(),
            forall|row: int, column: int|
                0 <= row < old(self).rows() && 0 <= column < old(self).columns() ==> (
                #[trigger] final(self).alive(row, column)) == survives(
                    old(self).alive(row, column),
                    old(self).live_neighbors(row, column),
                ),
    {
        let mut next = self.cells.clone();
        let ghost width = self.columns() as int;
        let mut row: u32 = 0;
        while row < self.height
            invariant
                self.wf(),
                self.can_tick(),
                *self == *old(self),
                width == self.columns(),
                row <= self.rows(),
                contents(next).len() == self.grid().len(),
                forall|k: int|
                    0 <= k < row * width ==> #[trigger] contents(next)[k] == survives(
                        self.grid()[k],
                        self.live_neighbors(k / width, k % width),
                    ),
            decreases self.rows() - row,
        {
            let mut col: u32 = 0;
            while col < self.width
                invariant
                    self.wf(),
                    self.can_tick(),
                    *self == *old(self),
                    width == self.columns(),
                    row < self.rows(),
                    col <= self.columns(),
                    contents(next).len() == self.grid().len(),
                    forall|k: int|
                        0 <= k < row * width + col ==> #[trigger] contents(next)[k] == survives(
                            self.grid()[k],
                            self.live_neighbors(k / width, k % width),
                        ),
                decreases self.columns() - col,
            {
                let idx = self.get_index(row, col);
                let cell = self.cells.contains(idx);
                let lives = self.live_neighbor_count(row, col);
                let next_cell = if cell {
                    lives == 2 || lives == 3
                } else {
                    lives == 3
                };
                proof {
                    lemma_index(self.columns() as int, self.rows() as int, row as int, col as int);
                }
                next.set(idx, next_cell);
                col += 1;
            }
            assert(row * width + width == (row + 1) * width) by (nonlinear_arith);
            row += 1;
        }
        self.cells = next;
        proof {
            assert(self.height * width == width * self.height) by (nonlinear_arith);
            assert forall|r: int, c: int|
                0 <= r < old(self).rows() && 0 <= c < old(self).columns() implies #[trigger] self.alive(
                r,
                c,
            ) == survives(old(self).alive(r, c), old(self).live_neighbors(r, c)) by {
                lemma_index(old(self).columns() as int, old(self).rows() as int, r, c);
            }
        }
    }

    /// A universe of `width` by `height` cells, each alive or dead by the
    /// toss of a coin.
    pub fn new(width: u32, height: u32) -> (universe: Universe)
        requires
            width * height <= u32::MAX,
        ensures
            universe.wf(),
            universe.columns() == width,
            universe.rows() == height,
    {
        let size = (width * height) as usize;
        let mut cells = FixedBitSet::with_capacity(size);
        let mut i: usize = 0;
        while i < size
            invariant
                contents(cells).len() == size,
            decreases size - i,
        {
            cells.set(i, fastrand::bool());
            i += 1;
        }
        Universe { width, height, cells }
    }

    /// Writes the universe as text, a row per line.
    pub fn to_string(&self) -> (text: String)
        requires
            self.wf(),
            (self.columns() + 1) * self.rows() <= u32::MAX,
        ensures
            text@ == self.text(),
    {
        let mut text = String::new();
        let ghost stride = self.columns() as int + 1;
        let mut row: u32 = 0;
        while row < self.height
            invariant
                self.wf(),
                stride == self.columns() + 1,
                row <= self.rows(),
                text@.len() == stride * row,
                forall|k: int| 0 <= k < text@.len() ==> #[trigger] text@[k] == self.text()[k],
            decreases self.rows() - row,
        {
            let mut column: u32 = 0;
            while column < self.width
                invariant
                    self.wf(),
                    stride == self.columns() + 1,
                    row < self.rows(),
                    column <= self.columns(),
                    text@.len() == stride * row + column,
                    forall|k: int| 0 <= k < text@.len() ==> #[trigger] text@[k] == self.text()[k],
                decreases self.columns() - column,
            {
                let idx = self.get_index(row, column);
                proof {
                    reveal_strlit("Q");
                    reveal_strlit("-");
                    lemma_index(stride, self.rows() as int, row as int, column as int);
                    assert(row * stride == stride * row) by (nonlinear_arith);
                }
                if self.cells.contains(idx) {
                    text.append("Q");
                } else {
                    text.append("-");
                }
                column += 1;
            }
            proof {
                reveal_strlit("\n");
                lemma_index(stride, self.rows() as int, row as int, self.columns() as int);
                assert(row * stride == stride * row) by (nonlinear_arith);
                assert(stride * row + stride == stride * (row + 1)) by (nonlinear_arith);
            }
            text.append("\n");
            row += 1;
        }
        assert(text@ =~= self.text());
        text
    }

    /// The blocks of 32 cells in which the universe is stored.
    pub fn get_cells(&self) -> (blocks: &[u32])
        ensures
            blocks@.len() == (self.grid().len() + 31) / 32,
            forall|bit: int|
                0 <= bit < self.grid().len() ==> #[trigger] self.grid()[bit] == (blocks@[bit / 32]
                    & (1u32 << ((bit % 32) as u32)) != 0),
    {
        self.cells.as_slice()
    }

    /// Makes exactly the listed cells alive. Each cell is given as its row and
    /// its column.
    pub fn set_cells(&mut self, cells: &[(u32, u32)])
        requires
            old(self).wf(),
            forall|i: int|
                0 <= i < cells@.len() ==> (#[trigger] cells@[i]).0 < old(self).rows() && cells@[i].1
                    < old(self).columns(),
        ensures
            final(self).wf(),
            final(self).columns() == old(self).columns(),
            final(self).rows() == old(self).rows(),
            forall|row: int, column: int|
                0 <= row < old(self).rows() && 0 <= column < old(self).columns() ==> (
                #[trigger] final(self).alive(row, column) <==> exists|i: int|
                    0 <= i < cells@.len() && #[trigger] cells@[i] == (row as u32, column as u32)),
    {
        let ghost width = self.columns() as int;
        let ghost height = self.rows() as int;
        let size = self.cells.len();
        let mut i: usize = 0;
        while i < size
            invariant
                self.wf(),
                self.columns() == width,
                self.rows() == height,
                size == self.grid().len(),
                i <= size,
                forall|k: int| 0 <= k < i ==> !(#[trigger] self.grid()[k]),
            decreases size - i,
        {
            self.cells.set(i, false);
            i += 1;
        }
        let mut j: usize = 0;
        while j < cells.len()
            invariant
                self.wf(),
                self.columns() == width,
                self.rows() == height,
                j <= cells@.len(),
                forall|i: int|
                    0 <= i < cells@.len() ==> (#[trigger] cells@[i]).0 < height && cells@[i].1
                        < width,
                forall|k: int|
                    0 <= k < self.grid().len() ==> (#[trigger] self.grid()[k] <==> exists|i: int|
                        0 <= i < j && (#[trigger] cells@[i]).0 * width + cells@[i].1 == k),
            decreases cells@.len() - j,
        {
            let (row, col) = cells[j];
            assert(cells@[j as int].0 == row && cells@[j as int].1 == col);
            let idx = self.get_index(row, col);
            let ghost before = self.grid();
            self.cells.set(idx, true);
            proof {
                assert forall|k: int| 0 <= k < self.grid().len() implies (
                #[trigger] self.grid()[k] <==> exists|i: int|
                    0 <= i < j + 1 && (#[trigger] cells@[i]).0 * width + cells@[i].1 == k) by {
                    if k == idx {
                        assert(cells@[j as int].0 * width + cells@[j as int].1 == k);
                    } else if before[k] {
                        let i = choose|i: int|
                            0 <= i < j && (#[trigger] cells@[i]).0 * width + cells@[i].1 == k;
                        assert(0 <= i < j + 1);
                    } else {
                        if exists|i: int|
                            0 <= i < j + 1 && (#[trigger] cells@[i]).0 * width + cells@[i].1 == k {
                            let i = choose|i: int|
                                0 <= i < j + 1 && (#[trigger] cells@[i]).0 * width + cells@[i].1
                                    == k;
                            assert(i < j);
                        }
                    }
                }
            }
            j += 1;
        }
        proof {
            assert forall|row: int, column: int|
                0 <= row < height && 0 <= column < width implies (#[trigger] self.alive(row, column)
                <==> exists|i: int|
                0 <= i < cells@.len() && #[trigger] cells@[i] == (row as u32, column as u32)) by {
                lemma_index(width, height, row, column);
                let k = row * width + column;
                if self.grid()[k] {
                    let i = choose|i: int|
                        0 <= i < j && (#[trigger] cells@[i]).0 * width + cells@[i].1 == k;
                    lemma_index(width, height, cells@[i].0 as int, cells@[i].1 as int);
                    assert(cells@[i] == (row as u32, column as u32));
                }
                if exists|i: int|
                    0 <= i < cells@.len() && #[trigger] cells@[i] == (row as u32, column as u32) {
                    let i = choose|i: int|
                        0 <= i < cells@.len() && #[trigger] cells@[i] == (
                            row as u32,
                            column as u32,
                        );
                    assert(cells@[i].0 * width + cells@[i].1 == k);
                }
            }
        }
    }

    /// Turns a live cell dead and a dead cell alive.
    pub fn toggle_cell(&mut self, row: u32, column: u32)
        requires
            old(self).wf(),
            row < old(self).rows(),
            column < old(self).columns(),
        ensures
            final(self).wf(),
            final(self).columns() == old(self).columns(),
            final(self).rows() == old(self).rows(),
            final(self).grid() == old(self).grid().update(
                row * old(self).columns() + column,
                !old(self).alive(row as int, column as int),
            ),
    {
        let index = self.get_index(row, column);
        self.cells.toggle(index);
    }
}

/// The terminal program: a universe with a line of help above it.
pub struct World {
    description: &'static str,
    status: Status,
    universe: Universe,
}

impl World {
    pub closed spec fn description(&self) -> Seq<char> {
        self.description@
    }

    pub closed spec fn status_now(&self) -> Status {
        self.status
    }

    pub closed spec fn universe(&self) -> Universe {
        self.universe
    }

    /// The universe is sound, small enough to be stepped, and small enough
    /// to be written as text.
    pub open spec fn wf(&self) -> bool {
        &&& self.universe().wf()
        &&& self.universe().can_tick()
        &&& (self.universe().columns() + 1) * self.universe().rows() <= u32::MAX
    }

    /// What the screen shows: the description, an empty line, the universe.
    pub open spec fn screen(&self) -> Seq<char> {
        self.description() + seq!['\n', '\n'] + self.universe().text()
    }

    /// A running program for a terminal of `cols` columns and `rows` rows.
    /// A cell takes two columns, and three rows are left free.
    pub fn new(cols: u16, rows: u16) -> (world: Self)
        requires
            rows >= 3,
        ensures
            world.wf(),
            world.status_now() == Status::Running,
            world.description() == "Space for pause, Esc and Ctrl + c for exit"@,
            world.universe().columns() == cols / 2,
            world.universe().rows() == rows - 3,
    {
        let (width, height) = (cols as u32, rows as u32);
        assert((width / 2) * (height - 3) <= u32::MAX && (width / 2 + 1) * (height - 3)
            <= u32::MAX) by (nonlinear_arith)
            requires
                width <= 0xffff,
                3 <= height <= 0xffff,
        ;
        World {
            description: "Space for pause, Esc and Ctrl + c for exit",
            status: Status::Running,
            universe: Universe::new(width / 2, height - 3),
        }
    }

    pub fn status(&self) -> (status: Status)
        ensures
            status == self.status_now(),
    {
        self.status
    }

    /// Steps the universe by one generation and writes the screen.
    pub fn render(&mut self) -> (screen: String)
        requires
            old(self).wf(),
        ensures
            final(self).wf(),
            final(self).status_now() == old(self).status_now(),
            final(self).description() == old(self).description(),
            final(self).universe().columns() == old(self).universe().columns(),
            final(self).universe().rows() == old(self).universe().rows(),
            forall|row: int, column: int|
                (0 <= row < old(self).universe().rows() && 0 <= column < old(self).universe().columns())
                    ==> (#[trigger] final(self).universe().alive(row, column)) == survives(
                    old(self).universe().alive(row, column),
                    old(self).universe().live_neighbors(row, column),
                ),
            screen@ == final(self).screen(),
    {
        self.universe.tick();
        self.to_string()
    }

    /// Writes the screen.
    pub fn to_string(&self) -> (screen: String)
        requires
            self.wf(),
        ensures
            screen@ == self.screen(),
    {
        proof {
            reveal_strlit("\n\n");
        }
        let mut screen = String::from_str(self.description);
        screen.append("\n\n");
        let universe = self.universe.to_string();
        screen.append(universe.as_str());
        assert(screen@ =~= self.screen());
        screen
    }
}

} // verus!
