use vstd::prelude::*;
use vstd::string::StringExecFns;
use crate::board::{blank, board_of, rectangular, Board};
use crate::laws::{law_step_is_judge_then_settle, law_steps_keep_size};
use crate::node::{Node, Position};

verus! {

/// A board of fixed size that owns its cells.
#[derive(Debug)]
pub struct Grid {
    width: usize,
    height: usize,
    map: Vec<Vec<Node>>,
}

impl View for Grid {
    type V = Board;

    closed spec fn view(&self) -> Board {
        Board {
            width: self.width as nat,
            height: self.height as nat,
            cells: Seq::new(self.map@.len(), |r: int| self.map@[r]@),
        }
    }
}

/// `x + d - 1` where that is a `usize`: the coordinate next to `x` for `d`
/// in 0, 1, 2 standing for before, at and after.
fn shifted(x: usize, d: usize) -> (out: Option<usize>)
    requires
        d <= 2,
    ensures
        out is Some <==> 0 <= x + d - 1 <= usize::MAX,
        out matches Some(y) ==> y == x + d - 1,
{
    if d == 0 {
        if x == 0 {
            None
        } else {
            Some(x - 1)
        }
    } else {
        x.checked_add(d - 1)
    }
}

/// What the `k`-th place of the three by three window around `(r, c)` adds
/// to the count of living neighbours; the middle place adds nothing.
spec fn window_term(board: Board, r: int, c: int, k: int) -> nat {
    if k == 4 {
        0
    } else {
        board.live(r + k / 3 - 1, c + k % 3 - 1)
    }
}

/// The living neighbours of `(r, c)` among the first `k` places of the
/// window, taken row by row.
spec fn window_sum(board: Board, r: int, c: int, k: int) -> nat
    decreases k,
{
    if k <= 0 {
        0
    } else {
        window_sum(board, r, c, k - 1) + window_term(board, r, c, k - 1)
    }
}

proof fn lemma_window_is_neighbourhood(board: Board, r: int, c: int)
    ensures
        window_sum(board, r, c, 9) == board.live_neighbours(r, c),
{
    reveal_with_fuel(window_sum, 10);
}

/// Whether `now` is of one size with `done` and `todo` and holds the cells
/// of `done` at the places that come before `(i, j)`, row by row, and the
/// cells of `todo` from there on.
spec fn spliced(now: Board, done: Board, todo: Board, i: int, j: int) -> bool {
    &&& now.wf()
    &&& now.width == todo.width && now.height == todo.height
    &&& done.width == todo.width && done.height == todo.height
    &&& forall|r: int, c: int|
        #![trigger now.cells[r][c]]
        now.contains(r, c) ==> now.cells[r][c] == if r < i || (r == i && c < j) {
            done.cells[r][c]
        } else {
            todo.cells[r][c]
        }
}

/// Part way through the evaluation pass every cell still has the status it
/// had before it, and so every place has as many living neighbours.
proof fn lemma_same_status_same_neighbours(now: Board, before: Board, r: int, c: int)
    requires
        exists|i: int, j: int| spliced(now, before.judged(), before, i, j),
    ensures
        now.live_neighbours(r, c) == before.live_neighbours(r, c),
{
    assert forall|x: int, y: int| now.live(x, y) == before.live(x, y) by {
        if now.contains(x, y) {
            assert(now.cells[x][y].is_alive == before.cells[x][y].is_alive);
        }
    }
}

/// The rows of a matrix of cells, each as a sequence.
pub open spec fn rows_of(map: &Vec<Vec<Node>>) -> Seq<Seq<Node>> {
    Seq::new(map@.len(), |r: int| map@[r]@)
}

/// On a board whose cells can be counted in a `usize`, so can the place of
/// each of them.
proof fn lemma_flat_index_fits(board: Board, r: int, c: int)
    requires
        board.contains(r, c),
        board.width * board.height <= usize::MAX,
    ensures
        board.flat_index(r, c) == r * board.width + c,
        board.flat_index(r, c) < board.width * board.height,
{
    assert(r * board.width + c < board.width * board.height) by (nonlinear_arith)
        requires
            0 <= r < board.height,
            0 <= c < board.width,
    ;
    assert(0 <= r * board.width) by (nonlinear_arith)
        requires
            0 <= r,
    ;
}

impl Grid {
    /// The grid's rows are as many as its height and as long as its width.
    pub open spec fn wf(&self) -> bool {
        self@.wf()
    }

    /// A grid of `height` rows and `width` columns of dead cells, each of
    /// which knows its own place. Either dimension may be zero.
    pub fn new(width: usize, height: usize) -> (grid: Grid)
        ensures
            grid.wf(),
            grid@ == blank(width as nat, height as nat),
    {
        let mut map: Vec<Vec<Node>> = Vec::new();
        let mut i: usize = 0;
        while i < height
            invariant
                i <= height,
                map@.len() == i,
                forall|r: int| 0 <= r < i ==> (#[trigger] map@[r])@ == blank(width as nat, height as nat).cells[r],
            decreases height - i,
        {
            let mut row: Vec<Node> = Vec::new();
            let mut j: usize = 0;
            while j < width
                invariant
                    i < height,
                    j <= width,
                    row@.len() == j,
                    forall|c: int| 0 <= c < j ==> #[trigger] row@[c] == blank(width as nat, height as nat).cells[i as int][c],
                decreases width - j,
            {
                row.push(Node::new(false, (i, j)));
                j += 1;
            }
            map.push(row);
            i += 1;
        }
        let grid = Grid { width, height, map };
        assert(grid@.cells =~= blank(width as nat, height as nat).cells);
        grid
    }

    /// Hands every cell to `mod_func`, row by row and within a row from
    /// the first column on, together with the cell's place in that order.
    /// `mod_func` may change the cell as it likes; the grid keeps its size.
    pub fn modify<F>(&mut self, mod_func: F) where F: Fn((usize, &mut Node)) -> ()
        requires
            old(self).wf(),
            old(self)@.width * old(self)@.height <= usize::MAX,
            forall|r: int, c: int, cell: &mut Node|
                old(self)@.contains(r, c) && *cell == old(self)@.cell(r, c) ==> #[trigger] call_requires(
                    mod_func,
                    ((old(self)@.flat_index(r, c), cell),),
                ),
        ensures
            final(self).wf(),
            final(self)@.width == old(self)@.width,
            final(self)@.height == old(self)@.height,
            forall|r: int, c: int|
                #![trigger old(self)@.contains(r, c)]
                #![trigger final(self)@.cell(r, c)]
                old(self)@.contains(r, c) ==> exists|cell: &mut Node|
                    {
                        &&& *cell == old(self)@.cell(r, c)
                        &&& *final(cell) == final(self)@.cell(r, c)
                        &&& #[trigger] call_ensures(
                            mod_func,
                            ((old(self)@.flat_index(r, c), cell),),
                            (),
                        )
                    },
    {
        let ghost before = self@;
        let mut index: usize = 0;
        let mut i: usize = 0;
        while i < self.height
            invariant
                self.wf(),
                before == old(self)@,
                self@.width == before.width,
                self@.height == before.height,
                before.width * before.height <= usize::MAX,
                i <= self.height,
                index == i * self.width,
                forall|r: int, c: int, cell: &mut Node|
                    before.contains(r, c) && *cell == before.cell(r, c) ==> #[trigger] call_requires(
                        mod_func,
                        ((before.flat_index(r, c), cell),),
                    ),
                forall|r: int, c: int|
                    #![trigger before.contains(r, c)]
                    before.contains(r, c) && r >= i ==> self@.cell(r, c) == before.cell(r, c),
                forall|r: int, c: int|
                    #![trigger before.contains(r, c)]
                    before.contains(r, c) && r < i ==> exists|cell: &mut Node|
                        {
                            &&& *cell == before.cell(r, c)
                            &&& *final(cell) == self@.cell(r, c)
                            &&& #[trigger] call_ensures(mod_func, ((before.flat_index(r, c), cell),), ())
                        },
            decreases self.height - i,
        {
            let mut j: usize = 0;
            while j < self.width
                invariant
                    self.wf(),
                    before == old(self)@,
                    self@.width == before.width,
                    self@.height == before.height,
                    before.width * before.height <= usize::MAX,
                    i < self.height,
                    j <= self.width,
                    index == i * self.width + j,
                    forall|r: int, c: int, cell: &mut Node|
                        before.contains(r, c) && *cell == before.cell(r, c) ==> #[trigger] call_requires(
                            mod_func,
                            ((before.flat_index(r, c), cell),),
                        ),
                    forall|r: int, c: int|
                        #![trigger before.contains(r, c)]
                        before.contains(r, c) && (r > i || (r == i && c >= j)) ==> self@.cell(r, c)
                            == before.cell(r, c),
                    forall|r: int, c: int|
                        #![trigger before.contains(r, c)]
                        before.contains(r, c) && (r < i || (r == i && c < j)) ==> exists|cell: &mut Node|
                            {
                                &&& *cell == before.cell(r, c)
                                &&& *final(cell) == self@.cell(r, c)
                                &&& #[trigger] call_ensures(
                                    mod_func,
                                    ((before.flat_index(r, c), cell),),
                                    (),
                                )
                            },
                decreases self.width - j,
            {
                proof {
                    lemma_flat_index_fits(before, i as int, j as int);
                }
                let ghost row = self@.cells[i as int];
                let ghost earlier = self@;
                mod_func((index, &mut self.map[i][j]));
                proof {
                    assert(self@.cells == earlier.cells.update(
                        i as int,
                        row.update(j as int, self@.cells[i as int][j as int]),
                    ));
                }
                index += 1;
                j += 1;
            }
            proof {
                assert((i + 1) * self.width == i * self.width + self.width) by (nonlinear_arith);
            }
            i += 1;
        }
    }

    /// Replaces the whole grid by a copy of `map`, provided that all rows
    /// of `map` are equally long; the grid then takes its size from `map`.
    /// Where the rows differ in length the grid is left as it was and the
    /// result is `false`.
    pub fn load_map(&mut self, map: &Vec<Vec<Node>>) -> (loaded: bool)
        ensures
            loaded == rectangular(rows_of(map)),
            loaded ==> final(self).wf() && final(self)@ == board_of(rows_of(map)),
            !loaded ==> *final(self) == *old(self),
    {
        let height = map.len();
        let width = if height == 0 {
            0
        } else {
            map[0].len()
        };
        let mut i: usize = 1;
        while i < height
            invariant
                height == map@.len(),
                height > 0 ==> width == map@[0]@.len(),
                1 <= i,
                *self == *old(self),
                forall|r: int| 0 <= r < i && r < height ==> (#[trigger] rows_of(map)[r]).len() == width,
            decreases height - i,
        {
            if width != map[i].len() {
                assert(rows_of(map)[i as int].len() != rows_of(map)[0].len());
                return false;
            }
            i += 1;
        }
        let mut copy: Vec<Vec<Node>> = Vec::new();
        let mut i: usize = 0;
        while i < height
            invariant
                height == map@.len(),
                i <= height,
                copy@.len() == i,
                forall|r: int| 0 <= r < i ==> (#[trigger] copy@[r])@ == map@[r]@,
            decreases height - i,
        {
            let source = &map[i];
            let mut row: Vec<Node> = Vec::new();
            let mut j: usize = 0;
            while j < source.len()
                invariant
                    j <= source@.len(),
                    row@.len() == j,
                    forall|c: int| 0 <= c < j ==> #[trigger] row@[c] == source@[c],
                decreases source@.len() - j,
            {
                row.push(source[j]);
                j += 1;
            }
            copy.push(row);
            i += 1;
        }
        self.width = width;
        self.height = height;
        self.map = copy;
        assert(self@.cells =~= rows_of(map));
        true
    }

    /// The number of columns.
    pub fn width(&self) -> (width: usize)
        ensures
            width == self@.width,
    {
        self.width
    }

    /// The number of rows.
    pub fn height(&self) -> (height: usize)
        ensures
            height == self@.height,
    {
        self.height
    }

    /// The cell at `position`, to read or to change, or nothing where
    /// `position` lies beyond the grid. Whatever the caller makes of the
    /// cell is what the grid holds at `position` afterwards; nothing else
    /// changes.
    pub fn node_ref(&mut self, position: Position) -> (node: Option<&mut Node>)
        requires
            old(self).wf(),
        ensures
            node is Some <==> old(self)@.contains(position.0 as int, position.1 as int),
            node is None ==> *final(self) == *old(self),
            node matches Some(cell) ==> {
                &&& *cell == old(self)@.cell(position.0 as int, position.1 as int)
                &&& final(self).wf()
                &&& final(self)@ == old(self)@.put(position.0 as int, position.1 as int, *final(cell))
            },
    {
        if position.0 >= self.height || position.1 >= self.width {
            None
        } else {
            let ghost before = self@;
            let cell = &mut self.map[position.0][position.1];
            proof {
                assert(after_borrow(self)@.cells =~= before.put(
                    position.0 as int,
                    position.1 as int,
                    *final(cell),
                ).cells);
            }
            Some(cell)
        }
    }

    /// Replaces the cell at `position` by `node`. Where `position` lies
    /// beyond the grid nothing changes and the result is `false`.
    pub fn set_node(&mut self, position: Position, node: Node) -> (replaced: bool)
        requires
            old(self).wf(),
        ensures
            final(self).wf(),
            replaced == old(self)@.contains(position.0 as int, position.1 as int),
            replaced ==> final(self)@ == old(self)@.put(position.0 as int, position.1 as int, node),
            !replaced ==> *final(self) == *old(self),
    {
        if let Some(r) = self.node_ref(position) {
            *r = node;
            true
        } else {
            false
        }
    }

    /// Advances the grid by `num_iter` generations, one after the other,
    /// and hands out its rows of cells as they then stand.
    pub fn step_iterations(&mut self, num_iter: usize) -> (map: &Vec<Vec<Node>>)
        requires
            old(self).wf(),
        ensures
            final(self).wf(),
            final(self)@.width == old(self)@.width,
            final(self)@.height == old(self)@.height,
            final(self)@ == old(self)@.steps(num_iter as nat),
            rows_of(map) == final(self)@.cells,
    {
        proof {
            law_steps_keep_size(self@, num_iter as nat);
        }
        let mut done: usize = 0;
        while done < num_iter
            invariant
                done <= num_iter,
                self.wf(),
                self@ == old(self)@.steps(done as nat),
            decreases num_iter - done,
        {
            self.update();
            done += 1;
        }
        &self.map
    }

    /// Whether `position` names a cell of the grid that is alive.
    pub fn is_alive(&self, position: Position) -> (alive: bool)
        requires
            self.wf(),
        ensures
            alive == self@.alive(position.0 as int, position.1 as int),
    {
        if position.0 < self.height && position.1 < self.width {
            assert(self@.cells[position.0 as int].len() == self.width);
            self.map[position.0][position.1].is_alive
        } else {
            false
        }
    }

    /// The grid as text, row after row: for each row a line break and then
    /// the glyph of every cell of the row, column by column.
    pub fn render(&self) -> (text: String)
        requires
            self.wf(),
        ensures
            text@ == self@.text(),
    {
        let mut text = String::new();
        let mut i: usize = 0;
        while i < self.height
            invariant
                self.wf(),
                i <= self.height,
                text@ == self@.lines(i as nat),
            decreases self.height - i,
        {
            if self.width > 0 {
                proof {
                    reveal_strlit("\n");
                }
                text.append("\n");
                let mut j: usize = 0;
                while j < self.width
                    invariant
                        self.wf(),
                        i < self.height,
                        j <= self.width,
                        text@ == self@.lines(i as nat) + seq!['\n'] + Seq::new(
                            j as nat,
                            |c: int| self@.cells[i as int][c].glyph(),
                        ),
                    decreases self.width - j,
                {
                    let glyph = self.map[i][j].char();
                    text.append(glyph.as_str());
                    j += 1;
                }
            }
            i += 1;
        }
        text
    }

    /// Counts the living cells among the up to eight cells around
    /// `position`. Places beyond the edge hold no cell and count for
    /// nothing.
    pub fn alive_neighbours(&self, position: Position) -> (count: usize)
        requires
            self.wf(),
        ensures
            count == self@.live_neighbours(position.0 as int, position.1 as int),
            count <= self@.candidate_neighbours(position.0 as int, position.1 as int),
    {
        let ghost r = position.0 as int;
        let ghost c = position.1 as int;
        let mut count: usize = 0;
        let mut di: usize = 0;
        while di < 3
            invariant
                self.wf(),
                r == position.0,
                c == position.1,
                di <= 3,
                count == window_sum(self@, r, c, 3 * di),
                count <= 3 * di,
            decreases 3 - di,
        {
            let mut dj: usize = 0;
            while dj < 3
                invariant
                    self.wf(),
                    r == position.0,
                    c == position.1,
                    di < 3,
                    dj <= 3,
                    count == window_sum(self@, r, c, 3 * di + dj),
                    count <= 3 * di + dj,
                decreases 3 - dj,
            {
                let ghost k = 3 * di + dj;
                assert(window_sum(self@, r, c, k + 1) == window_sum(self@, r, c, k as int)
                    + window_term(self@, r, c, k as int));
                if !(di == 1 && dj == 1) {
                    match (shifted(position.0, di), shifted(position.1, dj)) {
                        (Some(ni), Some(nj)) => {
                            if ni < self.height && nj < self.width && self.map[ni][nj].is_alive {
                                count += 1;
                            }
                        },
                        _ => {},
                    }
                }
                dj += 1;
            }
            di += 1;
        }
        proof {
            lemma_window_is_neighbourhood(self@, r, c);
        }
        count
    }

    /// The evaluation pass: records for every cell the verdict that the
    /// grid as it stands passes on it. No status changes, so every verdict
    /// rests on the same generation.
    fn evaluate(&mut self)
        requires
            old(self).wf(),
        ensures
            final(self).wf(),
            final(self)@ == old(self)@.judged(),
    {
        let ghost before = self@;
        let mut i: usize = 0;
        while i < self.height
            invariant
                before.wf(),
                i <= self.height,
                spliced(self@, before.judged(), before, i as int, 0),
            decreases self.height - i,
        {
            let mut j: usize = 0;
            while j < self.width
                invariant
                    before.wf(),
                    i < self.height,
                    j <= self.width,
                    spliced(self@, before.judged(), before, i as int, j as int),
                decreases self.width - j,
            {
                let alive_neighbours = self.alive_neighbours((i, j));
                proof {
                    lemma_same_status_same_neighbours(self@, before, i as int, j as int);
                }
                let ghost earlier = self@;
                assert(earlier.cells[i as int].len() == self.width);
                let curr_node = &mut self.map[i][j];
                if alive_neighbours == 3 {
                    curr_node.future_status = Some(true);
                } else if alive_neighbours <= 1 || alive_neighbours >= 4 {
                    curr_node.future_status = Some(false);
                } else {
                    curr_node.future_status = None;
                }
                assert(self@.cells =~~= earlier.put(
                    i as int,
                    j as int,
                    before.judged_cell(i as int, j as int),
                ).cells);
                j += 1;
            }
            i += 1;
        }
        assert(self@.cells =~~= before.judged().cells);
    }

    /// The commit pass: every cell takes on the status that is pending for
    /// it, if any, and nothing stays pending.
    fn commit(&mut self)
        requires
            old(self).wf(),
        ensures
            final(self).wf(),
            final(self)@ == old(self)@.settled(),
    {
        let ghost before = self@;
        let mut i: usize = 0;
        while i < self.height
            invariant
                before.wf(),
                i <= self.height,
                spliced(self@, before.settled(), before, i as int, 0),
            decreases self.height - i,
        {
            let mut j: usize = 0;
            while j < self.width
                invariant
                    before.wf(),
                    i < self.height,
                    j <= self.width,
                    spliced(self@, before.settled(), before, i as int, j as int),
                decreases self.width - j,
            {
                let ghost earlier = self@;
                assert(earlier.cells[i as int].len() == self.width);
                let ele = &mut self.map[i][j];
                if let Some(status) = ele.future_status {
                    ele.is_alive = status;
                }
                ele.future_status = None;
                assert(self@.cells =~~= earlier.put(
                    i as int,
                    j as int,
                    before.settled_cell(i as int, j as int),
                ).cells);
                j += 1;
            }
            i += 1;
        }
        assert(self@.cells =~~= before.settled().cells);
    }

    /// Advances the grid by one generation. Every cell is first judged
    /// against the grid as it stands, and only then are the verdicts
    /// committed, so no cell is judged against a neighbour's new status.
    /// A cell with exactly two living neighbours stays as it is, whatever
    /// was pending for it before.
    pub fn update(&mut self)
        requires
            old(self).wf(),
        ensures
            final(self).wf(),
            final(self)@.width == old(self)@.width,
            final(self)@.height == old(self)@.height,
            final(self)@ == old(self)@.step(),
            forall|r: int, c: int|
                #![trigger final(self)@.cell(r, c)]
                old(self)@.contains(r, c) ==> {
                    let neighbours = old(self)@.live_neighbours(r, c);
                    let after = final(self)@.cell(r, c);
                    &&& neighbours == 3 ==> after.is_alive
                    &&& neighbours <= 1 || neighbours >= 4 ==> !after.is_alive
                    &&& neighbours == 2 ==> after.is_alive == old(self)@.cell(r, c).is_alive
                    &&& after.future_status is None
                    &&& after.position == old(self)@.cell(r, c).position
                },
    {
        proof {
            law_step_is_judge_then_settle(self@);
        }
        self.evaluate();
        self.commit();
    }
}

} // verus!
