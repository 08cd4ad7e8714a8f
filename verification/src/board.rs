use vstd::prelude::*;
use crate::node::Node;

verus! {

/// The mathematical model of a grid: its declared dimensions and its rows of
/// cells, row `r` being `cells[r]` and the cell in column `c` of it
/// `cells[r][c]`.
pub struct Board {
    pub width: nat,
    pub height: nat,
    pub cells: Seq<Seq<Node>>,
}

/// The next status of a cell with status `alive` and `neighbours` living
/// neighbours: three give life, fewer than two or more than three take it,
/// and exactly two leave the cell as it is.
pub open spec fn next_alive(alive: bool, neighbours: nat) -> bool {
    if neighbours == 3 {
        true
    } else if neighbours <= 1 || neighbours >= 4 {
        false
    } else {
        alive
    }
}

/// What the evaluation pass records for a cell with `neighbours` living
/// neighbours: the status to take on, or nothing where the cell is to stay
/// as it is.
pub open spec fn verdict(neighbours: nat) -> Option<bool> {
    if neighbours == 3 {
        Some(true)
    } else if neighbours <= 1 || neighbours >= 4 {
        Some(false)
    } else {
        None
    }
}

/// The status of a cell once a recorded verdict is committed.
pub open spec fn committed(alive: bool, pending: Option<bool>) -> bool {
    match pending {
        Some(status) => status,
        None => alive,
    }
}

/// The text of one row: a line break, then the glyph of every cell of the
/// row from the first column on. A row without cells gives no text at all.
pub open spec fn line(row: Seq<Node>) -> Seq<char> {
    if row.len() == 0 {
        Seq::empty()
    } else {
        seq!['\n'] + Seq::new(row.len(), |c: int| row[c].glyph())
    }
}

impl Board {
    /// There are `height` rows and each of them has `width` cells.
    pub open spec fn wf(self) -> bool {
        &&& self.cells.len() == self.height
        &&& forall|r: int| 0 <= r < self.cells.len() ==> (#[trigger] self.cells[r]).len() == self.width
    }

    /// Whether `(r, c)` names a cell of the board.
    pub open spec fn contains(self, r: int, c: int) -> bool {
        0 <= r < self.height && 0 <= c < self.width
    }

    /// The cell at `(r, c)`.
    pub open spec fn cell(self, r: int, c: int) -> Node
        recommends
            self.contains(r, c),
    {
        self.cells[r][c]
    }

    /// Whether `(r, c)` names a cell of the board that is alive. A place
    /// beyond the edge holds no cell, so it is not alive.
    pub open spec fn alive(self, r: int, c: int) -> bool {
        self.contains(r, c) && self.cells[r][c].is_alive
    }

    /// 1 where `(r, c)` names a cell of the board, else 0.
    pub open spec fn present(self, r: int, c: int) -> nat {
        if self.contains(r, c) {
            1
        } else {
            0
        }
    }

    /// 1 where `(r, c)` names a living cell of the board, else 0.
    pub open spec fn live(self, r: int, c: int) -> nat {
        if self.alive(r, c) {
            1
        } else {
            0
        }
    }

    /// How many of the eight places around `(r, c)` lie on the board.
    pub open spec fn candidate_neighbours(self, r: int, c: int) -> nat {
        self.present(r - 1, c - 1) + self.present(r - 1, c) + self.present(r - 1, c + 1)
            + self.present(r, c - 1) + self.present(r, c + 1)
            + self.present(r + 1, c - 1) + self.present(r + 1, c) + self.present(r + 1, c + 1)
    }

    /// How many of the eight places around `(r, c)` hold a living cell.
    pub open spec fn live_neighbours(self, r: int, c: int) -> nat {
        self.live(r - 1, c - 1) + self.live(r - 1, c) + self.live(r - 1, c + 1)
            + self.live(r, c - 1) + self.live(r, c + 1)
            + self.live(r + 1, c - 1) + self.live(r + 1, c) + self.live(r + 1, c + 1)
    }

    /// The cell at `(r, c)` with the verdict on it recorded as pending;
    /// whatever was pending before is gone. Its status is not touched.
    pub open spec fn judged_cell(self, r: int, c: int) -> Node {
        Node {
            future_status: verdict(self.live_neighbours(r, c)),
            is_alive: self.cells[r][c].is_alive,
            position: self.cells[r][c].position,
        }
    }

    /// The board after the evaluation pass: every cell carries the verdict
    /// that the board as it is now passes on it.
    pub open spec fn judged(self) -> Board {
        Board {
            width: self.width,
            height: self.height,
            cells: Seq::new(
                self.height,
                |r: int| Seq::new(self.width, |c: int| self.judged_cell(r, c)),
            ),
        }
    }

    /// The cell at `(r, c)` with what is pending for it committed, and
    /// nothing pending any more.
    pub open spec fn settled_cell(self, r: int, c: int) -> Node {
        Node {
            future_status: None,
            is_alive: committed(self.cells[r][c].is_alive, self.cells[r][c].future_status),
            position: self.cells[r][c].position,
        }
    }

    /// The board after the commit pass: every cell has taken on what was
    /// pending for it.
    pub open spec fn settled(self) -> Board {
        Board {
            width: self.width,
            height: self.height,
            cells: Seq::new(
                self.height,
                |r: int| Seq::new(self.width, |c: int| self.settled_cell(r, c)),
            ),
        }
    }

    /// The cell at `(r, c)` one generation later: its status follows from
    /// its living neighbours, nothing is left pending, and its stored
    /// position stays.
    pub open spec fn next_cell(self, r: int, c: int) -> Node {
        Node {
            future_status: None,
            is_alive: next_alive(self.cells[r][c].is_alive, self.live_neighbours(r, c)),
            position: self.cells[r][c].position,
        }
    }

    /// The board one generation later: every cell is judged against the
    /// board as it is now.
    pub open spec fn step(self) -> Board {
        Board {
            width: self.width,
            height: self.height,
            cells: Seq::new(
                self.height,
                |r: int| Seq::new(self.width, |c: int| self.next_cell(r, c)),
            ),
        }
    }

    /// The board `n` generations later.
    pub open spec fn steps(self, n: nat) -> Board
        decreases n,
    {
        if n == 0 {
            self
        } else {
            self.steps((n - 1) as nat).step()
        }
    }

    /// The board with the cell at `(r, c)` replaced by `node`.
    pub open spec fn put(self, r: int, c: int, node: Node) -> Board
        recommends
            self.contains(r, c),
    {
        Board {
            width: self.width,
            height: self.height,
            cells: self.cells.update(r, self.cells[r].update(c, node)),
        }
    }

    /// The text of the first `k` rows, one after the other.
    pub open spec fn lines(self, k: nat) -> Seq<char>
        decreases k,
    {
        if k == 0 {
            Seq::empty()
        } else {
            self.lines((k - 1) as nat) + line(self.cells[k - 1])
        }
    }

    /// The text of the whole board.
    pub open spec fn text(self) -> Seq<char> {
        self.lines(self.height)
    }

    /// The place of the cell at `(r, c)` when the rows are laid end to end.
    pub open spec fn flat_index(self, r: int, c: int) -> usize
        recommends
            self.contains(r, c),
            self.width * self.height <= usize::MAX,
    {
        (r * self.width + c) as usize
    }
}

/// The board of `height` rows and `width` columns on which every cell is
/// dead, has nothing pending and knows its own place.
pub open spec fn blank(width: nat, height: nat) -> Board {
    Board {
        width,
        height,
        cells: Seq::new(
            height,
            |r: int| Seq::new(
                width,
                |c: int| (Node { future_status: None, is_alive: false, position: (r as usize, c as usize) }),
            ),
        ),
    }
}

/// Whether all rows of `rows` are as long as the first.
pub open spec fn rectangular(rows: Seq<Seq<Node>>) -> bool {
    forall|r: int| 0 <= r < rows.len() ==> (#[trigger] rows[r]).len() == rows[0].len()
}

/// The board that a matrix of cells describes: as high as there are rows,
/// as wide as the first row, and 0 wide where there is no row.
pub open spec fn board_of(rows: Seq<Seq<Node>>) -> Board {
    Board {
        width: if rows.len() == 0 { 0 } else { rows[0].len() },
        height: rows.len(),
        cells: rows,
    }
}

} // verus!
