use vstd::prelude::*;
use crate::board::{line, next_alive, Board};

verus! {

/// Whether the living cells of `board` are exactly the four in its top left
/// corner, on a board that has room for them.
pub open spec fn is_block(board: Board) -> bool {
    &&& board.wf()
    &&& board.height >= 2
    &&& board.width >= 2
    &&& forall|r: int, c: int|
        board.contains(r, c) ==> ((#[trigger] board.cells[r][c]).is_alive <==> r < 2 && c < 2)
}

/// Whether no cell of `board` is alive.
pub open spec fn is_barren(board: Board) -> bool {
    forall|r: int, c: int| board.contains(r, c) ==> !(#[trigger] board.cells[r][c]).is_alive
}

/// Whether the one living cell of `board` is the cell at `(r0, c0)`.
pub open spec fn is_lone(board: Board, r0: int, c0: int) -> bool {
    &&& board.contains(r0, c0)
    &&& forall|r: int, c: int|
        board.contains(r, c) ==> ((#[trigger] board.cells[r][c]).is_alive <==> r == r0 && c == c0)
}

/// A generation changes neither the width nor the height of a board, and
/// leaves it well formed.
pub proof fn law_step_keeps_size(board: Board)
    ensures
        board.step().width == board.width,
        board.step().height == board.height,
        board.step().wf(),
{
}

/// Any number of generations changes neither the width nor the height of a
/// well-formed board, and leaves it well formed.
pub proof fn law_steps_keep_size(board: Board, n: nat)
    requires
        board.wf(),
    ensures
        board.steps(n).width == board.width,
        board.steps(n).height == board.height,
        board.steps(n).wf(),
    decreases n,
{
    if n > 0 {
        law_steps_keep_size(board, (n - 1) as nat);
        law_step_keeps_size(board.steps((n - 1) as nat));
    }
}

/// A generation is the evaluation pass followed by the commit pass: to
/// judge every cell against the board as it is and then to commit all
/// verdicts gives the next board.
pub proof fn law_step_is_judge_then_settle(board: Board)
    ensures
        board.judged().settled() == board.step(),
{
    assert(board.judged().settled().cells =~~= board.step().cells);
}

/// The evaluation pass changes no status: it only records verdicts.
pub proof fn law_judging_changes_no_status(board: Board, r: int, c: int)
    requires
        board.contains(r, c),
    ensures
        board.judged().cell(r, c).is_alive == board.cell(r, c).is_alive,
        board.judged().live_neighbours(r, c) == board.live_neighbours(r, c),
{
    assert forall|x: int, y: int| board.judged().live(x, y) == board.live(x, y) by {}
}

/// A cell with exactly three living neighbours is alive one generation
/// later, whatever it was before.
pub proof fn law_three_neighbours_give_life(board: Board, r: int, c: int)
    requires
        board.contains(r, c),
        board.live_neighbours(r, c) == 3,
    ensures
        board.step().cell(r, c).is_alive,
{
}

/// A cell with at most one or at least four living neighbours is dead one
/// generation later, whatever it was before.
pub proof fn law_solitude_and_crowding_kill(board: Board, r: int, c: int)
    requires
        board.contains(r, c),
        board.live_neighbours(r, c) <= 1 || board.live_neighbours(r, c) >= 4,
    ensures
        !board.step().cell(r, c).is_alive,
{
}

/// A cell with exactly two living neighbours is one generation later what
/// it was before: alive if it was alive, dead if it was dead.
pub proof fn law_two_neighbours_keep_status(board: Board, r: int, c: int)
    requires
        board.contains(r, c),
        board.live_neighbours(r, c) == 2,
    ensures
        board.step().cell(r, c).is_alive == board.cell(r, c).is_alive,
{
}

/// After a generation no cell has anything pending, and every cell has
/// kept its stored position.
pub proof fn law_step_leaves_nothing_pending(board: Board, r: int, c: int)
    requires
        board.contains(r, c),
    ensures
        board.step().cell(r, c).future_status is None,
        board.step().cell(r, c).position == board.cell(r, c).position,
{
}

/// The next status of a cell depends on nothing but its own status and the
/// number of its living neighbours.
pub proof fn law_step_follows_the_rule(board: Board, r: int, c: int)
    requires
        board.contains(r, c),
    ensures
        board.step().cell(r, c).is_alive == next_alive(
            board.cell(r, c).is_alive,
            board.live_neighbours(r, c),
        ),
{
}

/// No place has more living neighbours than it has neighbours on the
/// board, and none has more than eight of those.
pub proof fn law_living_among_candidates(board: Board, r: int, c: int)
    ensures
        board.live_neighbours(r, c) <= board.candidate_neighbours(r, c) <= 8,
{
}

/// A corner cell has at most three neighbours on the board, and exactly
/// three where the board has at least two rows and two columns.
pub proof fn law_corner_candidates(board: Board, r: int, c: int)
    requires
        board.contains(r, c),
        r == 0 || r == board.height - 1,
        c == 0 || c == board.width - 1,
    ensures
        board.candidate_neighbours(r, c) <= 3,
        board.live_neighbours(r, c) <= 3,
        board.height >= 2 && board.width >= 2 ==> board.candidate_neighbours(r, c) == 3,
{
}

/// A cell on an edge of the board has at most five neighbours on the
/// board.
pub proof fn law_edge_candidates(board: Board, r: int, c: int)
    requires
        board.contains(r, c),
        r == 0 || r == board.height - 1 || c == 0 || c == board.width - 1,
    ensures
        board.candidate_neighbours(r, c) <= 5,
        board.live_neighbours(r, c) <= 5,
{
}

/// A cell away from every edge has all eight neighbours on the board.
pub proof fn law_inner_candidates(board: Board, r: int, c: int)
    requires
        0 < r < board.height - 1,
        0 < c < board.width - 1,
    ensures
        board.candidate_neighbours(r, c) == 8,
{
}

/// The block of four living cells stays as it is from one generation to
/// the next.
pub proof fn law_block_is_still(board: Board)
    requires
        is_block(board),
    ensures
        is_block(board.step()),
{
    let next = board.step();
    assert forall|r: int, c: int| next.contains(r, c) implies ((#[trigger] next.cells[r][c]).is_alive
        <==> r < 2 && c < 2) by {
        lemma_block_neighbours(board, r, c);
    }
}

/// Around the block, a cell of the block has three living neighbours and
/// every other cell at most two; those with two are dead.
proof fn lemma_block_neighbours(board: Board, r: int, c: int)
    requires
        is_block(board),
        board.contains(r, c),
    ensures
        r < 2 && c < 2 ==> board.live_neighbours(r, c) == 3,
        !(r < 2 && c < 2) ==> board.live_neighbours(r, c) <= 2 && !board.cells[r][c].is_alive,
{
    lemma_block_census(board, r - 1, c - 1);
    lemma_block_census(board, r - 1, c);
    lemma_block_census(board, r - 1, c + 1);
    lemma_block_census(board, r, c - 1);
    lemma_block_census(board, r, c);
    lemma_block_census(board, r, c + 1);
    lemma_block_census(board, r + 1, c - 1);
    lemma_block_census(board, r + 1, c);
    lemma_block_census(board, r + 1, c + 1);
}

/// On a board that holds the block, a place counts as living exactly
/// where it belongs to the block.
proof fn lemma_block_census(board: Board, r: int, c: int)
    requires
        is_block(board),
    ensures
        board.live(r, c) == if 0 <= r < 2 && 0 <= c < 2 { 1nat } else { 0nat },
{
    if board.contains(r, c) {
        assert(board.cells[r][c].is_alive <==> r < 2 && c < 2);
    }
}

/// The block of four living cells stays as it is for any number of
/// generations: the same four cells live, and no others.
pub proof fn law_block_is_still_forever(board: Board, n: nat)
    requires
        is_block(board),
    ensures
        is_block(board.steps(n)),
    decreases n,
{
    if n > 0 {
        law_block_is_still_forever(board, (n - 1) as nat);
        law_block_is_still(board.steps((n - 1) as nat));
    }
}

/// A living cell with no living cell anywhere else on the board dies, and
/// nothing is born: one generation later the board is barren.
pub proof fn law_lone_cell_dies(board: Board, r0: int, c0: int)
    requires
        board.wf(),
        is_lone(board, r0, c0),
    ensures
        is_barren(board.step()),
{
    let next = board.step();
    assert forall|r: int, c: int| next.contains(r, c) implies !(#[trigger] next.cells[r][c]).is_alive by {
        lemma_lone_census(board, r0, c0, r - 1, c - 1);
        lemma_lone_census(board, r0, c0, r - 1, c);
        lemma_lone_census(board, r0, c0, r - 1, c + 1);
        lemma_lone_census(board, r0, c0, r, c - 1);
        lemma_lone_census(board, r0, c0, r, c + 1);
        lemma_lone_census(board, r0, c0, r + 1, c - 1);
        lemma_lone_census(board, r0, c0, r + 1, c);
        lemma_lone_census(board, r0, c0, r + 1, c + 1);
        assert(board.live_neighbours(r, c) <= 1);
    }
}

/// On a board with one living cell, a place counts as living exactly
/// where it is that cell.
proof fn lemma_lone_census(board: Board, r0: int, c0: int, r: int, c: int)
    requires
        is_lone(board, r0, c0),
    ensures
        board.live(r, c) == if r == r0 && c == c0 { 1nat } else { 0nat },
{
    if board.contains(r, c) {
        assert(board.cells[r][c].is_alive <==> r == r0 && c == c0);
    }
}

/// The text of the first `k` rows of a board with at least one column
/// holds, for each of those rows, a line break and then one glyph for each
/// cell of the row, in the order of the columns.
pub proof fn law_lines_show_every_cell(board: Board, k: nat, r: int, c: int)
    requires
        board.wf(),
        board.width >= 1,
        k <= board.height,
        0 <= r < k,
        0 <= c < board.width,
    ensures
        board.lines(k).len() == k * (board.width + 1),
        0 <= r * (board.width + 1) < r * (board.width + 1) + 1 + c < board.lines(k).len(),
        board.lines(k)[r * (board.width + 1)] == '\n',
        board.lines(k)[r * (board.width + 1) + 1 + c] == board.cell(r, c).glyph(),
    decreases k,
{
    let w = board.width + 1;
    let last = k - 1;
    lemma_lines_len(board, k);
    lemma_lines_len(board, last as nat);
    assert(k * w == last * w + w) by (nonlinear_arith)
        requires
            last == k - 1,
    ;
    assert(0 <= r * w && r * w + w <= k * w) by (nonlinear_arith)
        requires
            0 <= r < k,
            w >= 0,
    ;
    assert(line(board.cells[last]).len() == w);
    if r < last {
        law_lines_show_every_cell(board, last as nat, r, c);
    } else {
        assert(line(board.cells[last])[0] == '\n');
        assert(line(board.cells[last])[1 + c] == board.cells[last][c].glyph());
    }
}

/// The text of the first `k` rows has one line break and one glyph for
/// each cell of each of them.
proof fn lemma_lines_len(board: Board, k: nat)
    requires
        board.wf(),
        board.width >= 1,
        k <= board.height,
    ensures
        board.lines(k).len() == k * (board.width + 1),
    decreases k,
{
    if k > 0 {
        lemma_lines_len(board, (k - 1) as nat);
        assert(line(board.cells[k - 1]).len() == board.width + 1);
        assert(k * (board.width + 1) == (k - 1) * (board.width + 1) + (board.width + 1))
            by (nonlinear_arith);
    }
}

/// The text of a board with at least one column shows every cell, none
/// skipped: it has a line break and `width` glyphs for each row, row after
/// row, and the glyph of the cell at `(r, c)` stands in row `r` right after
/// the glyphs of the cells before it in that row.
pub proof fn law_text_shows_every_cell(board: Board, r: int, c: int)
    requires
        board.wf(),
        board.width >= 1,
        board.contains(r, c),
    ensures
        board.text().len() == board.height * (board.width + 1),
        0 <= r * (board.width + 1) < r * (board.width + 1) + 1 + c < board.text().len(),
        board.text()[r * (board.width + 1)] == '\n',
        board.text()[r * (board.width + 1) + 1 + c] == board.cell(r, c).glyph(),
{
    law_lines_show_every_cell(board, board.height, r, c);
}

/// A board without columns or without rows has no text.
pub proof fn law_text_of_no_cells_is_empty(board: Board)
    requires
        board.wf(),
        board.width == 0 || board.height == 0,
    ensures
        board.text() == Seq::<char>::empty(),
{
    lemma_no_columns_no_lines(board, board.height);
}

/// Rows without cells add nothing to the text.
proof fn lemma_no_columns_no_lines(board: Board, k: nat)
    requires
        board.wf(),
        board.width == 0 || board.height == 0,
        k <= board.height,
    ensures
        board.lines(k) == Seq::<char>::empty(),
    decreases k,
{
    if k > 0 {
        lemma_no_columns_no_lines(board, (k - 1) as nat);
        assert(line(board.cells[k - 1]) == Seq::<char>::empty());
        assert(board.lines(k) =~= Seq::<char>::empty());
    }
}

} // verus!
