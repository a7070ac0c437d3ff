//! The board: its cells, the moves of the game and what each cell shows.

use crate::clock::Timestamp;
use crate::flood::{
    extends, flood_inv, lemma_adjacent, lemma_flood_begin, lemma_flood_end, lemma_flood_front,
    lemma_flood_skip, lemma_flood_visit, lemma_queued_extends, mine_opened, newly_open, queued,
};
use crate::laws::law_flood_from_zero_is_safe;
use crate::lemmas::{
    lemma_covering_is_long, lemma_goal_leaves_room, lemma_index_bounds, lemma_index_split,
    lemma_numbers_same, lemma_tally_agree, lemma_tally_bound, lemma_tally_step,
    lemma_tally_uniform, lemma_tally_update, same_mines,
};
use crate::model_config::{AllowMarks, BoardSetting, Config, ZoomRatio};
use crate::model_gamemode::{encode, parsed_layout, BoardSaved, GameMode, LayoutModel, ModeModel};
use crate::picker::MinePicker;
use crate::rules::{
    adjacent, neighbors, shape_at, surrounding, tally, BoardModel, CellState, Tally,
};
use crate::view::{notices, AlertFailure, Notice, ViewCommand};
use rand::distributions::Uniform;
use rand::Rng;
use std::collections::VecDeque;
use std::rc::Rc;
use vstd::prelude::*;

verus! {

/// What the player has done to a cell.
#[derive(Copy, Clone, PartialEq, Eq, Debug, Structural)]
pub enum BlockStatus {
    Normal,
    Open,
    MarkedMine,
    MarkedQuestionable,
}

impl Default for BlockStatus {
    fn default() -> (s: Self)
        ensures
            s == BlockStatus::Normal,
    {
        BlockStatus::Normal
    }
}

/// One cell of the board. `cached_number` remembers the number of mines
/// around the cell once that number is settled.
#[derive(Copy, Clone, PartialEq, Eq, Debug, Structural)]
pub struct Block {
    pub has_mine: bool,
    pub cached_number: Option<u8>,
    pub status: BlockStatus,
}

impl Default for Block {
    fn default() -> (b: Self)
        ensures
            b == (Block { has_mine: false, cached_number: None, status: BlockStatus::Normal }),
    {
        Block { has_mine: false, cached_number: None, status: BlockStatus::Normal }
    }
}

impl Block {
    /// What the rules read of the cell.
    pub open spec fn state(self) -> CellState {
        CellState { has_mine: self.has_mine, status: self.status }
    }
}

/// The two mirrored orientations of a triangular cell.
#[derive(Copy, Clone, PartialEq, Eq, Debug, Structural)]
pub enum BlockShape {
    DeltaLike,
    RevDeltaLike,
}

/// What the new-game button shows.
#[derive(Copy, Clone, PartialEq, Eq, Debug, Structural)]
pub enum GameButtonDisplayKind {
    Normal,
    Pushed,
    Danger,
    Finished,
    Died,
}

/// What a cell shows.
#[derive(Copy, Clone, PartialEq, Eq, Debug, Structural)]
pub enum BlockDisplayKind {
    Normal,
    MarkedMine,
    MarkedQuestionable,
    ExplodedMine,
    WrongMarkedMine,
    NotMarkedMine,
    PushMarkedQuestionable,
    OpenWithNumber(u8),
    PushNormal,
}

/// Where a game stands. A game that is going carries the time of its first
/// move, one that is over also the time of its last.
#[derive(Copy, Clone, PartialEq, Eq, Debug, Structural)]
pub enum BoardStatus {
    Ready,
    Going(Timestamp),
    Finished(Timestamp, Timestamp),
    Died(Timestamp, Timestamp),
}

pub struct Board {
    size: (usize, usize),
    count: usize,
    rest_count: usize,
    mark_count: usize,
    status: BoardStatus,
    blocks: Vec<Block>,
    fixed_mine_pos: Option<Rc<Vec<usize>>>,
    allow_marks: bool,
}

impl View for Board {
    type V = BoardModel;

    closed spec fn view(&self) -> BoardModel {
        BoardModel {
            rows: self.size.0 as nat,
            cols: self.size.1 as nat,
            goal: self.count as nat,
            status: self.status,
            cells: self.blocks@.map_values(|b: Block| b.state()),
            fixed: match self.fixed_mine_pos {
                Some(list) => Some(list@),
                None => None,
            },
            allow_marks: self.allow_marks,
        }
    }
}

impl Board {
    /// A remembered number is the number of mines around a cell without a
    /// mine.
    spec fn cache_ok(&self, i: int) -> bool {
        let b = self.blocks@[i];
        b.cached_number matches Some(n) ==> !b.has_mine && n == self@.adjacent_mines(
            i / (self.size.1 as int),
            i % (self.size.1 as int),
        )
    }

    /// What holds of a board even in the middle of a move: the cells are
    /// laid out and the remembered numbers are right.
    pub closed spec fn laid_out(&self) -> bool {
        &&& self@.laid_out()
        &&& forall|i: int| 0 <= i < self.blocks@.len() ==> #[trigger] self.cache_ok(i)
    }

    /// The invariant of a board: its model is well formed, the two counters
    /// agree with the cells, and the remembered numbers are right.
    pub closed spec fn wf(&self) -> bool {
        &&& self@.wf()
        &&& self.laid_out()
        &&& self.rest_count == tally(self@.cells, Tally::Closed)
        &&& self.mark_count == tally(self@.cells, Tally::Marked)
        &&& (self.status is Ready ==> self.no_numbers())
        &&& (!(self.status is Ready) ==> self.all_numbers())
    }

    /// Every cell without a mine remembers a number.
    spec fn all_numbers(&self) -> bool {
        forall|i: int|
            0 <= i < self.blocks@.len() ==> (#[trigger] self.blocks@[i]).has_mine
                || self.blocks@[i].cached_number is Some
    }

    /// No cell remembers a number.
    spec fn no_numbers(&self) -> bool {
        forall|i: int| 0 <= i < self.blocks@.len() ==> (#[trigger] self.blocks@[i]).cached_number is None
    }

    /// What `wf` says of the model, and that a well-formed board is laid
    /// out.
    pub proof fn lemma_wf_model(&self)
        requires
            self.wf(),
        ensures
            self@.wf(),
            self.laid_out(),
    {
    }

    /// A board of `y` rows and `x` columns that will hold `c` mines, before
    /// the first move.
    pub fn new(y: usize, x: usize, c: usize) -> (board: Board)
        requires
            1 <= y,
            1 <= x,
            y * x + 2 <= isize::MAX,
            c <= (y - 1) * (x - 1),
        ensures
            board.wf(),
            board@ == BoardModel::fresh(y as nat, x as nat, c as nat),
            tally(board@.cells, Tally::Closed) == y * x,
            tally(board@.cells, Tally::Opened) == 0,
            tally(board@.cells, Tally::Marked) == 0,
            tally(board@.cells, Tally::Mined) == 0,
    {
        let blocks = vec![Block { has_mine: false, cached_number: None, status: BlockStatus::Normal }; y * x];
        let board = Board {
            size: (y, x),
            count: c,
            rest_count: y * x,
            mark_count: 0,
            status: BoardStatus::Ready,
            blocks,
            fixed_mine_pos: None,
            allow_marks: true,
        };
        proof {
            assert(board@.cells =~= BoardModel::fresh(y as nat, x as nat, c as nat).cells);
            lemma_tally_uniform(board@.cells, Tally::Closed);
            lemma_tally_uniform(board@.cells, Tally::Opened);
            lemma_tally_uniform(board@.cells, Tally::Marked);
            lemma_tally_uniform(board@.cells, Tally::Mined);
        }
        board
    }

    /// Rows and columns.
    pub fn size(&self) -> (s: (usize, usize))
        ensures
            s.0 == self@.rows,
            s.1 == self@.cols,
    {
        self.size
    }

    /// Number of mines the board holds once the game has started.
    pub fn goal_mark_count(&self) -> (c: usize)
        ensures
            c == self@.goal,
    {
        self.count
    }

    /// Number of cells that are not open.
    pub fn rest_count(&self) -> (c: usize)
        requires
            self.wf(),
        ensures
            c == tally(self@.cells, Tally::Closed),
            c + tally(self@.cells, Tally::Opened) == self@.rows * self@.cols,
    {
        proof {
            crate::lemmas::lemma_closed_and_open(self@.cells);
        }
        self.rest_count
    }

    /// Number of flagged cells.
    pub fn cur_mark_count(&self) -> (c: usize)
        requires
            self.wf(),
        ensures
            c == tally(self@.cells, Tally::Marked),
    {
        self.mark_count
    }

    pub fn status(&self) -> (s: BoardStatus)
        ensures
            s == self@.status,
    {
        self.status
    }

    /// The fixed layout, where the board has one.
    pub fn fixed_mine_pos_list(&self) -> (list: Option<&Rc<Vec<usize>>>)
        ensures
            match list {
                Some(l) => self@.fixed == Some(l@),
                None => self@.fixed is None,
            },
    {
        self.fixed_mine_pos.as_ref()
    }

    /// Gives the board a fixed layout, or takes it away. The first move lays
    /// the fixed layout where there is one.
    pub fn update_fixed_mine_pos_list(&mut self, list: Option<Rc<Vec<usize>>>)
        requires
            old(self).wf(),
            list matches Some(l) ==> old(self)@.valid_layout(l@),
        ensures
            final(self).wf(),
            final(self)@ == (BoardModel {
                fixed: match list {
                    Some(l) => Some(l@),
                    None => None,
                },
                ..old(self)@
            }),
    {
        self.fixed_mine_pos = list;
        proof {
            lemma_numbers_same(old(self)@, self@);
            assert(forall|i: int|
                0 <= i < self.blocks@.len() ==> (#[trigger] self.cache_ok(i) <==> old(
                    self,
                ).cache_ok(i)));
        }
    }

    /// Whether a flagged cell turns into a question mark when rotated.
    pub fn set_allow_marks(&mut self, allow_marks: bool)
        requires
            old(self).wf(),
        ensures
            final(self).wf(),
            final(self)@ == (BoardModel { allow_marks, ..old(self)@ }),
    {
        self.allow_marks = allow_marks;
        proof {
            lemma_numbers_same(old(self)@, self@);
            assert(forall|i: int|
                0 <= i < self.blocks@.len() ==> (#[trigger] self.cache_ok(i) <==> old(
                    self,
                ).cache_ok(i)));
        }
    }

    fn block_data_idx(&self, y: usize, x: usize) -> (idx: usize)
        requires
            self.laid_out(),
            self@.in_range(y as int, x as int),
        ensures
            idx == self@.index(y as int, x as int),
            idx < self.blocks@.len(),
            idx as int / (self.size.1 as int) == y,
            idx as int % (self.size.1 as int) == x,
            self.blocks@.len() == self@.cells.len(),
            self@.cells[idx as int] == self.blocks@[idx as int].state(),
    {
        proof {
            lemma_index_bounds(self@.rows as int, self@.cols as int, y as int, x as int);
        }
        self.size.1 * y + x
    }

    /// The cell at row `y`, column `x`.
    pub fn block(&self, y: usize, x: usize) -> (b: &Block)
        requires
            self.wf(),
            self@.in_range(y as int, x as int),
        ensures
            b.state() == self@.cell(y as int, x as int),
            b.cached_number == (if self@.status is Ready {
                None
            } else {
                self@.display_number(y as int, x as int)
            }),
    {
        let idx = self.block_data_idx(y, x);
        proof {
            assert(self.cache_ok(idx as int));
            assert(self.blocks@[idx as int].has_mine == self@.cells[idx as int].has_mine);
        }
        &self.blocks[idx]
    }

    pub fn block_status(&self, y: usize, x: usize) -> (s: BlockStatus)
        requires
            self.wf(),
            self@.in_range(y as int, x as int),
        ensures
            s == self@.cell(y as int, x as int).status,
    {
        let idx = self.block_data_idx(y, x);
        self.blocks[idx].status
    }

    /// Orientation of the triangle at row `y`, column `x`.
    pub fn block_shape(y: usize, x: usize) -> (s: BlockShape)
        ensures
            s == shape_at(y as int, x as int),
    {
        if y % 2 == x % 2 {
            BlockShape::RevDeltaLike
        } else {
            BlockShape::DeltaLike
        }
    }

    /// Whether a chord gesture centred on `check` covers the cell `pos`.
    pub fn is_surrounding(pos: (usize, usize), check: (usize, usize)) -> (r: bool)
        ensures
            r == surrounding((pos.0 as int, pos.1 as int), (check.0 as int, check.1 as int)),
    {
        let (y, x) = pos;
        let (check_y, check_x) = check;
        let near_x = if check_x >= x {
            check_x - x
        } else {
            x - check_x
        };
        let below = check_y > y && check_y - y == 1;
        let above = y > check_y && y - check_y == 1;
        let (long_side, short_side) = match Self::block_shape(y, x) {
            BlockShape::DeltaLike => (below, above),
            BlockShape::RevDeltaLike => (above, below),
        };
        if check_y == y || long_side {
            near_x <= 2
        } else if short_side {
            near_x <= 1
        } else {
            false
        }
    }

    /// The twelve positions around `(y, x)`, on the board or not.
    pub fn surrounding_blocks(y: isize, x: isize) -> (around: [(isize, isize); 12])
        requires
            0 <= y < isize::MAX,
            0 <= x < isize::MAX - 1,
        ensures
            forall|k: int|
                0 <= k < 12 ==> (#[trigger] around@[k]).0 == neighbors(y as int, x as int)[k].0
                    && around@[k].1 == neighbors(y as int, x as int)[k].1,
    {
        let s = match Self::block_shape(y as usize, x as usize) {
            BlockShape::DeltaLike => y + 1,
            BlockShape::RevDeltaLike => y - 1,
        };
        [
            (y - 1, x - 1),
            (y - 1, x),
            (y - 1, x + 1),
            (s, x - 2),
            (y, x - 2),
            (y, x - 1),
            (y, x + 1),
            (y, x + 2),
            (s, x + 2),
            (y + 1, x - 1),
            (y + 1, x),
            (y + 1, x + 1),
        ]
    }

    /// Whether `(y, x)` is a position on the board.
    pub fn is_index_in_range(board: &Board, y: isize, x: isize) -> (r: bool)
        requires
            board.laid_out(),
        ensures
            r == board@.in_range(y as int, x as int),
    {
        proof {
            lemma_dims_fit(board@);
        }
        y >= 0 && y < board.size.0 as isize && x >= 0 && x < board.size.1 as isize
    }
}

impl Board {
    /// Replaces the status of the cell at `idx` and leaves the counters as
    /// they are.
    fn set_status(&mut self, idx: usize, status: BlockStatus)
        requires
            old(self).laid_out(),
            idx < old(self)@.cells.len(),
        ensures
            final(self).laid_out(),
            final(self)@ == (BoardModel {
                cells: old(self)@.cells.update(
                    idx as int,
                    CellState { status, ..old(self)@.cells[idx as int] },
                ),
                ..old(self)@
            }),
            final(self).rest_count == old(self).rest_count,
            final(self).mark_count == old(self).mark_count,
            old(self).no_numbers() ==> final(self).no_numbers(),
            old(self).all_numbers() ==> final(self).all_numbers(),
    {
        let b = self.blocks[idx];
        self.blocks.set(idx, Block { has_mine: b.has_mine, cached_number: b.cached_number, status });
        proof {
            assert(self@.cells =~= old(self)@.cells.update(
                idx as int,
                CellState { status, ..old(self)@.cells[idx as int] },
            ));
            lemma_numbers_same(old(self)@, self@);
            assert forall|i: int| 0 <= i < self.blocks@.len() implies #[trigger] self.cache_ok(
                i,
            ) by {
                assert(old(self).cache_ok(i));
            }
        }
    }

    /// Number of mines around `(y, x)`, counted afresh.
    fn count_mines_around(&self, y: usize, x: usize) -> (number: u8)
        requires
            self.laid_out(),
            self@.in_range(y as int, x as int),
        ensures
            number == self@.adjacent_mines(y as int, x as int),
            number <= 12,
    {
        proof {
            lemma_dims_fit(self@);
        }
        let around = Self::surrounding_blocks(y as isize, x as isize);
        let mut number: u8 = 0;
        let mut k: usize = 0;
        while k < 12
            invariant
                k <= 12,
                number <= k,
                number == self@.mines_among(y as int, x as int, k as int),
                self.laid_out(),
                forall|j: int|
                    0 <= j < 12 ==> (#[trigger] around@[j]).0 == neighbors(y as int, x as int)[j].0
                        && around@[j].1 == neighbors(y as int, x as int)[j].1,
            decreases 12 - k,
        {
            let (ny, nx) = around[k];
            assert(around@[k as int].0 == ny);
            if Self::is_index_in_range(self, ny, nx) {
                let idx = self.block_data_idx(ny as usize, nx as usize);
                if self.blocks[idx].has_mine {
                    number += 1;
                }
            }
            k += 1;
        }
        number
    }

    /// Number of flagged cells around `(y, x)`.
    fn count_marks_around(&self, y: usize, x: usize) -> (number: u8)
        requires
            self.laid_out(),
            self@.in_range(y as int, x as int),
        ensures
            number == self@.adjacent_marks(y as int, x as int),
            number <= 12,
    {
        proof {
            lemma_dims_fit(self@);
        }
        let around = Self::surrounding_blocks(y as isize, x as isize);
        let mut number: u8 = 0;
        let mut k: usize = 0;
        while k < 12
            invariant
                k <= 12,
                number <= k,
                number == self@.marks_among(y as int, x as int, k as int),
                self.laid_out(),
                forall|j: int|
                    0 <= j < 12 ==> (#[trigger] around@[j]).0 == neighbors(y as int, x as int)[j].0
                        && around@[j].1 == neighbors(y as int, x as int)[j].1,
            decreases 12 - k,
        {
            let (ny, nx) = around[k];
            assert(around@[k as int].0 == ny);
            if Self::is_index_in_range(self, ny, nx) {
                let idx = self.block_data_idx(ny as usize, nx as usize);
                if self.blocks[idx].status == BlockStatus::MarkedMine {
                    number += 1;
                }
            }
            k += 1;
        }
        number
    }

    /// The number of `(y, x)`, from memory where it is remembered.
    fn number_at(&self, y: usize, x: usize) -> (n: Option<u8>)
        requires
            self.laid_out(),
            self@.in_range(y as int, x as int),
        ensures
            n == self@.display_number(y as int, x as int),
            n matches Some(v) ==> v == self@.adjacent_mines(y as int, x as int) && v <= 12,
    {
        let idx = self.block_data_idx(y, x);
        if self.blocks[idx].has_mine {
            return None;
        }
        let fresh = self.count_mines_around(y, x);
        match self.blocks[idx].cached_number {
            Some(n) => {
                proof {
                    assert(self.cache_ok(idx as int));
                }
                Some(n)
            },
            None => Some(fresh),
        }
    }

    /// The number that the cell at `(y, x)` shows once it is open: the
    /// number of mines around it, and nothing on a mine.
    pub fn block_display_number(&self, y: usize, x: usize) -> (n: Option<u8>)
        requires
            self.wf(),
            self@.in_range(y as int, x as int),
        ensures
            n == self@.display_number(y as int, x as int),
            n matches Some(v) ==> v == self@.adjacent_mines(y as int, x as int) && v <= 12,
            n is None <==> self@.cell(y as int, x as int).has_mine,
    {
        self.number_at(y, x)
    }

    /// Rotates the mark of the cell at `(y, x)`: from none to a flag, from a
    /// flag to a question mark where those are allowed, and back to none.
    /// Nothing happens to an open cell, nor once the game is over.
    pub fn rotate_block_state(&mut self, y: usize, x: usize)
        requires
            old(self).wf(),
            old(self)@.in_range(y as int, x as int),
        ensures
            final(self).wf(),
            final(self)@ == old(self)@.rotate(y as int, x as int),
    {
        let idx = self.block_data_idx(y, x);
        match self.status {
            BoardStatus::Finished(..) | BoardStatus::Died(..) => {
                return ;
            },
            _ => {},
        }
        let ghost before = self@;
        let next = match self.blocks[idx].status {
            BlockStatus::Normal => BlockStatus::MarkedMine,
            BlockStatus::MarkedMine => if self.allow_marks {
                BlockStatus::MarkedQuestionable
            } else {
                BlockStatus::Normal
            },
            BlockStatus::MarkedQuestionable => BlockStatus::Normal,
            BlockStatus::Open => {
                assert(before.rotate(y as int, x as int).cells =~= before.cells);
                return ;
            },
        };
        let was = self.blocks[idx].status;
        self.set_status(idx, next);
        proof {
            let c = CellState { status: next, ..before.cells[idx as int] };
            lemma_tally_update(before.cells, idx as int, c, Tally::Closed);
            lemma_tally_update(before.cells, idx as int, c, Tally::Marked);
            lemma_tally_update(before.cells, idx as int, c, Tally::Mined);
            lemma_tally_bound(self@.cells, Tally::Marked);
        }
        let ghost mid = *self;
        if next == BlockStatus::MarkedMine {
            self.mark_count += 1;
        } else if was == BlockStatus::MarkedMine {
            self.mark_count -= 1;
        }
        proof {
            self.lemma_laid_out_kept(&mid);
        }
    }
}

impl Board {
    /// A board with the cells of one that is laid out is laid out.
    proof fn lemma_laid_out_kept(&self, other: &Board)
        requires
            other.laid_out(),
            self.blocks == other.blocks,
            self.size == other.size,
        ensures
            self.laid_out(),
            other.all_numbers() ==> self.all_numbers(),
            other.no_numbers() ==> self.no_numbers(),
    {
        lemma_numbers_same(other@, self@);
        assert forall|i: int| 0 <= i < self.blocks@.len() implies #[trigger] self.cache_ok(i) by {
            assert(other.cache_ok(i));
        }
    }

    /// Appends to `queue` the positions around `(y, x)` that lie on the
    /// board.
    fn push_surrounding(&self, queue: &mut VecDeque<(usize, usize)>, y: usize, x: usize)
        requires
            self.laid_out(),
            self@.in_range(y as int, x as int),
        ensures
            extends(old(queue)@, final(queue)@),
            forall|i: int|
                old(queue)@.len() <= i < final(queue)@.len() ==> self@.in_range(
                    (#[trigger] final(queue)@[i]).0 as int,
                    final(queue)@[i].1 as int,
                ) && adjacent(
                    (y as int, x as int),
                    (final(queue)@[i].0 as int, final(queue)@[i].1 as int),
                ),
            forall|k: int|
                0 <= k < 12 ==> ({
                    let n = #[trigger] neighbors(y as int, x as int)[k];
                    self@.in_range(n.0, n.1) ==> queued(final(queue)@, n)
                }),
    {
        proof {
            lemma_dims_fit(self@);
        }
        let ghost q0 = queue@;
        let around = Self::surrounding_blocks(y as isize, x as isize);
        let mut k: usize = 0;
        while k < 12
            invariant
                k <= 12,
                self.laid_out(),
                extends(q0, queue@),
                forall|j: int|
                    0 <= j < 12 ==> (#[trigger] around@[j]).0 == neighbors(y as int, x as int)[j].0
                        && around@[j].1 == neighbors(y as int, x as int)[j].1,
                forall|i: int|
                    q0.len() <= i < queue@.len() ==> self@.in_range(
                        (#[trigger] queue@[i]).0 as int,
                        queue@[i].1 as int,
                    ) && adjacent((y as int, x as int), (queue@[i].0 as int, queue@[i].1 as int)),
                forall|j: int|
                    0 <= j < k ==> ({
                        let n = #[trigger] neighbors(y as int, x as int)[j];
                        self@.in_range(n.0, n.1) ==> queued(queue@, n)
                    }),
            decreases 12 - k,
        {
            let (ny, nx) = around[k];
            assert(around@[k as int].0 == ny);
            let ghost before = queue@;
            if Self::is_index_in_range(self, ny, nx) {
                queue.push_back((ny as usize, nx as usize));
                proof {
                    let n = neighbors(y as int, x as int)[k as int];
                    assert(n == (ny as int, nx as int));
                    assert(queue@[before.len() as int] == (ny as usize, nx as usize));
                    assert(queued(queue@, n));
                    lemma_adjacent((y as int, x as int), k as int);
                }
            }
            proof {
                assert forall|i: int| q0.len() <= i < queue@.len() implies self@.in_range(
                    (#[trigger] queue@[i]).0 as int,
                    queue@[i].1 as int,
                ) && adjacent(
                    (y as int, x as int),
                    (queue@[i].0 as int, queue@[i].1 as int),
                ) by {
                    if i < before.len() {
                        assert(queue@[i] == before[i]);
                    }
                }
                assert forall|j: int| 0 <= j < k implies ({
                    let n = #[trigger] neighbors(y as int, x as int)[j];
                    self@.in_range(n.0, n.1) ==> queued(queue@, n)
                }) by {
                    let n = neighbors(y as int, x as int)[j];
                    if self@.in_range(n.0, n.1) {
                        lemma_queued_extends(before, queue@, n);
                    }
                }
            }
            k += 1;
        }
    }

    /// Flags every cell that is not open.
    fn prepare_for_finish(&mut self)
        requires
            old(self).laid_out(),
            old(self).mark_count == tally(old(self)@.cells, Tally::Marked),
        ensures
            final(self).laid_out(),
            final(self)@ == old(self)@.all_flagged(),
            final(self).mark_count == tally(final(self)@.cells, Tally::Marked),
            final(self).mark_count == tally(old(self)@.cells, Tally::Closed),
            tally(final(self)@.cells, Tally::Closed) == tally(old(self)@.cells, Tally::Closed),
            final(self).rest_count == old(self).rest_count,
            same_mines(old(self)@, final(self)@),
            forall|i: int|
                0 <= i < old(self)@.cells.len() ==> (#[trigger] final(self)@.cells[i]).status == (
                if old(self)@.cells[i].status == BlockStatus::Open {
                    BlockStatus::Open
                } else {
                    BlockStatus::MarkedMine
                }),
            old(self).all_numbers() ==> final(self).all_numbers(),
    {
        let ghost b0 = self@;
        let n = self.blocks.len();
        let mut i: usize = 0;
        while i < n
            invariant
                i <= n,
                n == b0.cells.len(),
                self.laid_out(),
                self@ == (BoardModel { cells: self@.cells, ..b0 }),
                self@.cells.len() == n,
                self.blocks@.len() == n,
                self.rest_count == old(self).rest_count,
                self.mark_count == tally(self@.cells, Tally::Marked),
                old(self).all_numbers() ==> self.all_numbers(),
                forall|j: int| 0 <= j < i ==> #[trigger] self@.cells[j] == b0.all_flagged().cells[j],
                forall|j: int| i <= j < n ==> #[trigger] self@.cells[j] == b0.cells[j],
            decreases n - i,
        {
            let ghost before = self@;
            match self.blocks[i].status {
                BlockStatus::Normal | BlockStatus::MarkedQuestionable => {
                    self.set_status(i, BlockStatus::MarkedMine);
                    proof {
                        lemma_tally_update(
                            before.cells,
                            i as int,
                            CellState { status: BlockStatus::MarkedMine, ..before.cells[i as int] },
                            Tally::Marked,
                        );
                        lemma_tally_bound(self@.cells, Tally::Marked);
                    }
                    let ghost mid = *self;
                    self.mark_count += 1;
                    proof {
                        self.lemma_laid_out_kept(&mid);
                    }
                },
                _ => {},
            }
            i += 1;
        }
        proof {
            assert(self@.cells =~= b0.all_flagged().cells);
            lemma_tally_agree(b0.cells, Tally::Closed, self@.cells, Tally::Marked);
            lemma_tally_agree(b0.cells, Tally::Closed, self@.cells, Tally::Closed);
        }
    }

    /// Takes the verdict after cells were opened.
    fn settle(&mut self, exploded: bool, now: Timestamp)
        requires
            old(self).laid_out(),
            old(self).rest_count == tally(old(self)@.cells, Tally::Closed),
            old(self).mark_count == tally(old(self)@.cells, Tally::Marked),
        ensures
            final(self).laid_out(),
            final(self)@ == old(self)@.settle(exploded, now),
            final(self).rest_count == tally(final(self)@.cells, Tally::Closed),
            final(self).mark_count == tally(final(self)@.cells, Tally::Marked),
            same_mines(old(self)@, final(self)@),
            old(self).all_numbers() ==> final(self).all_numbers(),
    {
        if let BoardStatus::Going(start) = self.status {
            if exploded {
                let ghost mid = *self;
                self.status = BoardStatus::Died(start, now);
                proof {
                    self.lemma_laid_out_kept(&mid);
                }
            } else if self.rest_count == self.count {
                let ghost b0 = self@;
                self.prepare_for_finish();
                let ghost mid = *self;
                self.status = BoardStatus::Finished(start, now);
                proof {
                    self.lemma_laid_out_kept(&mid);
                    lemma_tally_agree(b0.cells, Tally::Closed, self@.cells, Tally::Closed);
                }
            }
        }
    }

    /// Floods the cells around `(y, x)`: every untouched neighbour is
    /// opened, and from each opened cell that shows 0 the opening spreads to
    /// its neighbours, until no cell is left to look at. Then the game is
    /// lost if a mine was opened, else won if as many cells stay closed as
    /// there are mines.
    fn flood_around(&mut self, y: usize, x: usize, now: Timestamp)
        requires
            old(self).wf(),
            old(self)@.status is Going,
            old(self)@.in_range(y as int, x as int),
        ensures
            final(self).wf(),
            final(self)@ == old(self)@.flood(y as int, x as int).settle(
                old(self)@.flood_hits_mine(y as int, x as int),
                now,
            ),
            same_mines(old(self)@, final(self)@),
    {
        let ghost b0 = self@;
        let mut queue: VecDeque<(usize, usize)> = VecDeque::new();
        self.push_surrounding(&mut queue, y, x);
        proof {
            lemma_flood_begin(b0, queue@, y as int, x as int);
        }
        let mut exploded = false;
        while queue.len() > 0
            invariant
                self.laid_out(),
                flood_inv(b0, self@, queue@, y as int, x as int),
                same_mines(b0, self@),
                self.rest_count == tally(self@.cells, Tally::Closed),
                self.mark_count == tally(self@.cells, Tally::Marked),
                self.all_numbers(),
                exploded <==> mine_opened(b0, self@),
            decreases tally(self@.cells, Tally::Untouched), queue@.len(),
        {
            let ghost before = self@;
            let ghost waiting = queue@;
            let front = queue.pop_front();
            let (cy, cx) = front.unwrap();
            proof {
                lemma_flood_front(b0, before, waiting, y as int, x as int);
            }
            let n = self.number_at(cy, cx);
            let idx = self.block_data_idx(cy, cx);
            if self.blocks[idx].status == BlockStatus::Normal {
                self.set_status(idx, BlockStatus::Open);
                if n == Some(0) {
                    self.push_surrounding(&mut queue, cy, cx);
                }
                proof {
                    lemma_flood_visit(b0, before, self@, waiting, queue@, y as int, x as int, n);
                }
                let ghost mid = *self;
                self.rest_count -= 1;
                if n.is_none() {
                    exploded = true;
                }
                proof {
                    self.lemma_laid_out_kept(&mid);
                }
            } else {
                proof {
                    lemma_flood_skip(b0, before, waiting, y as int, x as int);
                }
            }
        }
        proof {
            assert(queue@ =~= Seq::<(usize, usize)>::empty());
            lemma_flood_end(b0, self@, y as int, x as int);
        }
        let ghost flooded = self@;
        self.settle(exploded, now);
        proof {
            lemma_tally_agree(b0.cells, Tally::Mined, self@.cells, Tally::Mined);
            if self@.status is Going {
                assert forall|i: int|
                    0 <= i < self@.cells.len() && (#[trigger] self@.cells[i]).status
                        == BlockStatus::Open implies !self@.cells[i].has_mine by {
                    lemma_index_split(b0.rows as int, b0.cols as int, i);
                    let ay = i / (b0.cols as int);
                    let ax = i % (b0.cols as int);
                    if b0.cells[i].status != BlockStatus::Open {
                        assert(newly_open(b0, flooded, ay, ax));
                    }
                }
            }
        }
    }

    /// A chord on the open cell at `(y, x)`, taken at the time `now`: where
    /// the flags around the cell are as many as its number, every untouched
    /// neighbour is opened, and from each opened cell that shows 0 the
    /// opening spreads to its neighbours. A mine opened on the way loses the
    /// game, and the flood is carried through all the same; else the game
    /// is won when as many cells stay closed as there are mines. Where the
    /// game is over, the cell is not open or the flags do not match the
    /// number, the board stays as it is.
    pub fn blast_block_at(&mut self, y: usize, x: usize, now: Timestamp)
        requires
            old(self).wf(),
            old(self)@.in_range(y as int, x as int),
        ensures
            final(self).wf(),
            final(self)@ == old(self)@.blast(y as int, x as int, now),
            !old(self)@.chord_satisfied(y as int, x as int) ==> *final(self) == *old(self),
            same_mines(old(self)@, final(self)@),
    {
        match self.status {
            BoardStatus::Finished(..) | BoardStatus::Died(..) => {
                return ;
            },
            _ => {},
        }
        let idx0 = self.block_data_idx(y, x);
        match self.blocks[idx0].status {
            BlockStatus::Open => {},
            _ => {
                return ;
            },
        }
        let marked_number = self.count_marks_around(y, x);
        match self.number_at(y, x) {
            Some(n) => {
                if n != marked_number {
                    return ;
                }
            },
            None => {
                return ;
            },
        }
        proof {
            assert(self@.cells[idx0 as int].status == BlockStatus::Open);
            assert(self@.status is Going);
        }
        self.flood_around(y, x, now);
    }

    /// A chord on the open cell at `(y, x)`, taken now.
    pub fn blast_block(&mut self, y: usize, x: usize)
        requires
            old(self).wf(),
            old(self)@.in_range(y as int, x as int),
        ensures
            final(self).wf(),
            exists|now: Timestamp| final(self)@ == old(self)@.blast(y as int, x as int, now),
            !old(self)@.chord_satisfied(y as int, x as int) ==> *final(self) == *old(self),
    {
        let now = Timestamp::now();
        self.blast_block_at(y, x, now);
    }
}

/// Draws an index from `0..=high`, each with the same chance.
///
/// Trusted: calls `rand::thread_rng` and samples
/// `rand::distributions::Uniform::new_inclusive(0, high)` once. Claimed is
/// only the range that the distribution is made with.
#[verifier::external_body]
fn random_index(high: usize) -> (r: usize)
    ensures
        r <= high,
{
    rand::thread_rng().sample(Uniform::new_inclusive(0usize, high))
}

/// Draws that may be turned down in a row before a free cell is taken in
/// index order instead.
pub const MAX_REJECTED_DRAWS: usize = 4096;

/// The chosen indices, with the excluded one in front where there is one.
spec fn members_of(chosen: Seq<usize>, excluded: Option<usize>) -> Seq<usize> {
    match excluded {
        Some(e) => seq![e] + chosen,
        None => chosen,
    }
}

/// Where every cell is chosen or excluded, the chosen cells and the
/// excluded one are at least as many as the cells.
proof fn lemma_no_free_cell(picker: &MinePicker)
    requires
        picker.wf(),
        forall|u: usize| !picker.is_free(u),
    ensures
        picker.chosen().len() + 1 >= picker.cells(),
{
    let members = members_of(picker.chosen(), picker.excluded());
    assert forall|v: usize| v < picker.cells() implies #[trigger] members.contains(v) by {
        assert(!picker.is_free(v));
        if picker.chosen().contains(v) {
            let i = choose|i: int| 0 <= i < picker.chosen().len() && picker.chosen()[i] == v;
            if picker.excluded() is Some {
                assert(members[i + 1] == v);
            } else {
                assert(members[i] == v);
            }
        } else {
            assert(members[0] == v);
        }
    }
    lemma_covering_is_long(members, picker.cells() as nat);
}

impl Board {
    /// Chooses where the mines go: as many different cells as the board
    /// holds mines, none of them `exclude_pos`.
    ///
    /// Cells are drawn at random from the whole board, and a draw is turned
    /// down when the cell is excluded or already chosen. After
    /// `MAX_REJECTED_DRAWS` draws turned down in a row the free cell with
    /// the smallest index is taken, so that the choice ends whatever is
    /// drawn.
    pub fn allocate_mine_pos_list(&self, exclude_pos: Option<(usize, usize)>) -> (list: Vec<usize>)
        requires
            self.wf(),
            exclude_pos matches Some(p) ==> self@.in_range(p.0 as int, p.1 as int),
        ensures
            self@.valid_layout(list@),
            exclude_pos matches Some(p) ==> !list@.contains(
                self@.index(p.0 as int, p.1 as int) as usize,
            ),
    {
        proof {
            lemma_dims_fit(self@);
        }
        let mapsize = self.size.0 * self.size.1;
        let excluded: Option<usize> = match exclude_pos {
            Some((y, x)) => Some(self.block_data_idx(y, x)),
            None => None,
        };
        let mut picker = MinePicker::new(mapsize, excluded);
        let mut budget: usize = MAX_REJECTED_DRAWS;
        while picker.len() < self.count
            invariant
                self.wf(),
                mapsize == self@.rows * self@.cols,
                self.count < mapsize,
                picker.wf(),
                picker.cells() == mapsize,
                picker.excluded() == excluded,
                picker.chosen().len() <= self.count,
            decreases self.count - picker.chosen().len(), budget,
        {
            if budget > 0 {
                let candidate = random_index(mapsize - 1);
                if picker.offer(candidate) {
                    budget = MAX_REJECTED_DRAWS;
                } else {
                    budget = budget - 1;
                }
            } else {
                let ghost stuck = picker;
                match picker.take_first_free() {
                    Some(_) => {
                        budget = MAX_REJECTED_DRAWS;
                    },
                    None => {
                        proof {
                            lemma_no_free_cell(&stuck);
                        }
                    },
                }
            }
        }
        proof {
            picker.lemma_chosen();
        }
        picker.into_list()
    }

    /// Lays a mine on each cell that `list` names.
    fn place_mines(&mut self, list: &Vec<usize>)
        requires
            old(self).wf(),
            old(self)@.status is Ready,
            list@.no_duplicates(),
            forall|i: int| 0 <= i < list@.len() ==> #[trigger] list@[i] < old(self)@.cells.len(),
        ensures
            final(self).laid_out(),
            final(self)@ == old(self)@.with_mines(list@),
            final(self).rest_count == old(self).rest_count,
            final(self).mark_count == old(self).mark_count,
            final(self).no_numbers(),
            tally(final(self)@.cells, Tally::Mined) == list@.len(),
    {
        let ghost b0 = self@;
        proof {
            lemma_tally_uniform(b0.cells, Tally::Mined);
            assert(self@.cells =~= b0.with_mines(list@.take(0)).cells);
        }
        let mut k: usize = 0;
        while k < list.len()
            invariant
                k <= list@.len(),
                b0.laid_out(),
                b0 == old(self)@,
                forall|i: int| 0 <= i < b0.cells.len() ==> !(#[trigger] b0.cells[i]).has_mine,
                list@.no_duplicates(),
                forall|i: int| 0 <= i < list@.len() ==> #[trigger] list@[i] < b0.cells.len(),
                self.laid_out(),
                self.no_numbers(),
                self@ == b0.with_mines(list@.take(k as int)),
                self.rest_count == old(self).rest_count,
                self.mark_count == old(self).mark_count,
                tally(self@.cells, Tally::Mined) == k,
            decreases list@.len() - k,
        {
            let mine_idx = list[k];
            let ghost before = *self;
            let b = self.blocks[mine_idx];
            self.blocks.set(
                mine_idx,
                Block { has_mine: true, cached_number: b.cached_number, status: b.status },
            );
            proof {
                let placed = list@.take(k as int);
                let next = list@.take(k as int + 1);
                assert(!placed.contains(mine_idx)) by {
                    if placed.contains(mine_idx) {
                        let i = choose|i: int| 0 <= i < placed.len() && placed[i] == mine_idx;
                        assert(list@[i] == list@[k as int]);
                    }
                }
                assert(next[k as int] == mine_idx);
                assert forall|v: usize| next.contains(v) <==> placed.contains(v) || v
                    == mine_idx by {
                    if placed.contains(v) {
                        let i = choose|i: int| 0 <= i < placed.len() && placed[i] == v;
                        assert(next[i] == v);
                    }
                    if next.contains(v) && v != mine_idx {
                        let i = choose|i: int| 0 <= i < next.len() && next[i] == v;
                        assert(placed[i] == v);
                    }
                }
                assert(self@.cells =~= before@.cells.update(
                    mine_idx as int,
                    CellState { has_mine: true, ..before@.cells[mine_idx as int] },
                ));
                assert(self@.cells =~= b0.with_mines(next).cells);
                lemma_tally_update(
                    before@.cells,
                    mine_idx as int,
                    CellState { has_mine: true, ..before@.cells[mine_idx as int] },
                    Tally::Mined,
                );
                assert forall|i: int| 0 <= i < self.blocks@.len() implies #[trigger] self.cache_ok(
                    i,
                ) by {
                    assert(self.blocks@[i].cached_number is None);
                }
            }
            k += 1;
        }
        proof {
            assert(list@.take(list@.len() as int) =~= list@);
        }
    }

    /// Works out the number of every cell without a mine and remembers it.
    fn refresh_numbers(&mut self)
        requires
            old(self).laid_out(),
        ensures
            final(self).laid_out(),
            final(self)@ == old(self)@,
            final(self).rest_count == old(self).rest_count,
            final(self).mark_count == old(self).mark_count,
            final(self).all_numbers(),
    {
        let rows = self.size.0;
        let cols = self.size.1;
        let mut y: usize = 0;
        while y < rows
            invariant
                y <= rows,
                rows == self@.rows,
                cols == self@.cols,
                self.numbered_up_to(y as int * cols as int),
                self.laid_out(),
                self@ == old(self)@,
                self.rest_count == old(self).rest_count,
                self.mark_count == old(self).mark_count,
            decreases rows - y,
        {
            let mut x: usize = 0;
            while x < cols
                invariant
                    y < rows,
                    x <= cols,
                    rows == self@.rows,
                    cols == self@.cols,
                    self.numbered_up_to(y as int * cols as int + x as int),
                    self.laid_out(),
                    self@ == old(self)@,
                    self.rest_count == old(self).rest_count,
                    self.mark_count == old(self).mark_count,
                decreases cols - x,
            {
                let idx = self.block_data_idx(y, x);
                let b = self.blocks[idx];
                assert(idx == y * cols + x);
                if !b.has_mine {
                    let number = self.count_mines_around(y, x);
                    let ghost before = *self;
                    self.blocks.set(
                        idx,
                        Block { has_mine: b.has_mine, cached_number: Some(number), status: b.status },
                    );
                    proof {
                        assert(self@.cells =~= before@.cells);
                        assert forall|i: int|
                            0 <= i < self.blocks@.len() implies #[trigger] self.cache_ok(i) by {
                            assert(before.cache_ok(i));
                        }
                    }
                }
                x += 1;
            }
            proof {
                assert(y * cols + cols == (y + 1) * cols) by (nonlinear_arith);
            }
            y += 1;
        }
    }

    /// The first `n` cells remember a number unless they hold a mine.
    spec fn numbered_up_to(&self, n: int) -> bool {
        forall|i: int|
            0 <= i < n && i < self.blocks@.len() ==> (#[trigger] self.blocks@[i]).has_mine
                || self.blocks@[i].cached_number is Some
    }

    /// Lays the mines for a game whose first move is at `(y, x)`: the fixed
    /// layout where the board has one, else a fresh one that leaves `(y, x)`
    /// free.
    fn start_game_with(&mut self, y: usize, x: usize)
        requires
            old(self).wf(),
            old(self)@.status is Ready,
            old(self)@.in_range(y as int, x as int),
        ensures
            final(self).laid_out(),
            final(self).rest_count == old(self).rest_count,
            final(self).mark_count == old(self).mark_count,
            exists|mines: Seq<usize>| #[trigger]
                old(self)@.first_layout(mines, y as int, x as int) && final(self)@ == old(
                    self,
                )@.with_mines(mines),
            tally(final(self)@.cells, Tally::Mined) == old(self)@.goal,
            final(self).all_numbers(),
    {
        let list: Rc<Vec<usize>> = match self.fixed_mine_pos.as_ref() {
            Some(fixed) => fixed.clone(),
            None => Rc::new(self.allocate_mine_pos_list(Some((y, x)))),
        };
        proof {
            assert(old(self)@.first_layout(list@, y as int, x as int));
        }
        self.place_mines(&list);
        self.refresh_numbers();
    }

    /// Opens the cell at `(y, x)` of a game that is under way.
    fn open_going(&mut self, y: usize, x: usize, now: Timestamp)
        requires
            old(self).wf(),
            old(self)@.status is Going,
            old(self)@.in_range(y as int, x as int),
        ensures
            final(self).wf(),
            final(self)@ == old(self)@.open_cell(y as int, x as int, now),
            same_mines(old(self)@, final(self)@),
    {
        let idx = self.block_data_idx(y, x);
        match self.blocks[idx].status {
            BlockStatus::Normal | BlockStatus::MarkedQuestionable => {},
            _ => {
                return ;
            },
        }
        let start = match self.status {
            BoardStatus::Going(start) => start,
            _ => {
                return ;
            },
        };
        let ghost b0 = self@;
        let number = self.number_at(y, x);
        self.set_status(idx, BlockStatus::Open);
        proof {
            let c = CellState { status: BlockStatus::Open, ..b0.cells[idx as int] };
            lemma_tally_update(b0.cells, idx as int, c, Tally::Closed);
            lemma_tally_update(b0.cells, idx as int, c, Tally::Marked);
            lemma_tally_update(b0.cells, idx as int, c, Tally::Mined);
        }
        let ghost mid = *self;
        self.rest_count -= 1;
        proof {
            self.lemma_laid_out_kept(&mid);
        }
        match number {
            Some(n) => {
                let ghost opened = self@;
                self.settle(false, now);
                proof {
                    lemma_tally_agree(opened.cells, Tally::Mined, self@.cells, Tally::Mined);
                    assert(self@.wf());
                }
                if n == 0 {
                    if let BoardStatus::Going(_) = self.status {
                        proof {
                            lemma_numbers_same(b0, self@);
                            law_flood_from_zero_is_safe(self@, y as int, x as int);
                        }
                        self.flood_around(y, x, now);
                    }
                }
            },
            None => {
                let ghost mid = *self;
                self.status = BoardStatus::Died(start, now);
                proof {
                    self.lemma_laid_out_kept(&mid);
                }
            },
        }
    }

    /// Opens the cell at `(y, x)` at the time `now`.
    ///
    /// On a board that is ready the mines are laid first, so that `(y, x)`
    /// stays free unless the board has a fixed layout, and the game starts.
    /// Then, if the game is under way and the cell is untouched or carries a
    /// question mark, it is opened: a mine loses the game; any other cell
    /// shows its number and wins the game when as many cells stay closed as
    /// there are mines. Where its number is 0 and the game goes on, the
    /// cells around it are flooded, whatever flags there are: every
    /// untouched cell that is reached is opened, and the flood stops at
    /// cells that are not untouched.
    pub fn open_block_at(&mut self, y: usize, x: usize, now: Timestamp)
        requires
            old(self).wf(),
            old(self)@.in_range(y as int, x as int),
        ensures
            final(self).wf(),
            old(self)@.opens_to(y as int, x as int, now, final(self)@),
            old(self)@.status is Ready && old(self)@.fixed is None ==> !final(self)@.cell(
                y as int,
                x as int,
            ).has_mine,
    {
        let ghost b0 = self@;
        if let BoardStatus::Ready = self.status {
            self.start_game_with(y, x);
            let ghost mid = *self;
            self.status = BoardStatus::Going(now);
            proof {
                self.lemma_laid_out_kept(&mid);
                let mines = choose|mines: Seq<usize>| #[trigger]
                    b0.first_layout(mines, y as int, x as int) && mid@ == b0.with_mines(mines);
                assert(self@ == b0.mined(mines, now));
                lemma_tally_agree(b0.cells, Tally::Closed, self@.cells, Tally::Closed);
                lemma_tally_agree(b0.cells, Tally::Marked, self@.cells, Tally::Marked);
                lemma_index_bounds(b0.rows as int, b0.cols as int, y as int, x as int);
                assert(self@.wf());
            }
            self.open_going(y, x, now);
        } else if let BoardStatus::Going(_) = self.status {
            self.open_going(y, x, now);
        }
    }

    /// Opens the cell at `(y, x)` now.
    pub fn open_block(&mut self, y: usize, x: usize)
        requires
            old(self).wf(),
            old(self)@.in_range(y as int, x as int),
        ensures
            final(self).wf(),
            exists|now: Timestamp| old(self)@.opens_to(y as int, x as int, now, final(self)@),
            old(self)@.status is Ready && old(self)@.fixed is None ==> !final(self)@.cell(
                y as int,
                x as int,
            ).has_mine,
    {
        let now = Timestamp::now();
        self.open_block_at(y, x, now);
    }
}

impl Board {
    /// A board for another game of the same size and mine count, with the
    /// same fixed layout where there is one.
    pub fn renew(&self) -> (board: Board)
        requires
            self.wf(),
        ensures
            board.wf(),
            board@ == (BoardModel {
                fixed: self@.fixed,
                ..BoardModel::fresh(self@.rows, self@.cols, self@.goal)
            }),
    {
        let size = self.size();
        let count = self.goal_mark_count();
        let fixed_mine_pos = match self.fixed_mine_pos.as_ref() {
            Some(list) => Some(list.clone()),
            None => None,
        };
        let mut board = Board::new(size.0, size.1, count);
        board.update_fixed_mine_pos_list(fixed_mine_pos);
        board
    }

    /// Where the mines are, in rising order of index; nothing before the
    /// first move, when no mine is laid yet.
    pub fn snapshot_mine_pos_list(&self) -> (list: Option<Vec<usize>>)
        requires
            self.wf(),
        ensures
            self@.status is Ready <==> list is None,
            list matches Some(l) ==> self@.mines_listed(l@) && self@.valid_layout(l@),
    {
        if let BoardStatus::Ready = self.status {
            return None;
        }
        let mut result: Vec<usize> = Vec::new();
        let n = self.blocks.len();
        let mut mine_idx: usize = 0;
        while mine_idx < n
            invariant
                mine_idx <= n,
                n == self.blocks@.len(),
                n == self@.cells.len(),
                result@.len() == tally(self@.cells.take(mine_idx as int), Tally::Mined),
                forall|i: int, j: int| 0 <= i < j < result@.len() ==> result@[i] < result@[j],
                forall|i: int|
                    0 <= i < result@.len() ==> (#[trigger] result@[i]) < mine_idx
                        && self@.cells[result@[i] as int].has_mine,
                forall|k: int|
                    0 <= k < mine_idx && (#[trigger] self@.cells[k]).has_mine ==> result@.contains(
                        k as usize,
                    ),
            decreases n - mine_idx,
        {
            let ghost before = result@;
            proof {
                lemma_tally_step(self@.cells, mine_idx as int, Tally::Mined);
            }
            if self.blocks[mine_idx].has_mine {
                result.push(mine_idx);
                proof {
                    assert(result@[before.len() as int] == mine_idx);
                    assert forall|k: int|
                        0 <= k < mine_idx + 1 && (#[trigger] self@.cells[k]).has_mine implies result@.contains(
                        k as usize,
                    ) by {
                        if k < mine_idx {
                            let i = choose|i: int| 0 <= i < before.len() && before[i] == k as usize;
                            assert(result@[i] == k as usize);
                        }
                    }
                }
            }
            mine_idx += 1;
        }
        proof {
            assert(self@.cells.take(n as int) =~= self@.cells);
            lemma_dims_fit(self@);
        }
        Some(result)
    }

    /// What the cell at `pos` shows while the pointer is pressed as `focus`
    /// says: on which cell, and whether as a chord.
    pub fn block_display_kind(&self, pos: (usize, usize), focus: Option<(usize, usize, bool)>) -> (kind:
        BlockDisplayKind)
        requires
            self.wf(),
            self@.in_range(pos.0 as int, pos.1 as int),
        ensures
            kind == self@.display_kind(
                pos.0 as int,
                pos.1 as int,
                match focus {
                    Some(f) => Some((f.0 as int, f.1 as int, f.2)),
                    None => None,
                },
            ),
            kind matches BlockDisplayKind::OpenWithNumber(n) ==> n <= 12,
    {
        let (y, x) = pos;
        let block_display_number = self.block_display_number(y, x);
        let block_status = self.block_status(y, x);
        let pushed = match focus {
            Some((focus_y, focus_x, blast)) => if blast {
                Self::is_surrounding((y, x), (focus_y, focus_x))
            } else {
                focus_y == y && focus_x == x
            },
            None => false,
        };
        match block_status {
            BlockStatus::Normal => match self.status {
                BoardStatus::Died(..) => {
                    if block_display_number.is_none() {
                        BlockDisplayKind::NotMarkedMine
                    } else {
                        BlockDisplayKind::Normal
                    }
                },
                BoardStatus::Finished(..) => BlockDisplayKind::Normal,
                _ => {
                    if pushed {
                        BlockDisplayKind::PushNormal
                    } else {
                        BlockDisplayKind::Normal
                    }
                },
            },
            BlockStatus::Open => {
                if let Some(n) = block_display_number {
                    BlockDisplayKind::OpenWithNumber(n)
                } else {
                    BlockDisplayKind::ExplodedMine
                }
            },
            BlockStatus::MarkedMine => match self.status {
                BoardStatus::Died(..) => {
                    if block_display_number.is_some() {
                        BlockDisplayKind::WrongMarkedMine
                    } else {
                        BlockDisplayKind::MarkedMine
                    }
                },
                _ => BlockDisplayKind::MarkedMine,
            },
            BlockStatus::MarkedQuestionable => match self.status {
                BoardStatus::Died(..) => {
                    if block_display_number.is_none() {
                        BlockDisplayKind::NotMarkedMine
                    } else {
                        BlockDisplayKind::MarkedQuestionable
                    }
                },
                BoardStatus::Finished(..) => BlockDisplayKind::MarkedQuestionable,
                _ => {
                    if pushed {
                        BlockDisplayKind::PushMarkedQuestionable
                    } else {
                        BlockDisplayKind::MarkedQuestionable
                    }
                },
            },
        }
    }

    /// What the new-game button shows: pushed in while pressed, else the end
    /// of the game where it is over, else danger while the pointer is
    /// captured.
    pub fn game_button_display_kind(&self, pressed: bool, captured: bool) -> (kind:
        GameButtonDisplayKind)
        ensures
            kind == self@.button_kind(pressed, captured),
    {
        if pressed {
            GameButtonDisplayKind::Pushed
        } else {
            match self.status {
                BoardStatus::Finished(..) => GameButtonDisplayKind::Finished,
                BoardStatus::Died(..) => GameButtonDisplayKind::Died,
                _ => if captured {
                    GameButtonDisplayKind::Danger
                } else {
                    GameButtonDisplayKind::Normal
                },
            }
        }
    }

    /// What the mine panel shows: the mines of the board less the flags set.
    pub fn display_value_mine_left(&self) -> (v: isize)
        requires
            self.wf(),
        ensures
            v == self@.goal - tally(self@.cells, Tally::Marked),
    {
        proof {
            lemma_dims_fit(self@);
            lemma_tally_bound(self@.cells, Tally::Marked);
        }
        self.count as isize - self.mark_count as isize
    }

    /// What the time panel shows at the time `now`: 0 before the first
    /// move, the seconds since the first move while the game is under way,
    /// and the seconds that the game took once it is over; never more than
    /// 999.
    pub fn display_value_time_at(&self, now: Timestamp) -> (v: isize)
        ensures
            v == self@.shown_seconds(now),
            0 <= v <= 999,
    {
        match self.status {
            BoardStatus::Ready => 0,
            BoardStatus::Going(start) => start.seconds_until(&now),
            BoardStatus::Finished(start, end) => start.seconds_until(&end),
            BoardStatus::Died(start, end) => start.seconds_until(&end),
        }
    }

    /// What the time panel shows now.
    pub fn display_value_time(&self) -> (v: isize)
        ensures
            exists|now: Timestamp| v == self@.shown_seconds(now),
            0 <= v <= 999,
    {
        let now = Timestamp::now();
        self.display_value_time_at(now)
    }
}

/// What the session can be asked to do. The `Effect` commands change
/// nothing in the game: they only tell the view what is pressed.
#[derive(Clone, Debug)]
pub enum ModelCommand {
    Initialize,
    NewGame,
    NewGameWithBoard(BoardSetting),
    OpenBlock(usize, usize),
    BlastBlock(usize, usize),
    RotateBlockState(usize, usize),
    ToggleAllowMarks,
    SaveMap(String),
    LoadMap(String),
    RestartGame,
    EffectNewGameButtonDown,
    EffectNewGameButtonUp,
    EffectPushBlock { x: usize, y: usize },
    EffectPopBlock { x: usize, y: usize },
    EffectBlastDownBlock { x: usize, y: usize },
    EffectBlastUpBlock { x: usize, y: usize },
    EffectCapture,
    EffectUnCapture,
}

/// The session as the contracts see it.
pub struct ModelState {
    pub config: Config,
    pub mode: ModeModel,
    pub board: BoardModel,
}

/// What the session answers to a command: what the view is to be told, in
/// order, and for a save the bytes of the map file to be written.
pub struct ModelReply {
    pub notifications: Vec<ViewCommand>,
    pub write: Option<Vec<u8>>,
}

/// The layout that the file handed in with a load holds: none where the
/// file could not be read or is no map file.
pub open spec fn loaded(file: Option<Vec<u8>>) -> Option<LayoutModel> {
    match file {
        Some(data) => parsed_layout(data@),
        None => None,
    }
}

impl ModelState {
    /// Whether `after` is the session with its layout pinned: a session
    /// that is predefined stays as it is; any other becomes predefined with
    /// a layout that its board can be pinned to, and its board keeps it.
    pub open spec fn pinned(self, after: ModelState) -> bool {
        if self.mode is Predefined {
            after == self
        } else {
            exists|mines: Seq<usize>| #[trigger]
                self.board.pins(mines) && after == (ModelState {
                    mode: ModeModel::Predefined(
                        LayoutModel { rows: self.board.rows, cols: self.board.cols, mines },
                    ),
                    board: BoardModel { fixed: Some(mines), ..self.board },
                    ..self
                })
        }
    }

    /// The session with a fresh board for another game.
    pub open spec fn renewed(self) -> ModelState {
        ModelState {
            board: BoardModel {
                fixed: self.board.fixed,
                ..BoardModel::fresh(self.board.rows, self.board.cols, self.board.goal)
            },
            ..self
        }
    }

    /// Whether `after` is a session that `command`, taken at `now`, may
    /// leave. `file` is what was read for a load.
    pub open spec fn steps_to(
        self,
        command: ModelCommand,
        file: Option<Vec<u8>>,
        now: Timestamp,
        after: ModelState,
    ) -> bool {
        match command {
            ModelCommand::NewGame => after == (ModelState {
                board: BoardModel::fresh(self.board.rows, self.board.cols, self.board.goal),
                ..self
            }),
            ModelCommand::NewGameWithBoard(v) => after == (ModelState {
                board: BoardModel::fresh(v.y as nat, v.x as nat, v.c as nat),
                ..self
            }),
            ModelCommand::OpenBlock(y, x) => after == (ModelState { board: after.board, ..self })
                && self.board.opens_to(y as int, x as int, now, after.board),
            ModelCommand::BlastBlock(y, x) => after == (ModelState {
                board: self.board.blast(y as int, x as int, now),
                ..self
            }),
            ModelCommand::RotateBlockState(y, x) => after == (ModelState {
                board: self.board.rotate(y as int, x as int),
                ..self
            }),
            ModelCommand::ToggleAllowMarks => after == (ModelState {
                config: Config {
                    allow_marks: AllowMarks(!self.config.allow_marks.0),
                    ..self.config
                },
                board: BoardModel { allow_marks: !self.config.allow_marks.0, ..self.board },
                ..self
            }),
            ModelCommand::LoadMap(_) => match loaded(file) {
                Some(layout) => after == (ModelState {
                    mode: ModeModel::Predefined(layout),
                    board: layout.board(),
                    ..self
                }),
                None => after == self,
            },
            ModelCommand::SaveMap(_) => self.pinned(after),
            ModelCommand::RestartGame => exists|mid: ModelState| #[trigger]
                self.pinned(mid) && after == mid.renewed(),
            _ => after == self,
        }
    }

    /// What the view is told after `command` has led to the session
    /// `after`.
    pub open spec fn replies(
        command: ModelCommand,
        file: Option<Vec<u8>>,
        after: ModelState,
    ) -> Seq<Notice> {
        let refresh = Notice::Plain(ViewCommand::Refresh);
        match command {
            ModelCommand::Initialize => seq![Notice::Plain(ViewCommand::Initialize), refresh],
            ModelCommand::NewGame => seq![refresh],
            ModelCommand::NewGameWithBoard(v) => seq![
                Notice::Plain(ViewCommand::UpdateUIBoardSetting(v)),
                refresh,
            ],
            ModelCommand::OpenBlock(..) => seq![refresh],
            ModelCommand::BlastBlock(..) => seq![refresh],
            ModelCommand::RotateBlockState(..) => seq![refresh],
            ModelCommand::ToggleAllowMarks => seq![
                Notice::Plain(ViewCommand::UpdateUIAllowMarks(after.config.allow_marks)),
                refresh,
            ],
            ModelCommand::LoadMap(_) => if loaded(file) is Some {
                seq![Notice::GameMode(after.mode), refresh]
            } else {
                seq![Notice::Plain(ViewCommand::AlertFailure(AlertFailure::FileIOError))]
            },
            ModelCommand::SaveMap(_) => seq![Notice::GameMode(after.mode), refresh],
            ModelCommand::RestartGame => seq![Notice::GameMode(after.mode), refresh],
            ModelCommand::EffectNewGameButtonDown => seq![
                Notice::Plain(ViewCommand::SetButtonPressed(true)),
                refresh,
            ],
            ModelCommand::EffectNewGameButtonUp => seq![
                Notice::Plain(ViewCommand::SetButtonPressed(false)),
                refresh,
            ],
            ModelCommand::EffectPushBlock { x, y } => seq![
                Notice::Plain(ViewCommand::SetBlockPressed(y, x, false)),
                refresh,
            ],
            ModelCommand::EffectPopBlock { x, y } => seq![
                Notice::Plain(ViewCommand::UnsetBlockPressed(y, x, false)),
                refresh,
            ],
            ModelCommand::EffectBlastDownBlock { x, y } => seq![
                Notice::Plain(ViewCommand::SetBlockPressed(y, x, true)),
                refresh,
            ],
            ModelCommand::EffectBlastUpBlock { x, y } => seq![
                Notice::Plain(ViewCommand::UnsetBlockPressed(y, x, true)),
                refresh,
            ],
            ModelCommand::EffectCapture => seq![Notice::Plain(ViewCommand::SetCapture), refresh],
            ModelCommand::EffectUnCapture => seq![
                Notice::Plain(ViewCommand::ReleaseCapture),
                refresh,
            ],
        }
    }

    /// The bytes to be written after `command` has led to the session
    /// `after`: the map file of the pinned layout after a save, else none.
    pub open spec fn written(command: ModelCommand, after: ModelState) -> Option<Seq<u8>> {
        match (command, after.mode) {
            (ModelCommand::SaveMap(_), ModeModel::Predefined(layout)) => Some(
                encode(layout.rows as usize, layout.cols as usize, layout.mines),
            ),
            _ => None,
        }
    }
}

/// Whether `command` can be given to a session with the board `board`: a
/// move names a cell on the board, and a new board is one that can be
/// played.
pub open spec fn command_fits(command: ModelCommand, board: BoardModel) -> bool {
    match command {
        ModelCommand::OpenBlock(y, x) => board.in_range(y as int, x as int),
        ModelCommand::BlastBlock(y, x) => board.in_range(y as int, x as int),
        ModelCommand::RotateBlockState(y, x) => board.in_range(y as int, x as int),
        ModelCommand::NewGameWithBoard(v) => v.playable(),
        _ => true,
    }
}

/// A session: the settings, the mode and the board in play.
pub struct Model {
    config: Config,
    game_mode: GameMode,
    board: Board,
}

impl View for Model {
    type V = ModelState;

    closed spec fn view(&self) -> ModelState {
        ModelState { config: self.config, mode: self.game_mode@, board: self.board@ }
    }
}

impl Model {
    /// The invariant of a session: that of its board, and a saved layout
    /// that fits.
    pub closed spec fn wf(&self) -> bool {
        self.board.wf() && self.game_mode.wf()
    }

    /// A session in normal mode on an easy board.
    pub fn new() -> (model: Model)
        ensures
            model.wf(),
            model@.config.board_setting == BoardSetting::easy(),
            model@.config.allow_marks == AllowMarks(true),
            model@.config.zoom_ratio == ZoomRatio::Zoom1x,
            model@.mode == ModeModel::Normal,
            model@.board == BoardModel::fresh(10, 11, 10),
    {
        let config = Config::new();
        let game_mode = GameMode::Normal;
        assert(10 * 11 == 110 && 9 * 10 == 90) by (nonlinear_arith);
        let mut board = Board::new(config.board_setting.y, config.board_setting.x, config.board_setting.c);
        board.set_allow_marks(config.allow_marks.0);
        Model { config, game_mode, board }
    }

    pub fn config(&self) -> (config: &Config)
        ensures
            *config == self@.config,
    {
        &self.config
    }

    pub fn game_mode(&self) -> (mode: GameMode)
        ensures
            mode@ == self@.mode,
    {
        self.game_mode.clone()
    }

    /// The board in play.
    pub fn board(&self) -> (board: &Board)
        requires
            self.wf(),
        ensures
            board.wf(),
            board@ == self@.board,
    {
        &self.board
    }

    /// Whether `command` can be given to the session: a move names a cell
    /// of the board in play, and a new board is one that can be played.
    pub fn accepts(&self, command: &ModelCommand) -> (r: bool)
        requires
            self.wf(),
        ensures
            r == command_fits(*command, self@.board),
    {
        let (rows, cols) = self.board.size();
        match command {
            ModelCommand::OpenBlock(y, x) => *y < rows && *x < cols,
            ModelCommand::BlastBlock(y, x) => *y < rows && *x < cols,
            ModelCommand::RotateBlockState(y, x) => *y < rows && *x < cols,
            ModelCommand::NewGameWithBoard(v) => v.is_playable(),
            _ => true,
        }
    }

    /// Pins the layout of the board in play, unless one is pinned already.
    fn pin_layout(&mut self)
        requires
            old(self).wf(),
        ensures
            final(self).wf(),
            old(self)@.pinned(final(self)@),
            final(self)@.mode is Predefined,
    {
        if !self.game_mode.is_predefined() {
            let ghost before = self@;
            let board_saved = BoardSaved::import_from_board(&mut self.board);
            proof {
                assert(before.board.pins(board_saved.mine_pos@));
            }
            self.game_mode = GameMode::BoardPredefined(board_saved);
        }
    }

    /// Carries out `command` at the time `now` and says what the view is to
    /// be told. `file` is the content of the file that a load names, read by
    /// the caller, or nothing where it could not be read. The bytes that a
    /// save is to write come back for the caller to write.
    pub fn process_command_at(
        &mut self,
        command: ModelCommand,
        file: Option<Vec<u8>>,
        now: Timestamp,
    ) -> (reply: ModelReply)
        requires
            old(self).wf(),
            command_fits(command, old(self)@.board),
        ensures
            final(self).wf(),
            old(self)@.steps_to(command, file, now, final(self)@),
            notices(reply.notifications@) == ModelState::replies(command, file, final(self)@),
            match reply.write {
                Some(data) => ModelState::written(command, final(self)@) == Some(data@),
                None => ModelState::written(command, final(self)@) is None,
            },
    {
        let mut notifications: Vec<ViewCommand> = Vec::new();
        let mut write: Option<Vec<u8>> = None;
        match command {
            ModelCommand::Initialize => {
                notifications.push(ViewCommand::Initialize);
            },
            ModelCommand::NewGameWithBoard(v) => {
                assert(v.y * v.x == v.x * v.y && (v.y - 1) * (v.x - 1) == (v.x - 1) * (v.y - 1))
                    by (nonlinear_arith);
                self.board = Board::new(v.y, v.x, v.c);
                notifications.push(ViewCommand::UpdateUIBoardSetting(v));
            },
            ModelCommand::NewGame => {
                proof {
                    self.board.lemma_wf_model();
                }
                let size = self.board.size();
                let count = self.board.goal_mark_count();
                self.board = Board::new(size.0, size.1, count);
            },
            ModelCommand::LoadMap(_) => {
                let board_saved = match file {
                    Some(ref data) => BoardSaved::import_from_file(data.as_slice()),
                    None => None,
                };
                match board_saved {
                    Some(saved) => {
                        let mut board = Board::new(
                            saved.board_size.0,
                            saved.board_size.1,
                            saved.mine_pos.len(),
                        );
                        board.update_fixed_mine_pos_list(Some(saved.mine_pos.clone()));
                        self.board = board;
                        self.game_mode = GameMode::BoardPredefined(saved);
                        notifications.push(ViewCommand::UpdateUIGameMode(self.game_mode.clone()));
                    },
                    None => {
                        notifications.push(ViewCommand::AlertFailure(AlertFailure::FileIOError));
                        proof {
                            assert(notices(notifications@) =~= ModelState::replies(
                                command,
                                file,
                                self@,
                            ));
                        }
                        return ModelReply { notifications, write };
                    },
                }
            },
            ModelCommand::SaveMap(_) => {
                self.pin_layout();
                if let GameMode::BoardPredefined(saved) = &self.game_mode {
                    write = Some(saved.export_to_file());
                }
                notifications.push(ViewCommand::UpdateUIGameMode(self.game_mode.clone()));
            },
            ModelCommand::RestartGame => {
                self.pin_layout();
                let ghost mid = self@;
                notifications.push(ViewCommand::UpdateUIGameMode(self.game_mode.clone()));
                self.board = self.board.renew();
                proof {
                    assert(self@ == mid.renewed());
                }
            },
            ModelCommand::OpenBlock(y, x) => {
                self.board.open_block_at(y, x, now);
            },
            ModelCommand::BlastBlock(y, x) => {
                self.board.blast_block_at(y, x, now);
            },
            ModelCommand::RotateBlockState(y, x) => {
                self.board.rotate_block_state(y, x);
            },
            ModelCommand::ToggleAllowMarks => {
                let new_state = !self.config.allow_marks.0;
                self.board.set_allow_marks(new_state);
                self.config.allow_marks = AllowMarks(new_state);
                notifications.push(ViewCommand::UpdateUIAllowMarks(AllowMarks(new_state)));
            },
            ModelCommand::EffectNewGameButtonDown => {
                notifications.push(ViewCommand::SetButtonPressed(true));
            },
            ModelCommand::EffectNewGameButtonUp => {
                notifications.push(ViewCommand::SetButtonPressed(false));
            },
            ModelCommand::EffectPushBlock { y, x } => {
                notifications.push(ViewCommand::SetBlockPressed(y, x, false));
            },
            ModelCommand::EffectPopBlock { y, x } => {
                notifications.push(ViewCommand::UnsetBlockPressed(y, x, false));
            },
            ModelCommand::EffectBlastDownBlock { y, x } => {
                notifications.push(ViewCommand::SetBlockPressed(y, x, true));
            },
            ModelCommand::EffectBlastUpBlock { y, x } => {
                notifications.push(ViewCommand::UnsetBlockPressed(y, x, true));
            },
            ModelCommand::EffectCapture => {
                notifications.push(ViewCommand::SetCapture);
            },
            ModelCommand::EffectUnCapture => {
                notifications.push(ViewCommand::ReleaseCapture);
            },
        }
        notifications.push(ViewCommand::Refresh);
        proof {
            assert(notices(notifications@) =~= ModelState::replies(command, file, self@));
        }
        ModelReply { notifications, write }
    }

    /// Carries out `command` now.
    pub fn process_command(&mut self, command: ModelCommand, file: Option<Vec<u8>>) -> (reply:
        ModelReply)
        requires
            old(self).wf(),
            command_fits(command, old(self)@.board),
        ensures
            final(self).wf(),
            exists|now: Timestamp| old(self)@.steps_to(command, file, now, final(self)@),
            notices(reply.notifications@) == ModelState::replies(command, file, final(self)@),
            match reply.write {
                Some(data) => ModelState::written(command, final(self)@) == Some(data@),
                None => ModelState::written(command, final(self)@) is None,
            },
    {
        let now = Timestamp::now();
        self.process_command_at(command, file, now)
    }
}

/// Neither dimension of a board exceeds the number of its cells.
pub proof fn lemma_dims_fit(b: BoardModel)
    requires
        b.laid_out(),
    ensures
        b.rows <= b.rows * b.cols <= isize::MAX - 2,
        b.cols <= b.rows * b.cols,
        0 <= (b.rows - 1) * (b.cols - 1) < b.rows * b.cols,
{
    assert(b.rows <= b.rows * b.cols && b.cols <= b.rows * b.cols) by (nonlinear_arith)
        requires
            1 <= b.rows,
            1 <= b.cols,
    ;
    lemma_goal_leaves_room(b.rows as int, b.cols as int);
}

} // verus!
