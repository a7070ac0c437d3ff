//! The rules of the game, stated over a mathematical model of the board.
//!
//! Everything here is specification: the executable board in
//! [`crate::model`] is proved to follow these definitions.

use crate::clock::Timestamp;
use crate::model::{
    BlockDisplayKind, BlockShape, BlockStatus, BoardStatus, GameButtonDisplayKind,
};
use vstd::prelude::*;

verus! {

/// What the rules read of one cell.
pub struct CellState {
    pub has_mine: bool,
    pub status: BlockStatus,
}

/// The board as the rules see it: `cells` holds the rows one after another.
pub struct BoardModel {
    pub rows: nat,
    pub cols: nat,
    pub goal: nat,
    pub status: BoardStatus,
    pub cells: Seq<CellState>,
    pub fixed: Option<Seq<usize>>,
    pub allow_marks: bool,
}

/// A property of cells that the board keeps a count of.
pub enum Tally {
    Closed,
    Opened,
    Marked,
    Mined,
    Untouched,
}

/// Whether `c` is counted under `t`.
pub open spec fn counts_as(t: Tally, c: CellState) -> bool {
    match t {
        Tally::Closed => c.status != BlockStatus::Open,
        Tally::Opened => c.status == BlockStatus::Open,
        Tally::Marked => c.status == BlockStatus::MarkedMine,
        Tally::Mined => c.has_mine,
        Tally::Untouched => c.status == BlockStatus::Normal,
    }
}

/// Number of cells of `cells` that are counted under `t`.
pub open spec fn tally(cells: Seq<CellState>, t: Tally) -> nat
    decreases cells.len(),
{
    if cells.len() == 0 {
        0
    } else {
        tally(cells.drop_last(), t) + if counts_as(t, cells.last()) {
            1nat
        } else {
            0nat
        }
    }
}

/// Orientation of the triangle at row `y`, column `x`.
pub open spec fn shape_at(y: int, x: int) -> BlockShape {
    if (y + x) % 2 == 0 {
        BlockShape::RevDeltaLike
    } else {
        BlockShape::DeltaLike
    }
}

/// The row on the far side of the long edge of the triangle at `(y, x)`.
pub open spec fn long_edge_row(y: int, x: int) -> int {
    match shape_at(y, x) {
        BlockShape::DeltaLike => y + 1,
        BlockShape::RevDeltaLike => y - 1,
    }
}

/// The twelve positions whose triangles touch the one at `(y, x)` along an
/// edge or at a corner. Positions off the board are not left out.
pub open spec fn neighbors(y: int, x: int) -> Seq<(int, int)> {
    let s = long_edge_row(y, x);
    seq![
        (y - 1, x - 1),
        (y - 1, x),
        (y - 1, x + 1),
        (s, x - 2),
        (y, x - 2),
        (y, x - 1),
        (y, x + 1),
        (y, x + 2),
        (s, x + 2),
        (y + 1, x - 1),
        (y + 1, x),
        (y + 1, x + 1),
    ]
}

/// Whether `b` is one of the twelve neighbours of `a`.
pub open spec fn adjacent(a: (int, int), b: (int, int)) -> bool {
    exists|k: int| 0 <= k < 12 && #[trigger] neighbors(a.0, a.1)[k] == b
}

/// Whether a chord gesture centred on `check` covers the cell `pos`: cells in
/// the row of `pos` and in the row across its long edge are covered up to two
/// columns away, cells in the row on the other side up to one column away.
pub open spec fn surrounding(pos: (int, int), check: (int, int)) -> bool {
    let (y, x) = pos;
    let (cy, cx) = check;
    if cy == y || cy == long_edge_row(y, x) {
        x - 2 <= cx <= x + 2
    } else if cy == 2 * y - long_edge_row(y, x) {
        x - 1 <= cx <= x + 1
    } else {
        false
    }
}

impl BoardModel {
    pub open spec fn in_range(self, y: int, x: int) -> bool {
        0 <= y < self.rows && 0 <= x < self.cols
    }

    /// Place of the cell `(y, x)` in `cells`.
    pub open spec fn index(self, y: int, x: int) -> int {
        y * self.cols + x
    }

    pub open spec fn cell(self, y: int, x: int) -> CellState {
        self.cells[self.index(y, x)]
    }

    /// Number of mines among the first `k` neighbours of `(y, x)` that lie
    /// on the board.
    pub open spec fn mines_among(self, y: int, x: int, k: int) -> nat
        decreases k,
    {
        if k <= 0 {
            0
        } else {
            let n = neighbors(y, x)[k - 1];
            self.mines_among(y, x, k - 1) + if self.in_range(n.0, n.1) && self.cell(
                n.0,
                n.1,
            ).has_mine {
                1nat
            } else {
                0nat
            }
        }
    }

    /// Number of flagged cells among the first `k` neighbours of `(y, x)`
    /// that lie on the board.
    pub open spec fn marks_among(self, y: int, x: int, k: int) -> nat
        decreases k,
    {
        if k <= 0 {
            0
        } else {
            let n = neighbors(y, x)[k - 1];
            self.marks_among(y, x, k - 1) + if self.in_range(n.0, n.1) && self.cell(
                n.0,
                n.1,
            ).status == BlockStatus::MarkedMine {
                1nat
            } else {
                0nat
            }
        }
    }

    pub open spec fn adjacent_mines(self, y: int, x: int) -> nat {
        self.mines_among(y, x, 12)
    }

    pub open spec fn adjacent_marks(self, y: int, x: int) -> nat {
        self.marks_among(y, x, 12)
    }

    /// The number a cell shows once it is open: absent on a mine.
    pub open spec fn display_number(self, y: int, x: int) -> Option<u8> {
        if self.cell(y, x).has_mine {
            None
        } else {
            Some(self.adjacent_mines(y, x) as u8)
        }
    }

    /// A list of mine positions fits the board when it names `goal`
    /// different cells.
    pub open spec fn valid_layout(self, mines: Seq<usize>) -> bool {
        &&& mines.len() == self.goal
        &&& mines.no_duplicates()
        &&& forall|i: int| 0 <= i < mines.len() ==> #[trigger] mines[i] < self.rows * self.cols
    }

    /// The board has at least one cell, `cells` holds each cell once, and
    /// positions up to two columns off the board can be written as `isize`.
    pub open spec fn laid_out(self) -> bool {
        &&& 1 <= self.rows
        &&& 1 <= self.cols
        &&& self.rows * self.cols + 2 <= isize::MAX
        &&& self.cells.len() == self.rows * self.cols
    }

    /// The invariant of a board.
    pub open spec fn wf(self) -> bool {
        &&& self.laid_out()
        &&& self.goal <= (self.rows - 1) * (self.cols - 1)
        &&& (self.fixed matches Some(l) ==> self.valid_layout(l))
        &&& (self.status is Ready ==> forall|i: int|
            0 <= i < self.cells.len() ==> !(#[trigger] self.cells[i]).has_mine && self.cells[i].status
                != BlockStatus::Open)
        &&& (!(self.status is Ready) ==> tally(self.cells, Tally::Mined) == self.goal)
        &&& (self.status is Going ==> forall|i: int|
            0 <= i < self.cells.len() && (#[trigger] self.cells[i]).status == BlockStatus::Open
                ==> !self.cells[i].has_mine)
    }

    /// A board before the first move.
    pub open spec fn fresh(rows: nat, cols: nat, goal: nat) -> BoardModel {
        BoardModel {
            rows,
            cols,
            goal,
            status: BoardStatus::Ready,
            cells: Seq::new(
                rows * cols,
                |i: int| CellState { has_mine: false, status: BlockStatus::Normal },
            ),
            fixed: None,
            allow_marks: true,
        }
    }

    /// The board with the status of `(y, x)` replaced.
    pub open spec fn with_status(self, y: int, x: int, s: BlockStatus) -> BoardModel {
        BoardModel {
            cells: self.cells.update(
                self.index(y, x),
                CellState { status: s, ..self.cell(y, x) },
            ),
            ..self
        }
    }

    /// The status that follows `s` when a cell's mark is rotated.
    pub open spec fn next_mark(self, s: BlockStatus) -> BlockStatus {
        match s {
            BlockStatus::Normal => BlockStatus::MarkedMine,
            BlockStatus::MarkedMine => if self.allow_marks {
                BlockStatus::MarkedQuestionable
            } else {
                BlockStatus::Normal
            },
            BlockStatus::MarkedQuestionable => BlockStatus::Normal,
            BlockStatus::Open => BlockStatus::Open,
        }
    }

    /// Rotating the mark of `(y, x)`: nothing happens once the game is over.
    pub open spec fn rotate(self, y: int, x: int) -> BoardModel {
        if self.status is Finished || self.status is Died {
            self
        } else {
            self.with_status(y, x, self.next_mark(self.cell(y, x).status))
        }
    }

    /// The board with mines laid at `mines`.
    pub open spec fn with_mines(self, mines: Seq<usize>) -> BoardModel {
        BoardModel {
            cells: Seq::new(
                self.cells.len(),
                |i: int|
                    CellState {
                        has_mine: self.cells[i].has_mine || mines.contains(i as usize),
                        ..self.cells[i]
                    },
            ),
            ..self
        }
    }

    /// The board with mines laid at `mines` and the clock started at `now`.
    pub open spec fn mined(self, mines: Seq<usize>, now: Timestamp) -> BoardModel {
        BoardModel { status: BoardStatus::Going(now), ..self.with_mines(mines) }
    }

    /// Which layouts the board can be pinned to: the fixed one where the
    /// board has one, else the mines as they lie, else, before the first
    /// move, any that fits.
    pub open spec fn pins(self, mines: Seq<usize>) -> bool {
        match self.fixed {
            Some(l) => mines == l,
            None => self.valid_layout(mines) && (!(self.status is Ready) ==> self.mines_listed(
                mines,
            )),
        }
    }

    /// Whether `list` names the cells with a mine, each once, in rising
    /// order.
    pub open spec fn mines_listed(self, list: Seq<usize>) -> bool {
        &&& forall|i: int, j: int| 0 <= i < j < list.len() ==> list[i] < list[j]
        &&& forall|i: int|
            0 <= i < list.len() ==> (#[trigger] list[i]) < self.cells.len()
                && self.cells[list[i] as int].has_mine
        &&& forall|k: int|
            0 <= k < self.cells.len() && (#[trigger] self.cells[k]).has_mine ==> list.contains(
                k as usize,
            )
    }

    /// Which layouts the first move at `(y, x)` may lay: the fixed one where
    /// the board has one, else any that fits and leaves `(y, x)` free.
    pub open spec fn first_layout(self, mines: Seq<usize>, y: int, x: int) -> bool {
        match self.fixed {
            Some(l) => mines == l,
            None => self.valid_layout(mines) && !mines.contains(self.index(y, x) as usize),
        }
    }

    /// A chain of untouched cells that carries a flood from the neighbours of
    /// `(y, x)`: it starts at a neighbour, and each cell but the last shows
    /// the number 0 and has the next cell as a neighbour.
    pub open spec fn flood_path(self, y: int, x: int, path: Seq<(int, int)>) -> bool {
        &&& path.len() >= 1
        &&& adjacent((y, x), path[0])
        &&& forall|k: int|
            0 <= k < path.len() ==> self.in_range((#[trigger] path[k]).0, path[k].1) && self.cell(
                path[k].0,
                path[k].1,
            ).status == BlockStatus::Normal
        &&& forall|k: int|
            0 <= k < path.len() - 1 ==> self.display_number((#[trigger] path[k]).0, path[k].1)
                == Some(0u8) && adjacent(path[k], path[k + 1])
    }

    /// Whether a flood around `(y, x)` opens `(cy, cx)`.
    pub open spec fn flooded(self, y: int, x: int, cy: int, cx: int) -> bool {
        exists|path: Seq<(int, int)>| #[trigger]
            self.flood_path(y, x, path) && path.last() == (cy, cx)
    }

    /// Whether a flood around `(y, x)` opens a mine.
    pub open spec fn flood_hits_mine(self, y: int, x: int) -> bool {
        exists|cy: int, cx: int|
            self.in_range(cy, cx) && #[trigger] self.flooded(y, x, cy, cx) && self.cell(
                cy,
                cx,
            ).has_mine
    }

    /// The board after a flood around `(y, x)`.
    pub open spec fn flood(self, y: int, x: int) -> BoardModel {
        BoardModel {
            cells: Seq::new(
                self.cells.len(),
                |i: int|
                    if self.flooded(y, x, i / (self.cols as int), i % (self.cols as int)) {
                        CellState { status: BlockStatus::Open, ..self.cells[i] }
                    } else {
                        self.cells[i]
                    },
            ),
            ..self
        }
    }

    /// The board with a flag on every cell that is not open.
    pub open spec fn all_flagged(self) -> BoardModel {
        BoardModel {
            cells: Seq::new(
                self.cells.len(),
                |i: int|
                    if self.cells[i].status == BlockStatus::Open {
                        self.cells[i]
                    } else {
                        CellState { status: BlockStatus::MarkedMine, ..self.cells[i] }
                    },
            ),
            ..self
        }
    }

    /// The board won at `end`: every closed cell is flagged.
    pub open spec fn finished(self, start: Timestamp, end: Timestamp) -> BoardModel {
        BoardModel { status: BoardStatus::Finished(start, end), ..self.all_flagged() }
    }

    /// The verdict after cells were opened: the game is lost when a mine
    /// went off, else won when as many cells stay closed as there are mines.
    pub open spec fn settle(self, exploded: bool, now: Timestamp) -> BoardModel {
        match self.status {
            BoardStatus::Going(start) => if exploded {
                BoardModel { status: BoardStatus::Died(start, now), ..self }
            } else if tally(self.cells, Tally::Closed) == self.goal {
                self.finished(start, now)
            } else {
                self
            },
            _ => self,
        }
    }

    /// The chord rule: an open cell's number equals the flags around it.
    pub open spec fn chord_satisfied(self, y: int, x: int) -> bool {
        self.display_number(y, x) == Some(self.adjacent_marks(y, x) as u8)
    }

    /// A chord on `(y, x)`: where the game is under way, the cell is open
    /// and the chord rule holds, the neighbours are flooded and the verdict
    /// is taken; else nothing happens.
    pub open spec fn blast(self, y: int, x: int, now: Timestamp) -> BoardModel {
        if self.status is Finished || self.status is Died || self.cell(y, x).status
            != BlockStatus::Open || !self.chord_satisfied(y, x) {
            self
        } else {
            self.flood(y, x).settle(self.flood_hits_mine(y, x), now)
        }
    }

    /// Opening `(y, x)` while the game is under way: a mine loses the game;
    /// any other cell is opened and the verdict is taken, and where the cell
    /// shows 0 and the game goes on, the cells around it are flooded,
    /// whatever flags there are, and the verdict is taken again.
    pub open spec fn open_cell(self, y: int, x: int, now: Timestamp) -> BoardModel {
        match self.status {
            BoardStatus::Going(start) => {
                let c = self.cell(y, x);
                if c.status == BlockStatus::Normal || c.status == BlockStatus::MarkedQuestionable {
                    let opened = self.with_status(y, x, BlockStatus::Open);
                    if c.has_mine {
                        BoardModel { status: BoardStatus::Died(start, now), ..opened }
                    } else {
                        let settled = opened.settle(false, now);
                        if self.adjacent_mines(y, x) == 0 && settled.status is Going {
                            settled.flood(y, x).settle(false, now)
                        } else {
                            settled
                        }
                    }
                } else {
                    self
                }
            },
            _ => self,
        }
    }

    /// Whether a pointer press described by `focus` pushes the cell `(y, x)`
    /// in: a plain press pushes the cell it is on, a chord press the cells
    /// that it covers.
    pub open spec fn pushed(y: int, x: int, focus: Option<(int, int, bool)>) -> bool {
        match focus {
            Some((fy, fx, chord)) => if chord {
                surrounding((y, x), (fy, fx))
            } else {
                (fy, fx) == (y, x)
            },
            None => false,
        }
    }

    /// What the cell `(y, x)` shows under the press `focus`.
    pub open spec fn display_kind(
        self,
        y: int,
        x: int,
        focus: Option<(int, int, bool)>,
    ) -> BlockDisplayKind {
        let c = self.cell(y, x);
        let over = self.status is Finished || self.status is Died;
        match c.status {
            BlockStatus::Normal => if self.status is Died {
                if c.has_mine {
                    BlockDisplayKind::NotMarkedMine
                } else {
                    BlockDisplayKind::Normal
                }
            } else if !over && Self::pushed(y, x, focus) {
                BlockDisplayKind::PushNormal
            } else {
                BlockDisplayKind::Normal
            },
            BlockStatus::Open => match self.display_number(y, x) {
                Some(n) => BlockDisplayKind::OpenWithNumber(n),
                None => BlockDisplayKind::ExplodedMine,
            },
            BlockStatus::MarkedMine => if self.status is Died && !c.has_mine {
                BlockDisplayKind::WrongMarkedMine
            } else {
                BlockDisplayKind::MarkedMine
            },
            BlockStatus::MarkedQuestionable => if self.status is Died {
                if c.has_mine {
                    BlockDisplayKind::NotMarkedMine
                } else {
                    BlockDisplayKind::MarkedQuestionable
                }
            } else if !over && Self::pushed(y, x, focus) {
                BlockDisplayKind::PushMarkedQuestionable
            } else {
                BlockDisplayKind::MarkedQuestionable
            },
        }
    }

    /// What the new-game button shows.
    pub open spec fn button_kind(self, pressed: bool, captured: bool) -> GameButtonDisplayKind {
        if pressed {
            GameButtonDisplayKind::Pushed
        } else if self.status is Finished {
            GameButtonDisplayKind::Finished
        } else if self.status is Died {
            GameButtonDisplayKind::Died
        } else if captured {
            GameButtonDisplayKind::Danger
        } else {
            GameButtonDisplayKind::Normal
        }
    }

    /// Seconds of play that the time panel shows at the time `now`.
    pub open spec fn shown_seconds(self, now: Timestamp) -> int {
        match self.status {
            BoardStatus::Ready => 0,
            BoardStatus::Going(start) => start.display_seconds_until(now),
            BoardStatus::Finished(start, end) => start.display_seconds_until(end),
            BoardStatus::Died(start, end) => start.display_seconds_until(end),
        }
    }

    /// Whether `after` is a board that opening `(y, x)` at `now` may leave:
    /// on a board that is ready, mines are laid first.
    pub open spec fn opens_to(self, y: int, x: int, now: Timestamp, after: BoardModel) -> bool {
        if self.status is Ready {
            exists|mines: Seq<usize>| #[trigger]
                self.first_layout(mines, y, x) && after == self.mined(mines, now).open_cell(
                    y,
                    x,
                    now,
                )
        } else {
            after == self.open_cell(y, x, now)
        }
    }
}

} // verus!
