//! Saved layouts, the map file that carries one, and the mode of a session.

use crate::clock::Timestamp;
use crate::model::{Board, ModelCommand};
use crate::rules::BoardModel;
use std::collections::BTreeSet;
use std::rc::Rc;
use vstd::bytes::{
    spec_u64_from_le_bytes, spec_u64_to_le_bytes, u64_from_le_bytes, u64_to_le_bytes,
};
use vstd::prelude::*;
use vstd::slice::slice_subrange;

verus! {

/// Bytes that a map file begins with: the letters `CMM` and the version 1.
pub open spec fn magic() -> Seq<u8> {
    seq![0x43u8, 0x4du8, 0x4du8, 0x01u8]
}

/// Length of the part of a map file that comes before the mine positions.
pub const HEADER_LEN: usize = 28;

/// The `k`-th number of a map file: eight bytes, lowest first.
pub open spec fn field(data: Seq<u8>, k: int) -> u64 {
    spec_u64_from_le_bytes(data.subrange(4 + 8 * k, 12 + 8 * k))
}

/// Whether a board of `rows` by `cols` cells can hold mines at `mines`:
/// the board can be built, and the list names different cells of it, few
/// enough to leave a row and a column free.
pub open spec fn layout_fits(rows: int, cols: int, mines: Seq<usize>) -> bool {
    &&& 1 <= rows
    &&& 1 <= cols
    &&& rows * cols + 2 <= isize::MAX
    &&& mines.len() <= (rows - 1) * (cols - 1)
    &&& mines.no_duplicates()
    &&& forall|i: int| 0 <= i < mines.len() ==> #[trigger] mines[i] < rows * cols
}

/// The mine positions that a map file of `n` mines lists.
pub open spec fn listed(data: Seq<u8>, n: int) -> Seq<usize> {
    Seq::new(n as nat, |i: int| field(data, 3 + i) as usize)
}

/// What a map file holds: rows, columns and mine positions. A file is
/// turned down when it is cut short or too long, does not begin with the
/// magic bytes, names a position that is no `usize`, or holds a layout that
/// does not fit its board.
pub open spec fn parse(data: Seq<u8>) -> Option<(usize, usize, Seq<usize>)> {
    if data.len() < 28 || data.subrange(0, 4) != magic() {
        None
    } else {
        let rows = field(data, 0);
        let cols = field(data, 1);
        let n = field(data, 2);
        let mines = listed(data, n as int);
        if data.len() == 28 + 8 * n && rows <= usize::MAX && cols <= usize::MAX && (forall|i: int|
            0 <= i < n ==> #[trigger] field(data, 3 + i) <= usize::MAX) && layout_fits(
            rows as int,
            cols as int,
            mines,
        ) {
            Some((rows as usize, cols as usize, mines))
        } else {
            None
        }
    }
}

/// The bytes that list `mines`.
pub open spec fn encode_list(mines: Seq<usize>) -> Seq<u8>
    decreases mines.len(),
{
    if mines.len() == 0 {
        Seq::<u8>::empty()
    } else {
        encode_list(mines.drop_last()) + spec_u64_to_le_bytes(mines.last() as u64)
    }
}

/// The map file of a layout.
pub open spec fn encode(rows: usize, cols: usize, mines: Seq<usize>) -> Seq<u8> {
    magic() + spec_u64_to_le_bytes(rows as u64) + spec_u64_to_le_bytes(cols as u64)
        + spec_u64_to_le_bytes(mines.len() as u64) + encode_list(mines)
}

/// A saved layout as the contracts see it.
pub struct LayoutModel {
    pub rows: nat,
    pub cols: nat,
    pub mines: Seq<usize>,
}

/// The mode of a session as the contracts see it.
pub enum ModeModel {
    Normal,
    Recording(Timestamp),
    Predefined(LayoutModel),
    Playback(LayoutModel, Timestamp),
}

/// A layout that a game can be played again from.
#[derive(Debug)]
pub struct BoardSaved {
    pub board_size: (usize, usize),
    pub mine_pos: Rc<Vec<usize>>,
}

impl View for BoardSaved {
    type V = LayoutModel;

    open spec fn view(&self) -> LayoutModel {
        LayoutModel {
            rows: self.board_size.0 as nat,
            cols: self.board_size.1 as nat,
            mines: self.mine_pos@,
        }
    }
}

impl Clone for BoardSaved {
    /// Another handle on the same layout: the list of mines is shared, not
    /// copied.
    fn clone(&self) -> (c: Self)
        ensures
            c.board_size == self.board_size,
            c.mine_pos@ == self.mine_pos@,
            c@ == self@,
    {
        BoardSaved {
            board_size: (self.board_size.0, self.board_size.1),
            mine_pos: self.mine_pos.clone(),
        }
    }
}

impl LayoutModel {
    /// The layout fits its board.
    pub open spec fn wf(self) -> bool {
        layout_fits(self.rows as int, self.cols as int, self.mines)
    }

    /// The board that plays this layout, before the first move.
    pub open spec fn board(self) -> BoardModel {
        BoardModel {
            fixed: Some(self.mines),
            ..BoardModel::fresh(self.rows, self.cols, self.mines.len())
        }
    }
}

/// The layout that the bytes of a map file hold, if they are a map file.
pub open spec fn parsed_layout(data: Seq<u8>) -> Option<LayoutModel> {
    match parse(data) {
        Some((rows, cols, mines)) => Some(
            LayoutModel { rows: rows as nat, cols: cols as nat, mines },
        ),
        None => None,
    }
}

impl BoardSaved {
    /// The layout fits its board.
    pub open spec fn wf(&self) -> bool {
        self@.wf()
    }

    /// Takes the layout of `board` and fixes it on the board: the fixed
    /// layout that the board has, else the mines as they lie, else, before
    /// the first move, a fresh choice of mines.
    pub fn import_from_board(board: &mut Board) -> (saved: Self)
        requires
            old(board).wf(),
        ensures
            final(board).wf(),
            saved.wf(),
            saved.board_size.0 == old(board)@.rows,
            saved.board_size.1 == old(board)@.cols,
            final(board)@ == (BoardModel { fixed: Some(saved.mine_pos@), ..old(board)@ }),
            old(board)@.pins(saved.mine_pos@),
    {
        proof {
            board.lemma_wf_model();
        }
        let board_size = board.size();
        let fixed = match board.fixed_mine_pos_list() {
            Some(list) => Some(list.clone()),
            None => None,
        };
        let mine_pos = match fixed {
            Some(list) => {
                board.update_fixed_mine_pos_list(Some(list.clone()));
                list
            },
            None => {
                let list = match board.snapshot_mine_pos_list() {
                    Some(list) => list,
                    None => board.allocate_mine_pos_list(None),
                };
                let shared = Rc::new(list);
                board.update_fixed_mine_pos_list(Some(shared.clone()));
                shared
            },
        };
        BoardSaved { board_size, mine_pos }
    }

    /// Reads a layout from the bytes of a map file, or nothing where the
    /// bytes are no map file.
    pub fn import_from_file(data: &[u8]) -> (saved: Option<Self>)
        ensures
            match saved {
                Some(s) => parse(data@) == Some((s.board_size.0, s.board_size.1, s.mine_pos@))
                    && parsed_layout(data@) == Some(s@) && s.wf(),
                None => parse(data@) is None && parsed_layout(data@) is None,
            },
    {
        if data.len() < HEADER_LEN {
            return None;
        }
        if data[0] != 0x43 || data[1] != 0x4d || data[2] != 0x4d || data[3] != 0x01 {
            assert(data@.subrange(0, 4)[0] == data@[0]);
            assert(data@.subrange(0, 4)[1] == data@[1]);
            assert(data@.subrange(0, 4)[2] == data@[2]);
            assert(data@.subrange(0, 4)[3] == data@[3]);
            return None;
        }
        assert(data@.subrange(0, 4) =~= magic());
        let rows = read_field(data, 0);
        let cols = read_field(data, 1);
        let n = read_field(data, 2);
        let body = data.len() - HEADER_LEN;
        if body % 8 != 0 || n != (body / 8) as u64 {
            return None;
        }
        let count = n as usize;
        if rows < 1 || cols < 1 || rows > isize::MAX as u64 || cols > isize::MAX as u64 {
            proof {
                if rows >= 1 && cols >= 1 {
                    lemma_dimension_too_large(rows as int, cols as int);
                }
            }
            return None;
        }
        assert((rows as u128) * (cols as u128) <= 0x7fff_ffff_ffff_ffff * 0x7fff_ffff_ffff_ffff)
            by (nonlinear_arith)
            requires
                rows <= 0x7fff_ffff_ffff_ffff,
                cols <= 0x7fff_ffff_ffff_ffff,
        ;
        assert((rows as u128 - 1) * (cols as u128 - 1) <= 0x7fff_ffff_ffff_ffff
            * 0x7fff_ffff_ffff_ffff) by (nonlinear_arith)
            requires
                1 <= rows <= 0x7fff_ffff_ffff_ffff,
                1 <= cols <= 0x7fff_ffff_ffff_ffff,
        ;
        let cells: u128 = (rows as u128) * (cols as u128);
        let room: u128 = (rows as u128 - 1) * (cols as u128 - 1);
        if cells + 2 > isize::MAX as u128 || n as u128 > room {
            return None;
        }
        let mut mines: Vec<usize> = Vec::new();
        let mut seen: BTreeSet<usize> = BTreeSet::new();
        let mut i: usize = 0;
        while i < count
            invariant
                i <= count,
                count == n,
                rows == field(data@, 0),
                cols == field(data@, 1),
                n == field(data@, 2),
                1 <= rows,
                1 <= cols,
                n <= (rows - 1) * (cols - 1),
                data@.subrange(0, 4) == magic(),
                data@.len() == 28 + 8 * count,
                data@.len() <= usize::MAX,
                cells == rows * cols,
                cells + 2 <= isize::MAX,
                mines@ == listed(data@, i as int),
                mines@.no_duplicates(),
                forall|k: int| 0 <= k < i ==> #[trigger] field(data@, 3 + k) < cells,
                forall|v: usize| seen@.contains(v) <==> mines@.contains(v),
            decreases count - i,
        {
            let v = read_field(data, 3 + i);
            let ghost whole = listed(data@, n as int);
            assert(whole[i as int] == field(data@, 3 + i) as usize);
            if v as u128 >= cells {
                proof {
                    if v <= usize::MAX {
                        assert(whole[i as int] >= rows * cols);
                        assert(!layout_fits(rows as int, cols as int, whole));
                    } else {
                        assert(!(field(data@, 3 + i) <= usize::MAX));
                    }
                }
                return None;
            }
            let idx = v as usize;
            let ghost before = mines@;
            if !mark_seen(&mut seen, idx) {
                proof {
                    let j = choose|j: int| 0 <= j < before.len() && before[j] == idx;
                    assert(whole[j] == idx && whole[i as int] == idx);
                }
                return None;
            }
            mines.push(idx);
            proof {
                assert(mines@ =~= listed(data@, i + 1));
                assert(mines@[before.len() as int] == idx);
                assert forall|w: usize| seen@.contains(w) <==> mines@.contains(w) by {
                    if before.contains(w) {
                        let j = choose|j: int| 0 <= j < before.len() && before[j] == w;
                        assert(mines@[j] == w);
                    }
                    if mines@.contains(w) && w != idx {
                        let j = choose|j: int| 0 <= j < mines@.len() && mines@[j] == w;
                        assert(before[j] == w);
                    }
                }
            }
            i += 1;
        }
        Some(BoardSaved { board_size: (rows as usize, cols as usize), mine_pos: Rc::new(mines) })
    }

    /// Writes the layout as the bytes of a map file.
    pub fn export_to_file(&self) -> (data: Vec<u8>)
        ensures
            data@ == encode(self.board_size.0, self.board_size.1, self.mine_pos@),
    {
        let mut data: Vec<u8> = Vec::new();
        data.push(0x43);
        data.push(0x4d);
        data.push(0x4d);
        data.push(0x01);
        assert(data@ =~= magic());
        let mut rows = u64_to_le_bytes(self.board_size.0 as u64);
        data.append(&mut rows);
        let mut cols = u64_to_le_bytes(self.board_size.1 as u64);
        data.append(&mut cols);
        let mut count = u64_to_le_bytes(self.mine_pos.len() as u64);
        data.append(&mut count);
        let ghost head = data@;
        let n = self.mine_pos.len();
        let mut i: usize = 0;
        assert(self.mine_pos@.take(0) =~= Seq::<usize>::empty());
        while i < n
            invariant
                i <= n,
                n == self.mine_pos@.len(),
                data@ == head + encode_list(self.mine_pos@.take(i as int)),
            decreases n - i,
        {
            let mut bytes = u64_to_le_bytes(self.mine_pos[i] as u64);
            data.append(&mut bytes);
            proof {
                let next = self.mine_pos@.take(i + 1);
                assert(next.drop_last() =~= self.mine_pos@.take(i as int));
                assert(data@ =~= head + encode_list(next));
            }
            i += 1;
        }
        assert(self.mine_pos@.take(n as int) =~= self.mine_pos@);
        data
    }
}

/// Reads the `k`-th number of a map file.
fn read_field(data: &[u8], k: usize) -> (v: u64)
    requires
        12 + 8 * k <= data@.len(),
    ensures
        v == field(data@, k as int),
{
    let len = data.len();
    u64_from_le_bytes(slice_subrange(data, 4 + 8 * k, 12 + 8 * k))
}

/// Adds `v` to `seen` and says whether it was new.
fn mark_seen(seen: &mut BTreeSet<usize>, v: usize) -> (fresh: bool)
    ensures
        final(seen)@ == old(seen)@.insert(v),
        fresh == !old(seen)@.contains(v),
{
    seen.insert(v)
}

/// A board with a dimension that is no `isize` has too many cells.
proof fn lemma_dimension_too_large(rows: int, cols: int)
    requires
        1 <= rows,
        1 <= cols,
    ensures
        rows <= rows * cols,
        cols <= rows * cols,
{
    assert(rows <= rows * cols && cols <= rows * cols) by (nonlinear_arith)
        requires
            1 <= rows,
            1 <= cols,
    ;
}

/// The mode of a session. Recording and playback are kept as states only:
/// nothing is recorded or played back.
#[derive(Debug)]
pub enum GameMode {
    Normal,
    GameRecording(Timestamp),
    BoardPredefined(BoardSaved),
    GamePlayback(BoardSaved, Timestamp, Vec<ModelCommand>),
}

impl View for GameMode {
    type V = ModeModel;

    open spec fn view(&self) -> ModeModel {
        match self {
            GameMode::Normal => ModeModel::Normal,
            GameMode::GameRecording(start) => ModeModel::Recording(*start),
            GameMode::BoardPredefined(saved) => ModeModel::Predefined(saved@),
            GameMode::GamePlayback(saved, start, _) => ModeModel::Playback(saved@, *start),
        }
    }
}

impl Clone for GameMode {
    fn clone(&self) -> (c: Self)
        ensures
            c@ == self@,
    {
        match self {
            GameMode::Normal => GameMode::Normal,
            GameMode::GameRecording(start) => GameMode::GameRecording(*start),
            GameMode::BoardPredefined(saved) => GameMode::BoardPredefined(saved.clone()),
            GameMode::GamePlayback(saved, start, commands) => GameMode::GamePlayback(
                saved.clone(),
                *start,
                commands.clone(),
            ),
        }
    }
}

impl GameMode {
    pub fn is_normal(&self) -> (r: bool)
        ensures
            r == (self is Normal),
    {
        match self {
            GameMode::Normal => true,
            _ => false,
        }
    }

    pub fn is_predefined(&self) -> (r: bool)
        ensures
            r == (self is BoardPredefined),
    {
        match self {
            GameMode::BoardPredefined(_) => true,
            _ => false,
        }
    }

    pub fn is_recording(&self) -> (r: bool)
        ensures
            r == (self is GameRecording),
    {
        match self {
            GameMode::GameRecording(..) => true,
            _ => false,
        }
    }

    pub fn is_playback(&self) -> (r: bool)
        ensures
            r == (self is GamePlayback),
    {
        match self {
            GameMode::GamePlayback(..) => true,
            _ => false,
        }
    }

    /// The saved layout of the mode, where it has one.
    pub open spec fn spec_board_saved(&self) -> Option<BoardSaved> {
        match self {
            GameMode::Normal => None,
            GameMode::GameRecording(..) => None,
            GameMode::BoardPredefined(board) => Some(*board),
            GameMode::GamePlayback(board, ..) => Some(*board),
        }
    }

    /// The saved layout of the mode, where it has one, fits its board.
    pub open spec fn wf(&self) -> bool {
        self.spec_board_saved() matches Some(saved) ==> saved.wf()
    }

    /// The saved layout of the mode, where it has one.
    pub fn board_saved(&self) -> (saved: Option<&BoardSaved>)
        ensures
            match saved {
                Some(s) => self.spec_board_saved() == Some(*s),
                None => self.spec_board_saved() is None,
            },
    {
        match self {
            GameMode::Normal => None,
            GameMode::GameRecording(..) => None,
            GameMode::BoardPredefined(board) => Some(board),
            GameMode::GamePlayback(board, ..) => Some(board),
        }
    }
}

} // verus!
