//! What holds of the game whatever is played, proved from the rules.

use crate::clock::Timestamp;
use crate::lemmas::{
    lemma_closed_and_open, lemma_index_bounds, lemma_index_split, lemma_numbers_same,
    lemma_tally_agree, lemma_tally_update, same_mines,
};
use crate::controller::{ActionInput, ActionState, KeyKind};
use crate::model::{BlockStatus, BoardStatus, ModelCommand};
use crate::model_gamemode::{encode, encode_list, field, layout_fits, listed, magic, parse};
use crate::rules::{adjacent, neighbors, surrounding, tally, BoardModel, CellState, Tally};
use vstd::bytes::{lemma_auto_spec_u64_to_from_le_bytes, spec_u64_to_le_bytes};
use vstd::prelude::*;

verus! {

/// The cells that are not open and the cells that are open are all the
/// cells of the board.
pub proof fn law_closed_and_open_cover_the_board(b: BoardModel)
    requires
        b.laid_out(),
    ensures
        tally(b.cells, Tally::Closed) + tally(b.cells, Tally::Opened) == b.rows * b.cols,
{
    lemma_closed_and_open(b.cells);
}

/// The number that a cell shows depends on where the mines lie and on
/// nothing else: it is the same on any two boards of one size with the same
/// mines, so that a number once worked out stays right until mines are laid.
pub proof fn law_number_follows_the_mines(a: BoardModel, b: BoardModel, y: int, x: int)
    requires
        a.laid_out(),
        same_mines(a, b),
        a.in_range(y, x),
    ensures
        a.display_number(y, x) == b.display_number(y, x),
{
    lemma_numbers_same(a, b);
    lemma_index_bounds(a.rows as int, a.cols as int, y, x);
}

/// A chord on a cell whose number differs from the flags around it leaves
/// the board as it is.
pub proof fn law_unsatisfied_chord_changes_nothing(b: BoardModel, y: int, x: int, now: Timestamp)
    requires
        !b.chord_satisfied(y, x),
    ensures
        b.blast(y, x, now) == b,
{
}

/// Whether every cell that is open on `a` is open on `b`, and the two
/// boards have the same mines.
pub open spec fn only_opened(a: BoardModel, b: BoardModel) -> bool {
    &&& same_mines(a, b)
    &&& forall|i: int|
        0 <= i < a.cells.len() && (#[trigger] a.cells[i]).status == BlockStatus::Open
            ==> b.cells[i].status == BlockStatus::Open
}

/// A flood opens cells and does nothing else: a cell that the flood does
/// not reach stays as it was, a cell that it reaches was untouched and is
/// open afterwards, and no mine is laid or lifted.
pub proof fn law_flood_only_opens(b: BoardModel, y: int, x: int)
    requires
        b.laid_out(),
    ensures
        forall|i: int|
            0 <= i < b.cells.len() ==> (#[trigger] b.flood(y, x).cells[i]) == b.cells[i] || (
            b.cells[i].status == BlockStatus::Normal && b.flood(y, x).cells[i] == (CellState {
                status: BlockStatus::Open,
                ..b.cells[i]
            })),
        only_opened(b, b.flood(y, x)),
{
    let f = b.flood(y, x);
    assert forall|i: int| 0 <= i < b.cells.len() implies (#[trigger] f.cells[i]) == b.cells[i] || (
    b.cells[i].status == BlockStatus::Normal && f.cells[i] == (CellState {
        status: BlockStatus::Open,
        ..b.cells[i]
    })) by {
        lemma_index_split(b.rows as int, b.cols as int, i);
        let cy = i / (b.cols as int);
        let cx = i % (b.cols as int);
        if b.flooded(y, x, cy, cx) {
            let p = choose|p: Seq<(int, int)>| #[trigger]
                b.flood_path(y, x, p) && p.last() == (cy, cx);
            assert(p[p.len() - 1] == (cy, cx));
        }
    }
}

/// The verdict opens no cell, closes none, and moves no mine; it leaves a
/// game under way, won, or lost where a mine went off.
proof fn lemma_settle_only_flags(b: BoardModel, exploded: bool, now: Timestamp)
    requires
        b.status is Going,
    ensures
        only_opened(b, b.settle(exploded, now)),
        b.settle(exploded, now).laid_out() == b.laid_out(),
        b.settle(exploded, now).status is Going || b.settle(exploded, now).status is Finished
            || (exploded && b.settle(exploded, now).status is Died),
{
}

/// A chord opens cells, flags cells when it wins the game, and does nothing
/// else to the cells; it loses the game only where its flood reaches a
/// mine.
pub proof fn law_chord_only_opens(b: BoardModel, y: int, x: int, now: Timestamp)
    requires
        b.laid_out(),
        b.status is Going || b.status is Finished,
    ensures
        only_opened(b, b.blast(y, x, now)),
        b.blast(y, x, now).status is Going || b.blast(y, x, now).status is Finished || (
        b.flood_hits_mine(y, x) && b.blast(y, x, now).status is Died),
        b.blast(y, x, now).status is Finished ==> b.status is Finished || !b.flood_hits_mine(
            y,
            x,
        ),
{
    if b.blast(y, x, now) != b {
        let f = b.flood(y, x);
        law_flood_only_opens(b, y, x);
        lemma_settle_only_flags(f, b.flood_hits_mine(y, x), now);
        let r = f.settle(b.flood_hits_mine(y, x), now);
        assert(only_opened(b, r)) by {
            assert forall|i: int|
                0 <= i < b.cells.len() && (#[trigger] b.cells[i]).status
                    == BlockStatus::Open implies r.cells[i].status == BlockStatus::Open by {
                assert(f.cells[i].status == BlockStatus::Open);
            }
            assert forall|i: int| 0 <= i < b.cells.len() implies (#[trigger] b.cells[i]).has_mine
                == r.cells[i].has_mine by {
                assert(f.cells[i].has_mine == b.cells[i].has_mine);
            }
        }
    }
}

/// A chord that opens a mine loses the game, however many cells stay
/// closed, and its flood is carried through all the same: the game is lost
/// at the time of the chord, and the cells are those of the flooded board.
pub proof fn law_chord_on_a_mine_loses(b: BoardModel, y: int, x: int, now: Timestamp)
    requires
        b.status is Going,
        b.cell(y, x).status == BlockStatus::Open,
        b.chord_satisfied(y, x),
        b.flood_hits_mine(y, x),
    ensures
        b.blast(y, x, now).status == BoardStatus::Died(b.status->Going_0, now),
        b.blast(y, x, now).cells == b.flood(y, x).cells,
{
}

/// A mine among the untouched neighbours of a chord's cell is reached by
/// its flood, and so is every other untouched neighbour.
pub proof fn law_flood_reaches_the_neighbours(b: BoardModel, y: int, x: int, k: int)
    requires
        b.laid_out(),
        0 <= k < 12,
        b.in_range(neighbors(y, x)[k].0, neighbors(y, x)[k].1),
        b.cell(neighbors(y, x)[k].0, neighbors(y, x)[k].1).status == BlockStatus::Normal,
    ensures
        b.flooded(y, x, neighbors(y, x)[k].0, neighbors(y, x)[k].1),
        b.flood(y, x).cell(neighbors(y, x)[k].0, neighbors(y, x)[k].1).status
            == BlockStatus::Open,
        b.cell(neighbors(y, x)[k].0, neighbors(y, x)[k].1).has_mine ==> b.flood_hits_mine(y, x),
{
    let n = neighbors(y, x)[k];
    crate::flood::lemma_adjacent((y, x), k);
    crate::flood::lemma_flood_first(b, y, x, n.0, n.1);
    lemma_index_bounds(b.rows as int, b.cols as int, n.0, n.1);
}

/// Around a cell that shows 0 there is no mine.
pub proof fn law_zero_has_safe_neighbours(b: BoardModel, y: int, x: int, k: int)
    requires
        b.adjacent_mines(y, x) == 0,
        0 <= k < 12,
        b.in_range(neighbors(y, x)[k].0, neighbors(y, x)[k].1),
    ensures
        !b.cell(neighbors(y, x)[k].0, neighbors(y, x)[k].1).has_mine,
{
    lemma_mines_among_grows(b, y, x, k + 1, 12);
}

/// The count of mines among the first neighbours does not fall as more
/// neighbours are counted, and is never more than their number.
proof fn lemma_mines_among_grows(b: BoardModel, y: int, x: int, i: int, j: int)
    requires
        0 <= i <= j,
    ensures
        b.mines_among(y, x, i) <= b.mines_among(y, x, j) <= j,
        b.mines_among(y, x, i) <= i,
    decreases j,
{
    if i < j {
        lemma_mines_among_grows(b, y, x, i, j - 1);
    } else if i > 0 {
        lemma_mines_among_grows(b, y, x, i - 1, i - 1);
    }
}

/// The number that a cell without a mine shows is the number of mines among
/// its twelve neighbours, which is never more than 12.
pub proof fn law_number_is_the_count(b: BoardModel, y: int, x: int)
    ensures
        b.adjacent_mines(y, x) <= 12,
        b.display_number(y, x) matches Some(v) ==> v == b.adjacent_mines(y, x),
        b.display_number(y, x) is None <==> b.cell(y, x).has_mine,
{
    lemma_mines_among_grows(b, y, x, 12, 12);
}

/// A flood around a cell that shows 0 reaches no mine.
pub proof fn law_flood_from_zero_is_safe(b: BoardModel, y: int, x: int)
    requires
        b.adjacent_mines(y, x) == 0,
    ensures
        !b.flood_hits_mine(y, x),
{
    if b.flood_hits_mine(y, x) {
        let (cy, cx) = choose|cy: int, cx: int|
            b.in_range(cy, cx) && #[trigger] b.flooded(y, x, cy, cx) && b.cell(cy, cx).has_mine;
        let p = choose|p: Seq<(int, int)>| #[trigger] b.flood_path(y, x, p) && p.last() == (cy, cx);
        assert(p[p.len() - 1] == (cy, cx));
        if p.len() == 1 {
            let k = choose|k: int| 0 <= k < 12 && #[trigger] neighbors(y, x)[k] == p[0];
            law_zero_has_safe_neighbours(b, y, x, k);
        } else {
            let q = p[p.len() - 2];
            assert(b.display_number(q.0, q.1) == Some(0u8) && adjacent(q, p[p.len() - 2 + 1]));
            lemma_mines_among_grows(b, q.0, q.1, 12, 12);
            let k = choose|k: int| 0 <= k < 12 && #[trigger] neighbors(q.0, q.1)[k] == (cy, cx);
            law_zero_has_safe_neighbours(b, q.0, q.1, k);
        }
    }
}

/// Opening a closed cell without a mine while the game is under way opens
/// it and leaves the game under way or won; no mine is laid or lifted.
pub proof fn law_safe_open_goes_on(b: BoardModel, y: int, x: int, now: Timestamp)
    requires
        b.laid_out(),
        b.status is Going,
        b.in_range(y, x),
        b.cell(y, x).status == BlockStatus::Normal || b.cell(y, x).status
            == BlockStatus::MarkedQuestionable,
        !b.cell(y, x).has_mine,
    ensures
        same_mines(b, b.open_cell(y, x, now)),
        b.open_cell(y, x, now).cell(y, x).status == BlockStatus::Open,
        b.open_cell(y, x, now).status is Going || b.open_cell(y, x, now).status is Finished,
{
    lemma_index_bounds(b.rows as int, b.cols as int, y, x);
    let idx = b.index(y, x);
    let opened = b.with_status(y, x, BlockStatus::Open);
    assert(same_mines(b, opened));
    assert(opened.cells[idx].status == BlockStatus::Open);
    lemma_settle_only_flags(opened, false, now);
    let settled = opened.settle(false, now);
    assert(settled.cells[idx].status == BlockStatus::Open);
    assert(same_mines(b, settled)) by {
        assert forall|i: int| 0 <= i < b.cells.len() implies (#[trigger] b.cells[i]).has_mine
            == settled.cells[i].has_mine by {
            assert(opened.cells[i].has_mine == b.cells[i].has_mine);
        }
    }
    if b.adjacent_mines(y, x) == 0 && settled.status is Going {
        let f = settled.flood(y, x);
        law_flood_only_opens(settled, y, x);
        lemma_settle_only_flags(f, false, now);
        let r = f.settle(false, now);
        assert(f.cells[idx].status == BlockStatus::Open);
        assert(r.cells[idx].status == BlockStatus::Open);
        assert(same_mines(b, r)) by {
            assert forall|i: int| 0 <= i < b.cells.len() implies (#[trigger] b.cells[i]).has_mine
                == r.cells[i].has_mine by {
                assert(settled.cells[i].has_mine == b.cells[i].has_mine);
                assert(f.cells[i].has_mine == settled.cells[i].has_mine);
            }
        }
    }
}

/// Opening a cell that shows 0 floods the cells around it whatever flags
/// there are: where the game goes on after the cell is opened, every cell
/// that the flood around it reaches is open afterwards, and so is every
/// neighbour that was untouched.
pub proof fn law_opening_a_zero_floods(b: BoardModel, y: int, x: int, now: Timestamp)
    requires
        b.laid_out(),
        b.status is Going,
        b.in_range(y, x),
        b.cell(y, x).status == BlockStatus::Normal || b.cell(y, x).status
            == BlockStatus::MarkedQuestionable,
        !b.cell(y, x).has_mine,
        b.adjacent_mines(y, x) == 0,
        tally(b.cells, Tally::Closed) != b.goal + 1,
    ensures
        forall|cy: int, cx: int|
            b.in_range(cy, cx) && #[trigger] b.with_status(y, x, BlockStatus::Open).flooded(
                y,
                x,
                cy,
                cx,
            ) ==> b.open_cell(y, x, now).cell(cy, cx).status == BlockStatus::Open,
        forall|k: int|
            0 <= k < 12 && b.in_range((#[trigger] neighbors(y, x)[k]).0, neighbors(y, x)[k].1)
                && b.cell(neighbors(y, x)[k].0, neighbors(y, x)[k].1).status
                == BlockStatus::Normal ==> b.open_cell(y, x, now).cell(
                neighbors(y, x)[k].0,
                neighbors(y, x)[k].1,
            ).status == BlockStatus::Open,
{
    lemma_index_bounds(b.rows as int, b.cols as int, y, x);
    let idx = b.index(y, x);
    let opened = b.with_status(y, x, BlockStatus::Open);
    lemma_tally_update(
        b.cells,
        idx,
        CellState { status: BlockStatus::Open, ..b.cells[idx] },
        Tally::Closed,
    );
    assert(opened.settle(false, now) == opened);
    let f = opened.flood(y, x);
    let r = f.settle(false, now);
    assert(b.open_cell(y, x, now) == r);
    lemma_settle_only_flags(f, false, now);
    assert forall|cy: int, cx: int|
        b.in_range(cy, cx) && #[trigger] opened.flooded(y, x, cy, cx) implies r.cell(
        cy,
        cx,
    ).status == BlockStatus::Open by {
        lemma_index_bounds(b.rows as int, b.cols as int, cy, cx);
        assert(f.cells[b.index(cy, cx)].status == BlockStatus::Open);
    }
    assert forall|k: int|
        0 <= k < 12 && b.in_range((#[trigger] neighbors(y, x)[k]).0, neighbors(y, x)[k].1)
            && b.cell(neighbors(y, x)[k].0, neighbors(y, x)[k].1).status
            == BlockStatus::Normal implies r.cell(
        neighbors(y, x)[k].0,
        neighbors(y, x)[k].1,
    ).status == BlockStatus::Open by {
        let n = neighbors(y, x)[k];
        crate::flood::lemma_other_cell_kept(b, y, x, BlockStatus::Open, n.0, n.1);
        law_flood_reaches_the_neighbours(opened, y, x, k);
    }
}

/// The first move on a board without a fixed layout never opens a mine: the
/// cell has no mine afterwards, and where it was untouched or carried a
/// question mark it is open and the game is under way or won.
pub proof fn law_first_move_is_safe(b: BoardModel, y: int, x: int, now: Timestamp, after: BoardModel)
    requires
        b.wf(),
        b.status is Ready,
        b.fixed is None,
        b.in_range(y, x),
        b.opens_to(y, x, now, after),
    ensures
        !after.cell(y, x).has_mine,
        b.cell(y, x).status == BlockStatus::Normal || b.cell(y, x).status
            == BlockStatus::MarkedQuestionable ==> after.cell(y, x).status == BlockStatus::Open && (
        after.status is Going || after.status is Finished),
{
    let mines = choose|mines: Seq<usize>| #[trigger]
        b.first_layout(mines, y, x) && after == b.mined(mines, now).open_cell(y, x, now);
    let started = b.mined(mines, now);
    lemma_index_bounds(b.rows as int, b.cols as int, y, x);
    let idx = b.index(y, x);
    assert(started.cells[idx] == (CellState {
        has_mine: b.cells[idx].has_mine || mines.contains(idx as usize),
        ..b.cells[idx]
    }));
    assert(!started.cells[idx].has_mine);
    if b.cell(y, x).status == BlockStatus::Normal || b.cell(y, x).status
        == BlockStatus::MarkedQuestionable {
        law_safe_open_goes_on(started, y, x, now);
    } else {
        assert(after == started);
    }
}

/// The flooded region hangs together: every cell that a flood opens is a
/// neighbour of the centre, or a neighbour of another cell that the flood
/// opens and that shows 0.
pub proof fn law_flood_region_is_connected(b: BoardModel, y: int, x: int, cy: int, cx: int)
    requires
        b.flooded(y, x, cy, cx),
    ensures
        adjacent((y, x), (cy, cx)) || exists|py: int, px: int|
            #![trigger b.flooded(y, x, py, px)]
            b.flooded(y, x, py, px) && b.display_number(py, px) == Some(0u8) && adjacent(
                (py, px),
                (cy, cx),
            ),
{
    let p = choose|p: Seq<(int, int)>| #[trigger] b.flood_path(y, x, p) && p.last() == (cy, cx);
    if p.len() > 1 {
        let q = p.drop_last();
        let (py, px) = q.last();
        assert(q.last() == p[p.len() - 2]);
        assert forall|k: int| 0 <= k < q.len() implies b.in_range((#[trigger] q[k]).0, q[k].1)
            && b.cell(q[k].0, q[k].1).status == BlockStatus::Normal by {
            assert(q[k] == p[k]);
        }
        assert forall|k: int| 0 <= k < q.len() - 1 implies b.display_number(
            (#[trigger] q[k]).0,
            q[k].1,
        ) == Some(0u8) && adjacent(q[k], q[k + 1]) by {
            assert(q[k] == p[k]);
            assert(q[k + 1] == p[k + 1]);
        }
        assert(q[0] == p[0]);
        assert(b.flood_path(y, x, q));
        assert(b.flooded(y, x, py, px));
        assert(p[p.len() - 1] == (cy, cx));
        assert(adjacent(p[p.len() - 2], p[p.len() - 2 + 1]));
    } else {
        assert(p[0] == (cy, cx));
    }
}

/// Opening the last cell without a mine wins the game: the game is finished
/// at the time of the move, every cell left closed carries a flag, and the
/// flags are as many as the mines.
pub proof fn law_last_safe_cell_wins(b: BoardModel, y: int, x: int, now: Timestamp)
    requires
        b.wf(),
        b.status is Going,
        b.in_range(y, x),
        b.cell(y, x).status == BlockStatus::Normal || b.cell(y, x).status
            == BlockStatus::MarkedQuestionable,
        !b.cell(y, x).has_mine,
        forall|i: int|
            0 <= i < b.cells.len() && i != b.index(y, x) && (#[trigger] b.cells[i]).status
                != BlockStatus::Open ==> b.cells[i].has_mine,
    ensures
        b.open_cell(y, x, now).status == BoardStatus::Finished(b.status->Going_0, now),
        forall|i: int|
            0 <= i < b.cells.len() ==> (#[trigger] b.open_cell(y, x, now).cells[i]).status
                == BlockStatus::Open || b.open_cell(y, x, now).cells[i].status
                == BlockStatus::MarkedMine,
        tally(b.open_cell(y, x, now).cells, Tally::Marked) == b.goal,
{
    lemma_index_bounds(b.rows as int, b.cols as int, y, x);
    let idx = b.index(y, x);
    let start = b.status->Going_0;
    let opened = b.with_status(y, x, BlockStatus::Open);
    assert forall|i: int| 0 <= i < opened.cells.len() implies (#[trigger] opened.cells[i]).has_mine
        == b.cells[i].has_mine by {}
    lemma_tally_agree(b.cells, Tally::Mined, opened.cells, Tally::Mined);
    assert forall|i: int| 0 <= i < opened.cells.len() implies crate::rules::counts_as(
        Tally::Closed,
        #[trigger] opened.cells[i],
    ) == crate::rules::counts_as(Tally::Mined, opened.cells[i]) by {
        if i != idx {
            assert(opened.cells[i] == b.cells[i]);
        }
    }
    lemma_tally_agree(opened.cells, Tally::Closed, opened.cells, Tally::Mined);
    let won = opened.finished(start, now);
    assert(opened.settle(false, now) == won);
    assert(won.blast(y, x, now) == won);
    assert(b.open_cell(y, x, now) == won);
    assert forall|i: int| 0 <= i < opened.cells.len() implies crate::rules::counts_as(
        Tally::Closed,
        #[trigger] opened.cells[i],
    ) == crate::rules::counts_as(Tally::Marked, won.cells[i]) by {}
    lemma_tally_agree(opened.cells, Tally::Closed, won.cells, Tally::Marked);
}

/// A chord that opens the last cells without a mine wins the game: where
/// its flood reaches every closed cell without a mine and no mine, the game
/// is finished at the time of the chord, every cell left closed carries a
/// flag, and the flags are as many as the mines.
pub proof fn law_chord_on_last_safe_cells_wins(b: BoardModel, y: int, x: int, now: Timestamp)
    requires
        b.wf(),
        b.status is Going,
        b.in_range(y, x),
        b.cell(y, x).status == BlockStatus::Open,
        b.chord_satisfied(y, x),
        !b.flood_hits_mine(y, x),
        forall|cy: int, cx: int|
            b.in_range(cy, cx) && b.cell(cy, cx).status != BlockStatus::Open && !b.cell(
                cy,
                cx,
            ).has_mine ==> #[trigger] b.flooded(y, x, cy, cx),
    ensures
        b.blast(y, x, now).status == BoardStatus::Finished(b.status->Going_0, now),
        forall|i: int|
            0 <= i < b.cells.len() ==> (#[trigger] b.blast(y, x, now).cells[i]).status
                == BlockStatus::Open || b.blast(y, x, now).cells[i].status
                == BlockStatus::MarkedMine,
        tally(b.blast(y, x, now).cells, Tally::Marked) == b.goal,
{
    let start = b.status->Going_0;
    let f = b.flood(y, x);
    law_flood_only_opens(b, y, x);
    lemma_tally_agree(b.cells, Tally::Mined, f.cells, Tally::Mined);
    assert forall|i: int| 0 <= i < f.cells.len() implies crate::rules::counts_as(
        Tally::Closed,
        #[trigger] f.cells[i],
    ) == crate::rules::counts_as(Tally::Mined, f.cells[i]) by {
        lemma_index_split(b.rows as int, b.cols as int, i);
        let cy = i / (b.cols as int);
        let cx = i % (b.cols as int);
        assert(b.cell(cy, cx) == b.cells[i]);
        if b.cells[i].has_mine {
            assert(!b.flooded(y, x, cy, cx));
        } else if b.cells[i].status != BlockStatus::Open {
            assert(b.flooded(y, x, cy, cx));
        }
    }
    lemma_tally_agree(f.cells, Tally::Closed, f.cells, Tally::Mined);
    let won = f.finished(start, now);
    assert(b.blast(y, x, now) == won);
    assert forall|i: int| 0 <= i < f.cells.len() implies crate::rules::counts_as(
        Tally::Closed,
        #[trigger] f.cells[i],
    ) == crate::rules::counts_as(Tally::Marked, won.cells[i]) by {}
    lemma_tally_agree(f.cells, Tally::Closed, won.cells, Tally::Marked);
}

/// A chord gesture covers a cell exactly when it is centred on the cell or
/// on one of its twelve neighbours.
pub proof fn law_chord_covers_the_neighbourhood(pos: (int, int), check: (int, int))
    ensures
        surrounding(pos, check) <==> check == pos || adjacent(pos, check),
{
    let n = neighbors(pos.0, pos.1);
    if surrounding(pos, check) && check != pos {
        let (y, x) = pos;
        let (cy, cx) = check;
        let s = crate::rules::long_edge_row(y, x);
        let k: int = if cy == y - 1 && cx == x - 1 {
            0
        } else if cy == y - 1 && cx == x {
            1
        } else if cy == y - 1 && cx == x + 1 {
            2
        } else if cy == s && cx == x - 2 {
            3
        } else if cy == y && cx == x - 2 {
            4
        } else if cy == y && cx == x - 1 {
            5
        } else if cy == y && cx == x + 1 {
            6
        } else if cy == y && cx == x + 2 {
            7
        } else if cy == s && cx == x + 2 {
            8
        } else if cy == y + 1 && cx == x - 1 {
            9
        } else if cy == y + 1 && cx == x {
            10
        } else {
            11
        };
        assert(n[k] == check);
    }
    if adjacent(pos, check) {
        let k = choose|k: int| 0 <= k < 12 && #[trigger] neighbors(pos.0, pos.1)[k] == check;
        assert(n[k] == check);
    }
}

/// Press feedback is bracketed: whenever a press on a cell begins, moves to
/// another cell or ends, the cell that was pushed in is let out and the
/// cell that is pressed now is pushed in, whether or not a command comes of
/// it; the same holds of the chord, the button and the capture.
pub proof fn law_press_feedback_is_bracketed(s: ActionState, input: ActionInput)
    ensures
        s.push != s.next(input).push ==> (s.push matches Some((y, x)) ==> s.emitted(
            input,
        ).contains(ModelCommand::EffectPopBlock { x, y })) && (s.next(input).push matches Some(
            (y, x),
        ) ==> s.emitted(input).contains(ModelCommand::EffectPushBlock { x, y })),
        s.blast != s.next(input).blast ==> (s.blast matches Some((y, x)) ==> s.emitted(
            input,
        ).contains(ModelCommand::EffectBlastUpBlock { x, y })) && (s.next(input).blast matches Some(
            (y, x),
        ) ==> s.emitted(input).contains(ModelCommand::EffectBlastDownBlock { x, y })),
        s.button && !s.next(input).button ==> s.emitted(input).contains(
            ModelCommand::EffectNewGameButtonUp,
        ),
        !s.button && s.next(input).button ==> s.emitted(input).contains(
            ModelCommand::EffectNewGameButtonDown,
        ),
        s.captured && !s.next(input).captured ==> s.emitted(input).contains(
            ModelCommand::EffectUnCapture,
        ),
        !s.captured && s.next(input).captured ==> s.emitted(input).contains(
            ModelCommand::EffectCapture,
        ),
        s.push == s.next(input).push ==> s.push_step(input).1.len() == 0,
        s.blast == s.next(input).blast ==> s.blast_step(input).1.len() == 0,
{
    let a = s.button_step(input).1;
    let b = s.push_step(input).1;
    let c = s.mark_step(input);
    let d = s.blast_step(input).1;
    let e = s.capture_step(input).1;
    let all = s.emitted(input);
    assert forall|i: int| 0 <= i < a.len() implies all.contains(#[trigger] a[i]) by {
        assert(all[i] == a[i]);
    }
    assert forall|i: int| 0 <= i < b.len() implies all.contains(#[trigger] b[i]) by {
        assert(all[a.len() + i] == b[i]);
    }
    assert forall|i: int| 0 <= i < d.len() implies all.contains(#[trigger] d[i]) by {
        assert(all[a.len() + b.len() + c.len() + i] == d[i]);
    }
    assert forall|i: int| 0 <= i < e.len() implies all.contains(#[trigger] e[i]) by {
        assert(all[a.len() + b.len() + c.len() + d.len() + i] == e[i]);
    }
    if a.len() > 0 {
        assert(all.contains(a[0]));
    }
    if b.len() > 0 {
        assert(all.contains(b[0]));
    }
    if b.len() > 1 {
        assert(all.contains(b[1]));
    }
    if d.len() > 0 {
        assert(all.contains(d[0]));
    }
    if d.len() > 1 {
        assert(all.contains(d[1]));
    }
    if e.len() > 0 {
        assert(all.contains(e[0]));
    }
}

/// Which of the five state machines gave the `i`-th command of an event.
proof fn lemma_emitted_part(s: ActionState, input: ActionInput, i: int)
    requires
        0 <= i < s.emitted(input).len(),
    ensures
        (exists|j: int| 0 <= j < s.button_step(input).1.len() && s.emitted(input)[i] == #[trigger] s.button_step(input).1[j])
            || (exists|j: int| 0 <= j < s.push_step(input).1.len() && s.emitted(input)[i] == #[trigger] s.push_step(input).1[j])
            || (exists|j: int| 0 <= j < s.mark_step(input).len() && s.emitted(input)[i] == #[trigger] s.mark_step(input)[j])
            || (exists|j: int| 0 <= j < s.blast_step(input).1.len() && s.emitted(input)[i] == #[trigger] s.blast_step(input).1[j])
            || (exists|j: int| 0 <= j < s.capture_step(input).1.len() && s.emitted(input)[i] == #[trigger] s.capture_step(input).1[j]),
{
    let a = s.button_step(input).1;
    let b = s.push_step(input).1;
    let c = s.mark_step(input);
    let d = s.blast_step(input).1;
    let e = s.capture_step(input).1;
    let all = a + b + c + d + e;
    if i < a.len() {
        assert(all[i] == a[i]);
    } else if i < a.len() + b.len() {
        assert(all[i] == b[i - a.len()]);
    } else if i < a.len() + b.len() + c.len() {
        assert(all[i] == c[i - a.len() - b.len()]);
    } else if i < a.len() + b.len() + c.len() + d.len() {
        assert(all[i] == d[i - a.len() - b.len() - c.len()]);
    } else {
        assert(all[i] == e[i - a.len() - b.len() - c.len() - d.len()]);
    }
}

/// The button gives no command but that for a new game, and that only on
/// the release of the primary button.
proof fn lemma_button_commands(s: ActionState, input: ActionInput, j: int)
    requires
        0 <= j < s.button_step(input).1.len(),
    ensures
        !(s.button_step(input).1[j] is OpenBlock),
        !(s.button_step(input).1[j] is BlastBlock),
        !(s.button_step(input).1[j] is RotateBlockState),
        s.button_step(input).1[j] is NewGame ==> input == ActionInput::KeyUp(KeyKind::LButton)
            && s.button,
{
}

/// The opening press gives no command but that to open a cell, and that
/// only on the release of the primary button.
proof fn lemma_push_commands(s: ActionState, input: ActionInput, j: int)
    requires
        0 <= j < s.push_step(input).1.len(),
    ensures
        !(s.push_step(input).1[j] is NewGame),
        !(s.push_step(input).1[j] is BlastBlock),
        !(s.push_step(input).1[j] is RotateBlockState),
        s.push_step(input).1[j] is OpenBlock ==> input == ActionInput::KeyUp(KeyKind::LButton)
            && s.push is Some,
{
}

/// The chord gives no command but that of the chord, and that only on the
/// release of a button.
proof fn lemma_blast_commands(s: ActionState, input: ActionInput, j: int)
    requires
        0 <= j < s.blast_step(input).1.len(),
    ensures
        !(s.blast_step(input).1[j] is NewGame),
        !(s.blast_step(input).1[j] is OpenBlock),
        !(s.blast_step(input).1[j] is RotateBlockState),
        s.blast_step(input).1[j] is BlastBlock ==> input is KeyUp && s.blast is Some,
{
}

/// A command to open a cell or to chord on it only comes of the release of
/// a button, and a command to rotate a mark only of the press of the
/// secondary button.
pub proof fn law_commands_come_of_the_right_event(s: ActionState, input: ActionInput, i: int)
    requires
        0 <= i < s.emitted(input).len(),
    ensures
        s.emitted(input)[i] is OpenBlock ==> input == ActionInput::KeyUp(KeyKind::LButton)
            && s.push is Some,
        s.emitted(input)[i] is BlastBlock ==> input is KeyUp && s.blast is Some,
        s.emitted(input)[i] is NewGame ==> input == ActionInput::KeyUp(KeyKind::LButton)
            && s.button,
        s.emitted(input)[i] is RotateBlockState ==> input == ActionInput::KeyDown(
            KeyKind::RButton,
        ) && !s.l_down,
{
    lemma_emitted_part(s, input, i);
    let m = s.emitted(input)[i];
    let a = s.button_step(input).1;
    let b = s.push_step(input).1;
    let c = s.mark_step(input);
    let d = s.blast_step(input).1;
    let e = s.capture_step(input).1;
    if exists|j: int| 0 <= j < a.len() && m == #[trigger] a[j] {
        let j = choose|j: int| 0 <= j < a.len() && m == #[trigger] a[j];
        lemma_button_commands(s, input, j);
    } else if exists|j: int| 0 <= j < b.len() && m == #[trigger] b[j] {
        let j = choose|j: int| 0 <= j < b.len() && m == #[trigger] b[j];
        lemma_push_commands(s, input, j);
    } else if exists|j: int| 0 <= j < c.len() && m == #[trigger] c[j] {
        let j = choose|j: int| 0 <= j < c.len() && m == #[trigger] c[j];
        assert(c.len() == 1 && j == 0);
    } else if exists|j: int| 0 <= j < d.len() && m == #[trigger] d[j] {
        let j = choose|j: int| 0 <= j < d.len() && m == #[trigger] d[j];
        lemma_blast_commands(s, input, j);
    } else {
        let j = choose|j: int| 0 <= j < e.len() && m == #[trigger] e[j];
        assert(e[j] is EffectCapture || e[j] is EffectUnCapture);
    }
}

/// The bytes that list `mines` are eight for each mine, and those of the
/// `i`-th mine spell its position.
proof fn lemma_encode_list(mines: Seq<usize>, i: int)
    requires
        0 <= i < mines.len(),
    ensures
        encode_list(mines).len() == 8 * mines.len(),
        encode_list(mines).subrange(8 * i, 8 * i + 8) == spec_u64_to_le_bytes(mines[i] as u64),
    decreases mines.len(),
{
    lemma_auto_spec_u64_to_from_le_bytes();
    lemma_encode_list_len(mines);
    lemma_encode_list_len(mines.drop_last());
    let front = encode_list(mines.drop_last());
    let back = spec_u64_to_le_bytes(mines.last() as u64);
    if i == mines.len() - 1 {
        assert((front + back).subrange(8 * i, 8 * i + 8) =~= back);
    } else {
        lemma_encode_list(mines.drop_last(), i);
        assert((front + back).subrange(8 * i, 8 * i + 8) =~= front.subrange(8 * i, 8 * i + 8));
    }
}

proof fn lemma_encode_list_len(mines: Seq<usize>)
    ensures
        encode_list(mines).len() == 8 * mines.len(),
    decreases mines.len(),
{
    lemma_auto_spec_u64_to_from_le_bytes();
    if mines.len() > 0 {
        lemma_encode_list_len(mines.drop_last());
    }
}

/// A map file that was written from a layout which fits its board reads
/// back as the same layout.
pub proof fn law_map_file_reads_back(rows: usize, cols: usize, mines: Seq<usize>)
    requires
        layout_fits(rows as int, cols as int, mines),
    ensures
        parse(encode(rows, cols, mines)) == Some((rows, cols, mines)),
{
    lemma_auto_spec_u64_to_from_le_bytes();
    lemma_encode_list_len(mines);
    crate::lemmas::lemma_goal_leaves_room(rows as int, cols as int);
    let n = mines.len();
    let head = magic() + spec_u64_to_le_bytes(rows as u64) + spec_u64_to_le_bytes(cols as u64)
        + spec_u64_to_le_bytes(n as u64);
    let data = encode(rows, cols, mines);
    assert(data == head + encode_list(mines));
    assert(head.len() == 28);
    assert(data.subrange(0, 4) =~= magic());
    assert(data.subrange(4, 12) =~= spec_u64_to_le_bytes(rows as u64));
    assert(data.subrange(12, 20) =~= spec_u64_to_le_bytes(cols as u64));
    assert(data.subrange(20, 28) =~= spec_u64_to_le_bytes(n as u64));
    assert(field(data, 0) == rows && field(data, 1) == cols && field(data, 2) == n);
    assert forall|i: int| 0 <= i < n implies #[trigger] field(data, 3 + i) == mines[i] by {
        lemma_encode_list(mines, i);
        assert(data.subrange(4 + 8 * (3 + i), 12 + 8 * (3 + i)) =~= encode_list(mines).subrange(
            8 * i,
            8 * i + 8,
        ));
    }
    assert(listed(data, n as int) =~= mines);
}

} // verus!
