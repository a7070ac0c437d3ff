//! Why the breadth-first flood opens exactly the cells that the rules name.
//!
//! The flood keeps a queue of positions to look at. The predicates below say
//! what holds between the board before the flood, the board so far and the
//! queue; the lemmas carry that through each step and read the result off
//! once the queue is empty.

use crate::lemmas::{
    lemma_index_bounds, lemma_index_injective, lemma_index_split, lemma_numbers_same,
    lemma_tally_update, same_mines,
};
use crate::model::BlockStatus;
use crate::rules::{adjacent, neighbors, tally, BoardModel, CellState, Tally};
use vstd::prelude::*;

verus! {

/// The cell was untouched before the flood and is open now.
pub open spec fn newly_open(b0: BoardModel, cur: BoardModel, cy: int, cx: int) -> bool {
    b0.cell(cy, cx).status == BlockStatus::Normal && cur.cell(cy, cx).status == BlockStatus::Open
}

/// The cell is as it was, or the flood around `(y, x)` has opened it by right.
pub open spec fn cell_ok(b0: BoardModel, cur: BoardModel, y: int, x: int, cy: int, cx: int) -> bool {
    let c0 = b0.cell(cy, cx);
    let c = cur.cell(cy, cx);
    c == c0 || (c0.status == BlockStatus::Normal && c == (CellState {
        status: BlockStatus::Open,
        ..c0
    }) && b0.flooded(y, x, cy, cx))
}

/// The position `n` waits in the queue.
pub open spec fn queued(queue: Seq<(usize, usize)>, n: (int, int)) -> bool {
    exists|i: int| 0 <= i < queue.len() && (#[trigger] queue[i]).0 == n.0 && queue[i].1 == n.1
}

/// The position `n` needs no more attention, or waits in the queue.
pub open spec fn served_one(cur: BoardModel, queue: Seq<(usize, usize)>, n: (int, int)) -> bool {
    cur.in_range(n.0, n.1) ==> cur.cell(n.0, n.1).status != BlockStatus::Normal || queued(queue, n)
}

/// All twelve positions around `(cy, cx)` are served.
pub open spec fn served(cur: BoardModel, queue: Seq<(usize, usize)>, cy: int, cx: int) -> bool {
    forall|k: int| 0 <= k < 12 ==> served_one(cur, queue, #[trigger] neighbors(cy, cx)[k])
}

/// A queued position lies on the board, and the flood reaches it if it was
/// untouched.
pub open spec fn wait_ok(b0: BoardModel, y: int, x: int, q: (usize, usize)) -> bool {
    b0.in_range(q.0 as int, q.1 as int) && (b0.cell(q.0 as int, q.1 as int).status
        == BlockStatus::Normal ==> b0.flooded(y, x, q.0 as int, q.1 as int))
}

/// What holds between the board `b0` before a flood around `(y, x)`, the
/// board `cur` so far and the queue.
#[verifier::opaque]
pub open spec fn flood_inv(
    b0: BoardModel,
    cur: BoardModel,
    queue: Seq<(usize, usize)>,
    y: int,
    x: int,
) -> bool {
    &&& b0.laid_out()
    &&& cur == (BoardModel { cells: cur.cells, ..b0 })
    &&& cur.cells.len() == b0.cells.len()
    &&& forall|cy: int, cx: int| b0.in_range(cy, cx) ==> #[trigger] cell_ok(b0, cur, y, x, cy, cx)
    &&& served(cur, queue, y, x)
    &&& forall|cy: int, cx: int|
        b0.in_range(cy, cx) && #[trigger] newly_open(b0, cur, cy, cx) && b0.display_number(cy, cx)
            == Some(0u8) ==> served(cur, queue, cy, cx)
    &&& forall|i: int| 0 <= i < queue.len() ==> wait_ok(b0, y, x, #[trigger] queue[i])
}

/// `longer` begins with `shorter`.
pub open spec fn extends(shorter: Seq<(usize, usize)>, longer: Seq<(usize, usize)>) -> bool {
    &&& shorter.len() <= longer.len()
    &&& forall|i: int| 0 <= i < shorter.len() ==> #[trigger] longer[i] == shorter[i]
}

/// What was queued stays queued when the queue grows at its end.
pub proof fn lemma_queued_extends(
    shorter: Seq<(usize, usize)>,
    longer: Seq<(usize, usize)>,
    n: (int, int),
)
    requires
        extends(shorter, longer),
        queued(shorter, n),
    ensures
        queued(longer, n),
{
    let i = choose|i: int| 0 <= i < shorter.len() && (#[trigger] shorter[i]).0 == n.0 && shorter[i].1 == n.1;
    assert(longer[i] == shorter[i]);
}

/// An untouched neighbour of the centre is reached by a path of one cell.
pub proof fn lemma_flood_first(b0: BoardModel, y: int, x: int, qy: int, qx: int)
    requires
        b0.in_range(qy, qx),
        adjacent((y, x), (qy, qx)),
        b0.cell(qy, qx).status == BlockStatus::Normal,
    ensures
        b0.flooded(y, x, qy, qx),
{
    let path = seq![(qy, qx)];
    assert(b0.flood_path(y, x, path));
    assert(path.last() == (qy, qx));
}

/// An untouched neighbour of a reached cell that shows 0 is reached.
pub proof fn lemma_flood_next(b0: BoardModel, y: int, x: int, ey: int, ex: int, qy: int, qx: int)
    requires
        b0.flooded(y, x, ey, ex),
        b0.display_number(ey, ex) == Some(0u8),
        b0.in_range(qy, qx),
        adjacent((ey, ex), (qy, qx)),
        b0.cell(qy, qx).status == BlockStatus::Normal,
    ensures
        b0.flooded(y, x, qy, qx),
{
    let p = choose|p: Seq<(int, int)>| #[trigger] b0.flood_path(y, x, p) && p.last() == (ey, ex);
    let path = p.push((qy, qx));
    assert forall|k: int| 0 <= k < path.len() implies b0.in_range(
        (#[trigger] path[k]).0,
        path[k].1,
    ) && b0.cell(path[k].0, path[k].1).status == BlockStatus::Normal by {
        if k < p.len() {
            assert(path[k] == p[k]);
        }
    }
    assert forall|k: int| 0 <= k < path.len() - 1 implies b0.display_number(
        (#[trigger] path[k]).0,
        path[k].1,
    ) == Some(0u8) && adjacent(path[k], path[k + 1]) by {
        assert(path[k] == p[k]);
        if k < p.len() - 1 {
            assert(path[k + 1] == p[k + 1]);
        }
    }
    assert(path[0] == p[0]);
    assert(b0.flood_path(y, x, path));
    assert(path.last() == (qy, qx));
}

/// What the invariant says of the board so far and of the front of the
/// queue.
pub proof fn lemma_flood_front(
    b0: BoardModel,
    cur: BoardModel,
    queue: Seq<(usize, usize)>,
    y: int,
    x: int,
)
    requires
        flood_inv(b0, cur, queue, y, x),
    ensures
        b0.laid_out(),
        cur == (BoardModel { cells: cur.cells, ..b0 }),
        cur.cells.len() == b0.cells.len(),
        queue.len() > 0 ==> b0.in_range(queue[0].0 as int, queue[0].1 as int),
{
    reveal(flood_inv);
    if queue.len() > 0 {
        assert(wait_ok(b0, y, x, queue[0]));
    }
}

/// The flood may begin: with the neighbours of the centre queued, the
/// invariant holds of the untouched board.
pub proof fn lemma_flood_begin(b0: BoardModel, queue: Seq<(usize, usize)>, y: int, x: int)
    requires
        b0.laid_out(),
        forall|i: int|
            0 <= i < queue.len() ==> b0.in_range((#[trigger] queue[i]).0 as int, queue[i].1 as int)
                && adjacent((y, x), (queue[i].0 as int, queue[i].1 as int)),
        forall|k: int|
            0 <= k < 12 ==> ({
                let n = #[trigger] neighbors(y, x)[k];
                b0.in_range(n.0, n.1) ==> queued(queue, n)
            }),
    ensures
        flood_inv(b0, b0, queue, y, x),
{
    reveal(flood_inv);
    assert forall|i: int| 0 <= i < queue.len() implies wait_ok(b0, y, x, #[trigger] queue[i]) by {
        let q = queue[i];
        if b0.cell(q.0 as int, q.1 as int).status == BlockStatus::Normal {
            lemma_flood_first(b0, y, x, q.0 as int, q.1 as int);
        }
    }
}

/// A cell other than the one at `(ey, ex)` is not touched when that one is
/// given a new status.
pub proof fn lemma_other_cell_kept(
    cur: BoardModel,
    ey: int,
    ex: int,
    s: BlockStatus,
    cy: int,
    cx: int,
)
    requires
        cur.laid_out(),
        cur.in_range(ey, ex),
        cur.in_range(cy, cx),
    ensures
        (cy, cx) != (ey, ex) ==> cur.with_status(ey, ex, s).cell(cy, cx) == cur.cell(cy, cx),
        (cy, cx) == (ey, ex) ==> cur.with_status(ey, ex, s).cell(cy, cx) == (CellState {
            status: s,
            ..cur.cell(cy, cx)
        }),
{
    lemma_index_bounds(cur.rows as int, cur.cols as int, ey, ex);
    lemma_index_bounds(cur.rows as int, cur.cols as int, cy, cx);
    if cur.index(cy, cx) == cur.index(ey, ex) {
        lemma_index_injective(cur.cols as int, cy, cx, ey, ex);
    }
}

/// A position that was served stays served when the front of the queue is
/// opened, the rest of the queue is kept and new positions join at its end.
proof fn lemma_served_kept(
    cur: BoardModel,
    queue: Seq<(usize, usize)>,
    queue2: Seq<(usize, usize)>,
    n: (int, int),
)
    requires
        cur.laid_out(),
        queue.len() > 0,
        cur.in_range(queue[0].0 as int, queue[0].1 as int),
        extends(queue.subrange(1, queue.len() as int), queue2),
        served_one(cur, queue, n),
    ensures
        served_one(
            cur.with_status(queue[0].0 as int, queue[0].1 as int, BlockStatus::Open),
            queue2,
            n,
        ),
{
    let ey = queue[0].0 as int;
    let ex = queue[0].1 as int;
    let cur2 = cur.with_status(ey, ex, BlockStatus::Open);
    if cur.in_range(n.0, n.1) {
        lemma_other_cell_kept(cur, ey, ex, BlockStatus::Open, n.0, n.1);
        if n != (ey, ex) && cur.cell(n.0, n.1).status == BlockStatus::Normal {
            let i = choose|i: int|
                0 <= i < queue.len() && (#[trigger] queue[i]).0 == n.0 && queue[i].1 == n.1;
            let rest = queue.subrange(1, queue.len() as int);
            assert(rest[i - 1] == queue[i]);
            assert(queue2[i - 1] == rest[i - 1]);
        }
    }
}

/// A position that was served stays served when the front of the queue,
/// which needs no attention, is dropped.
proof fn lemma_served_skip(cur: BoardModel, queue: Seq<(usize, usize)>, n: (int, int))
    requires
        queue.len() > 0,
        cur.cell(queue[0].0 as int, queue[0].1 as int).status != BlockStatus::Normal,
        served_one(cur, queue, n),
    ensures
        served_one(cur, queue.subrange(1, queue.len() as int), n),
{
    if cur.in_range(n.0, n.1) && cur.cell(n.0, n.1).status == BlockStatus::Normal {
        let i = choose|i: int|
            0 <= i < queue.len() && (#[trigger] queue[i]).0 == n.0 && queue[i].1 == n.1;
        let rest = queue.subrange(1, queue.len() as int);
        assert(rest[i - 1] == queue[i]);
    }
}

/// One step of the flood on a position that is not untouched: it leaves the
/// queue and nothing else changes.
pub proof fn lemma_flood_skip(
    b0: BoardModel,
    cur: BoardModel,
    queue: Seq<(usize, usize)>,
    y: int,
    x: int,
)
    requires
        flood_inv(b0, cur, queue, y, x),
        queue.len() > 0,
        cur.cell(queue[0].0 as int, queue[0].1 as int).status != BlockStatus::Normal,
    ensures
        flood_inv(b0, cur, queue.subrange(1, queue.len() as int), y, x),
{
    reveal(flood_inv);
    let rest = queue.subrange(1, queue.len() as int);
    assert forall|k: int| 0 <= k < 12 implies served_one(
        cur,
        rest,
        #[trigger] neighbors(y, x)[k],
    ) by {
        lemma_served_skip(cur, queue, neighbors(y, x)[k]);
    }
    assert forall|cy: int, cx: int|
        b0.in_range(cy, cx) && #[trigger] newly_open(b0, cur, cy, cx) && b0.display_number(cy, cx)
            == Some(0u8) implies served(cur, rest, cy, cx) by {
        assert(served(cur, queue, cy, cx));
        assert forall|k: int| 0 <= k < 12 implies served_one(
            cur,
            rest,
            #[trigger] neighbors(cy, cx)[k],
        ) by {
            lemma_served_skip(cur, queue, neighbors(cy, cx)[k]);
        }
    }
    assert forall|i: int| 0 <= i < rest.len() implies wait_ok(b0, y, x, #[trigger] rest[i]) by {
        assert(rest[i] == queue[i + 1]);
    }
}

/// One step of the flood on an untouched position: it is opened, and where
/// it shows 0 its neighbours on the board join the queue.
pub proof fn lemma_flood_open(
    b0: BoardModel,
    cur: BoardModel,
    queue: Seq<(usize, usize)>,
    queue2: Seq<(usize, usize)>,
    y: int,
    x: int,
)
    requires
        flood_inv(b0, cur, queue, y, x),
        queue.len() > 0,
        cur.cell(queue[0].0 as int, queue[0].1 as int).status == BlockStatus::Normal,
        extends(queue.subrange(1, queue.len() as int), queue2),
        forall|i: int|
            queue.len() - 1 <= i < queue2.len() ==> b0.display_number(
                queue[0].0 as int,
                queue[0].1 as int,
            ) == Some(0u8) && b0.in_range((#[trigger] queue2[i]).0 as int, queue2[i].1 as int)
                && adjacent(
                (queue[0].0 as int, queue[0].1 as int),
                (queue2[i].0 as int, queue2[i].1 as int),
            ),
        b0.display_number(queue[0].0 as int, queue[0].1 as int) == Some(0u8) ==> forall|k: int|
            0 <= k < 12 ==> ({
                let n = #[trigger] neighbors(queue[0].0 as int, queue[0].1 as int)[k];
                b0.in_range(n.0, n.1) ==> queued(queue2, n)
            }),
    ensures
        b0.cell(queue[0].0 as int, queue[0].1 as int) == cur.cell(
            queue[0].0 as int,
            queue[0].1 as int,
        ),
        b0.flooded(y, x, queue[0].0 as int, queue[0].1 as int),
        flood_inv(
            b0,
            cur.with_status(queue[0].0 as int, queue[0].1 as int, BlockStatus::Open),
            queue2,
            y,
            x,
        ),
{
    reveal(flood_inv);
    let ey = queue[0].0 as int;
    let ex = queue[0].1 as int;
    let cur2 = cur.with_status(ey, ex, BlockStatus::Open);
    let rest = queue.subrange(1, queue.len() as int);
    assert(wait_ok(b0, y, x, queue[0]));
    assert(cell_ok(b0, cur, y, x, ey, ex));
    lemma_index_bounds(b0.rows as int, b0.cols as int, ey, ex);
    assert forall|cy: int, cx: int| b0.in_range(cy, cx) implies #[trigger] cell_ok(
        b0,
        cur2,
        y,
        x,
        cy,
        cx,
    ) by {
        assert(cell_ok(b0, cur, y, x, cy, cx));
        lemma_other_cell_kept(cur, ey, ex, BlockStatus::Open, cy, cx);
    }
    assert forall|k: int| 0 <= k < 12 implies served_one(
        cur2,
        queue2,
        #[trigger] neighbors(y, x)[k],
    ) by {
        lemma_served_kept(cur, queue, queue2, neighbors(y, x)[k]);
    }
    assert forall|cy: int, cx: int|
        b0.in_range(cy, cx) && #[trigger] newly_open(b0, cur2, cy, cx) && b0.display_number(cy, cx)
            == Some(0u8) implies served(cur2, queue2, cy, cx) by {
        lemma_other_cell_kept(cur, ey, ex, BlockStatus::Open, cy, cx);
        if (cy, cx) == (ey, ex) {
            assert forall|k: int| 0 <= k < 12 implies served_one(
                cur2,
                queue2,
                #[trigger] neighbors(cy, cx)[k],
            ) by {
            }
        } else {
            assert(newly_open(b0, cur, cy, cx));
            assert(served(cur, queue, cy, cx));
            assert forall|k: int| 0 <= k < 12 implies served_one(
                cur2,
                queue2,
                #[trigger] neighbors(cy, cx)[k],
            ) by {
                lemma_served_kept(cur, queue, queue2, neighbors(cy, cx)[k]);
            }
        }
    }
    assert forall|i: int| 0 <= i < queue2.len() implies wait_ok(b0, y, x, #[trigger] queue2[i]) by {
        if i < rest.len() {
            assert(queue2[i] == rest[i]);
            assert(rest[i] == queue[i + 1]);
        } else {
            let q = queue2[i];
            if b0.cell(q.0 as int, q.1 as int).status == BlockStatus::Normal {
                lemma_flood_next(b0, y, x, ey, ex, q.0 as int, q.1 as int);
            }
        }
    }
}

/// Whether the flood has opened a mine so far.
pub open spec fn mine_opened(b0: BoardModel, cur: BoardModel) -> bool {
    exists|cy: int, cx: int|
        b0.in_range(cy, cx) && #[trigger] newly_open(b0, cur, cy, cx) && b0.cell(cy, cx).has_mine
}

/// The whole of one step on an untouched position `(cy, cx)` that shows `n`:
/// what it does to the invariant, to the counts and to the record of opened
/// mines.
pub proof fn lemma_flood_visit(
    b0: BoardModel,
    before: BoardModel,
    after: BoardModel,
    waiting: Seq<(usize, usize)>,
    queue2: Seq<(usize, usize)>,
    y: int,
    x: int,
    n: Option<u8>,
)
    requires
        flood_inv(b0, before, waiting, y, x),
        same_mines(b0, before),
        waiting.len() > 0,
        before.cell(waiting[0].0 as int, waiting[0].1 as int).status == BlockStatus::Normal,
        after == before.with_status(waiting[0].0 as int, waiting[0].1 as int, BlockStatus::Open),
        n == before.display_number(waiting[0].0 as int, waiting[0].1 as int),
        extends(waiting.subrange(1, waiting.len() as int), queue2),
        n != Some(0u8) ==> queue2.len() == waiting.len() - 1,
        forall|i: int|
            waiting.len() - 1 <= i < queue2.len() ==> after.in_range(
                (#[trigger] queue2[i]).0 as int,
                queue2[i].1 as int,
            ) && adjacent(
                (waiting[0].0 as int, waiting[0].1 as int),
                (queue2[i].0 as int, queue2[i].1 as int),
            ),
        n == Some(0u8) ==> forall|k: int|
            0 <= k < 12 ==> ({
                let m = #[trigger] neighbors(waiting[0].0 as int, waiting[0].1 as int)[k];
                after.in_range(m.0, m.1) ==> queued(queue2, m)
            }),
    ensures
        flood_inv(b0, after, queue2, y, x),
        same_mines(b0, after),
        mine_opened(b0, after) <==> mine_opened(b0, before) || n is None,
        tally(after.cells, Tally::Closed) + 1 == tally(before.cells, Tally::Closed),
        tally(after.cells, Tally::Marked) == tally(before.cells, Tally::Marked),
        tally(after.cells, Tally::Untouched) + 1 == tally(before.cells, Tally::Untouched),
{
    let ey = waiting[0].0 as int;
    let ex = waiting[0].1 as int;
    lemma_flood_front(b0, before, waiting, y, x);
    lemma_numbers_same(b0, before);
    lemma_index_bounds(b0.rows as int, b0.cols as int, ey, ex);
    let idx = before.index(ey, ex);
    let c = CellState { status: BlockStatus::Open, ..before.cells[idx] };
    lemma_tally_update(before.cells, idx, c, Tally::Closed);
    lemma_tally_update(before.cells, idx, c, Tally::Marked);
    lemma_tally_update(before.cells, idx, c, Tally::Untouched);
    lemma_flood_open(b0, before, waiting, queue2, y, x);
    assert(newly_open(b0, after, ey, ex)) by {
        lemma_other_cell_kept(before, ey, ex, BlockStatus::Open, ey, ex);
    }
    assert forall|ay: int, ax: int| b0.in_range(ay, ax) implies (#[trigger] newly_open(
        b0,
        after,
        ay,
        ax,
    ) <==> newly_open(b0, before, ay, ax) || (ay, ax) == (ey, ex)) by {
        lemma_other_cell_kept(before, ey, ex, BlockStatus::Open, ay, ax);
    }
    if mine_opened(b0, before) {
        let (ay, ax) = choose|ay: int, ax: int|
            b0.in_range(ay, ax) && #[trigger] newly_open(b0, before, ay, ax) && b0.cell(
                ay,
                ax,
            ).has_mine;
        assert(newly_open(b0, after, ay, ax));
    }
    if mine_opened(b0, after) {
        let (ay, ax) = choose|ay: int, ax: int|
            b0.in_range(ay, ax) && #[trigger] newly_open(b0, after, ay, ax) && b0.cell(
                ay,
                ax,
            ).has_mine;
        if (ay, ax) != (ey, ex) {
            assert(newly_open(b0, before, ay, ax));
        }
    }
}

/// Each of the twelve positions around `a` is adjacent to `a`.
pub proof fn lemma_adjacent(a: (int, int), k: int)
    requires
        0 <= k < 12,
    ensures
        adjacent(a, neighbors(a.0, a.1)[k]),
{
}

/// With nothing left in the queue, every cell along a flood path is open.
proof fn lemma_path_open(b0: BoardModel, cur: BoardModel, y: int, x: int, path: Seq<(int, int)>, k: int)
    requires
        flood_inv(b0, cur, Seq::<(usize, usize)>::empty(), y, x),
        b0.flood_path(y, x, path),
        0 <= k < path.len(),
    ensures
        newly_open(b0, cur, path[k].0, path[k].1),
    decreases k,
{
    reveal(flood_inv);
    let empty = Seq::<(usize, usize)>::empty();
    let c = path[k];
    assert(cell_ok(b0, cur, y, x, c.0, c.1));
    if k == 0 {
        let j = choose|j: int| 0 <= j < 12 && #[trigger] neighbors(y, x)[j] == c;
        assert(served_one(cur, empty, neighbors(y, x)[j]));
    } else {
        lemma_path_open(b0, cur, y, x, path, k - 1);
        let p = path[k - 1];
        assert(served(cur, empty, p.0, p.1));
        let j = choose|j: int| 0 <= j < 12 && #[trigger] neighbors(p.0, p.1)[j] == c;
        assert(served_one(cur, empty, neighbors(p.0, p.1)[j]));
    }
}

/// With nothing left in the queue, the board is the flooded board, and a
/// mine was opened exactly where the flood reaches one.
pub proof fn lemma_flood_end(b0: BoardModel, cur: BoardModel, y: int, x: int)
    requires
        flood_inv(b0, cur, Seq::<(usize, usize)>::empty(), y, x),
    ensures
        cur == b0.flood(y, x),
        b0.flood_hits_mine(y, x) <==> mine_opened(b0, cur),
{
    reveal(flood_inv);
    assert forall|cy: int, cx: int| b0.in_range(cy, cx) implies (#[trigger] b0.flooded(y, x, cy, cx)
        <==> newly_open(b0, cur, cy, cx)) by {
        assert(cell_ok(b0, cur, y, x, cy, cx));
        if b0.flooded(y, x, cy, cx) {
            let p = choose|p: Seq<(int, int)>| #[trigger]
                b0.flood_path(y, x, p) && p.last() == (cy, cx);
            lemma_path_open(b0, cur, y, x, p, p.len() - 1);
        }
    }
    let target = b0.flood(y, x);
    assert forall|i: int| 0 <= i < cur.cells.len() implies cur.cells[i] == target.cells[i] by {
        lemma_index_split(b0.rows as int, b0.cols as int, i);
        let cy = i / (b0.cols as int);
        let cx = i % (b0.cols as int);
        assert(cell_ok(b0, cur, y, x, cy, cx));
        assert(b0.flooded(y, x, cy, cx) <==> newly_open(b0, cur, cy, cx));
    }
    assert(cur.cells =~= target.cells);
    if b0.flood_hits_mine(y, x) {
        let (cy, cx) = choose|cy: int, cx: int|
            b0.in_range(cy, cx) && #[trigger] b0.flooded(y, x, cy, cx) && b0.cell(cy, cx).has_mine;
        assert(newly_open(b0, cur, cy, cx));
    }
    if exists|cy: int, cx: int|
        b0.in_range(cy, cx) && #[trigger] newly_open(b0, cur, cy, cx) && b0.cell(cy, cx).has_mine {
        let (cy, cx) = choose|cy: int, cx: int|
            b0.in_range(cy, cx) && #[trigger] newly_open(b0, cur, cy, cx) && b0.cell(cy, cx).has_mine;
        assert(b0.flooded(y, x, cy, cx));
    }
}

} // verus!
