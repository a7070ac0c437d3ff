use charlesmine::clock::Timestamp;
use charlesmine::model::{BlockStatus, Board, BoardStatus};
use std::collections::VecDeque;
use std::rc::Rc;

/// A plain model of the game, kept as simple as can be, to hold the board
/// against.
struct Plain {
    rows: isize,
    cols: isize,
    mines: Vec<bool>,
    cells: Vec<BlockStatus>,
    goal: usize,
    over: Option<bool>,
    allow_marks: bool,
}

fn around(y: isize, x: isize) -> [(isize, isize); 12] {
    let s = if (y + x) % 2 == 0 { y - 1 } else { y + 1 };
    [
        (y - 1, x - 1),
        (y - 1, x),
        (y - 1, x + 1),
        (s, x - 2),
        (y, x - 2),
        (y, x - 1),
        (y, x + 1),
        (y, x + 2),
        (s, x + 2),
        (y + 1, x - 1),
        (y + 1, x),
        (y + 1, x + 1),
    ]
}

impl Plain {
    fn new(rows: usize, cols: usize, layout: &[usize]) -> Plain {
        let mut mines = vec![false; rows * cols];
        for m in layout {
            mines[*m] = true;
        }
        Plain {
            rows: rows as isize,
            cols: cols as isize,
            mines,
            cells: vec![BlockStatus::Normal; rows * cols],
            goal: layout.len(),
            over: None,
            allow_marks: true,
        }
    }

    fn idx(&self, y: isize, x: isize) -> usize {
        (y * self.cols + x) as usize
    }

    fn on_board(&self, y: isize, x: isize) -> bool {
        0 <= y && y < self.rows && 0 <= x && x < self.cols
    }

    fn neighbours(&self, y: isize, x: isize) -> Vec<(isize, isize)> {
        around(y, x).iter().copied().filter(|(a, b)| self.on_board(*a, *b)).collect()
    }

    fn number(&self, y: isize, x: isize) -> Option<u8> {
        if self.mines[self.idx(y, x)] {
            None
        } else {
            let near = self.neighbours(y, x);
            let n = near.iter().filter(|(a, b)| self.mines[self.idx(*a, *b)]).count();
            Some(n as u8)
        }
    }

    fn closed(&self) -> usize {
        self.cells.iter().filter(|s| **s != BlockStatus::Open).count()
    }

    fn marks(&self) -> usize {
        self.cells.iter().filter(|s| **s == BlockStatus::MarkedMine).count()
    }

    fn settle(&mut self, exploded: bool) {
        if self.over.is_none() {
            if exploded {
                self.over = Some(false);
            } else if self.closed() == self.goal {
                for s in self.cells.iter_mut() {
                    if *s != BlockStatus::Open {
                        *s = BlockStatus::MarkedMine;
                    }
                }
                self.over = Some(true);
            }
        }
    }

    fn chord(&mut self, y: isize, x: isize) {
        if self.over.is_some() || self.cells[self.idx(y, x)] != BlockStatus::Open {
            return;
        }
        let flags = self
            .neighbours(y, x)
            .iter()
            .filter(|(a, b)| self.cells[self.idx(*a, *b)] == BlockStatus::MarkedMine)
            .count() as u8;
        if self.number(y, x) != Some(flags) {
            return;
        }
        self.flood(y, x);
    }

    fn flood(&mut self, y: isize, x: isize) {
        let mut queue: VecDeque<(isize, isize)> = self.neighbours(y, x).into();
        let mut exploded = false;
        while let Some((a, b)) = queue.pop_front() {
            let i = self.idx(a, b);
            if self.cells[i] != BlockStatus::Normal {
                continue;
            }
            self.cells[i] = BlockStatus::Open;
            match self.number(a, b) {
                Some(0) => queue.extend(self.neighbours(a, b)),
                Some(_) => {}
                None => exploded = true,
            }
        }
        self.settle(exploded);
    }

    fn open(&mut self, y: isize, x: isize) {
        let i = self.idx(y, x);
        if self.over.is_some() {
            return;
        }
        if self.cells[i] != BlockStatus::Normal && self.cells[i] != BlockStatus::MarkedQuestionable
        {
            return;
        }
        self.cells[i] = BlockStatus::Open;
        match self.number(y, x) {
            None => self.over = Some(false),
            Some(n) => {
                self.settle(false);
                if n == 0 && self.over.is_none() {
                    self.flood(y, x);
                }
            }
        }
    }

    fn rotate(&mut self, y: isize, x: isize) {
        if self.over.is_some() {
            return;
        }
        let i = self.idx(y, x);
        self.cells[i] = match self.cells[i] {
            BlockStatus::Normal => BlockStatus::MarkedMine,
            BlockStatus::MarkedMine if self.allow_marks => BlockStatus::MarkedQuestionable,
            BlockStatus::MarkedMine => BlockStatus::Normal,
            BlockStatus::MarkedQuestionable => BlockStatus::Normal,
            BlockStatus::Open => BlockStatus::Open,
        };
    }
}

/// A small generator of numbers that gives the same sequence every time.
struct Dice(u64);

impl Dice {
    fn roll(&mut self, below: usize) -> usize {
        self.0 = self.0.wrapping_mul(6364136223846793005).wrapping_add(1442695040888963407);
        ((self.0 >> 33) as usize) % below
    }
}

fn same(board: &Board, plain: &Plain, started: bool, step: &str) {
    let (rows, cols) = board.size();
    for y in 0..rows {
        for x in 0..cols {
            assert_eq!(board.block_status(y, x), plain.cells[y * cols + x], "{} at {:?}", step, (y, x));
            if started {
                assert_eq!(
                    board.block_display_number(y, x),
                    plain.number(y as isize, x as isize),
                    "{} at {:?}",
                    step,
                    (y, x)
                );
                assert_eq!(
                    board.block(y, x).cached_number,
                    plain.number(y as isize, x as isize)
                );
            } else {
                assert_eq!(board.block_display_number(y, x), Some(0));
                assert_eq!(board.block(y, x).cached_number, None);
            }
        }
    }
    assert_eq!(board.rest_count(), plain.closed(), "{}", step);
    assert_eq!(board.cur_mark_count(), plain.marks(), "{}", step);
    match (board.status(), plain.over, started) {
        (BoardStatus::Ready, None, false) => {}
        (BoardStatus::Going(_), None, true) => {}
        (BoardStatus::Finished(..), Some(true), true) => {}
        (BoardStatus::Died(..), Some(false), true) => {}
        (status, over, _) => panic!("{}: {:?} against {:?}", step, status, over),
    }
}

#[test]
fn random_games_follow_the_plain_model() {
    let mut dice = Dice(2024);
    for game in 0..400 {
        let rows = 2 + dice.roll(6);
        let cols = 2 + dice.roll(8);
        let room = (rows - 1) * (cols - 1);
        let goal = dice.roll(room + 1);
        let mut layout: Vec<usize> = Vec::new();
        while layout.len() < goal {
            let m = dice.roll(rows * cols);
            if !layout.contains(&m) {
                layout.push(m);
            }
        }
        let mut board = Board::new(rows, cols, goal);
        board.update_fixed_mine_pos_list(Some(Rc::new(layout.clone())));
        let mut plain = Plain::new(rows, cols, &layout);
        if dice.roll(3) == 0 {
            board.set_allow_marks(false);
            plain.allow_marks = false;
        }
        let mut started = false;
        same(&board, &plain, started, "fresh");
        for turn in 0..60 {
            let y = dice.roll(rows);
            let x = dice.roll(cols);
            let now = Timestamp { secs: turn as i64, nanos: 0 };
            let step = match dice.roll(4) {
                0 | 1 => {
                    board.open_block_at(y, x, now);
                    plain.open(y as isize, x as isize);
                    started = true;
                    format!("game {} turn {}: open {:?}", game, turn, (y, x))
                }
                2 => {
                    board.rotate_block_state(y, x);
                    plain.rotate(y as isize, x as isize);
                    format!("game {} turn {}: rotate {:?}", game, turn, (y, x))
                }
                _ => {
                    board.blast_block_at(y, x, now);
                    plain.chord(y as isize, x as isize);
                    format!("game {} turn {}: chord {:?}", game, turn, (y, x))
                }
            };
            same(&board, &plain, started, &step);
        }
    }
}

#[test]
fn random_games_with_fresh_mines_keep_their_counts() {
    let mut dice = Dice(7);
    for _ in 0..200 {
        let rows = 2 + dice.roll(6);
        let cols = 2 + dice.roll(8);
        let goal = dice.roll((rows - 1) * (cols - 1) + 1);
        let mut board = Board::new(rows, cols, goal);
        let (fy, fx) = (dice.roll(rows), dice.roll(cols));
        board.open_block(fy, fx);
        assert!(!board.block(fy, fx).has_mine);
        assert_eq!(board.block_status(fy, fx), BlockStatus::Open);
        let mines = board.snapshot_mine_pos_list().unwrap();
        assert_eq!(mines.len(), goal);
        assert!(mines.windows(2).all(|w| w[0] < w[1]));
        for _ in 0..40 {
            let (y, x) = (dice.roll(rows), dice.roll(cols));
            match dice.roll(3) {
                0 => board.open_block(y, x),
                1 => board.rotate_block_state(y, x),
                _ => board.blast_block(y, x),
            }
            let mut open = 0;
            let mut marks = 0;
            for cy in 0..rows {
                for cx in 0..cols {
                    match board.block_status(cy, cx) {
                        BlockStatus::Open => open += 1,
                        BlockStatus::MarkedMine => marks += 1,
                        _ => {}
                    }
                }
            }
            assert_eq!(board.rest_count() + open, rows * cols);
            assert_eq!(board.cur_mark_count(), marks);
            assert_eq!(board.snapshot_mine_pos_list().unwrap(), mines);
        }
    }
}
