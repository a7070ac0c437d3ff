use charlesmine::clock::Timestamp;
use charlesmine::model::{
    Block, BlockDisplayKind, BlockShape, BlockStatus, Board, BoardStatus, GameButtonDisplayKind,
};
use std::rc::Rc;

fn at(secs: i64) -> Timestamp {
    Timestamp { secs, nanos: 0 }
}

/// A board of four rows and four columns with the given fixed mines.
fn fixed_board(goal: usize, mines: Vec<usize>) -> Board {
    let mut board = Board::new(4, 4, goal);
    board.update_fixed_mine_pos_list(Some(Rc::new(mines)));
    board
}

/// A board of six rows and eight columns with five fixed mines.
fn wide_board() -> Board {
    let mut board = Board::new(6, 8, 5);
    board.update_fixed_mine_pos_list(Some(Rc::new(vec![0, 9, 22, 30, 41])));
    board
}

/// Each cell as its number, or `*` for a mine, and the letter of its
/// status.
fn render(board: &Board) -> Vec<String> {
    let (rows, cols) = board.size();
    (0..rows)
        .map(|y| {
            (0..cols)
                .map(|x| {
                    let number = match board.block_display_number(y, x) {
                        Some(n) => format!("{}", n),
                        None => format!("*"),
                    };
                    let status = match board.block_status(y, x) {
                        BlockStatus::Normal => "N",
                        BlockStatus::Open => "O",
                        BlockStatus::MarkedMine => "M",
                        BlockStatus::MarkedQuestionable => "Q",
                    };
                    format!("{}{}", number, status)
                })
                .collect::<Vec<String>>()
                .join(" ")
        })
        .collect()
}

fn statuses(board: &Board) -> Vec<BlockStatus> {
    let (rows, cols) = board.size();
    let mut all = Vec::new();
    for y in 0..rows {
        for x in 0..cols {
            all.push(board.block_status(y, x));
        }
    }
    all
}

fn open_count(board: &Board) -> usize {
    statuses(board).iter().filter(|s| **s == BlockStatus::Open).count()
}

#[test]
fn first_open_starts_the_game_on_a_free_cell() {
    for _ in 0..200 {
        let mut board = Board::new(10, 11, 10);
        board.open_block(0, 0);
        let won_at_once = board.rest_count() == 10;
        match board.status() {
            BoardStatus::Going(_) => assert!(!won_at_once),
            BoardStatus::Finished(..) => assert!(won_at_once),
            other => panic!("unexpected status {:?}", other),
        }
        assert_eq!(board.block(0, 0).status, BlockStatus::Open);
        assert!(!board.block(0, 0).has_mine);
        assert_eq!(board.snapshot_mine_pos_list().unwrap().len(), 10);
    }
}

#[test]
fn new_board_is_ready_and_untouched() {
    let board = Board::new(10, 11, 10);
    assert_eq!(board.size(), (10, 11));
    assert_eq!(board.goal_mark_count(), 10);
    assert_eq!(board.rest_count(), 110);
    assert_eq!(board.cur_mark_count(), 0);
    assert_eq!(board.status(), BoardStatus::Ready);
    assert!(board.fixed_mine_pos_list().is_none());
    assert!(board.snapshot_mine_pos_list().is_none());
    assert_eq!(
        *board.block(3, 4),
        Block { has_mine: false, cached_number: None, status: BlockStatus::Normal }
    );
    assert_eq!(board.block_display_number(3, 4), Some(0));
}

#[test]
fn closed_and_open_cells_cover_the_board() {
    let mut board = fixed_board(2, vec![3, 12]);
    assert_eq!(board.rest_count() + open_count(&board), 16);
    board.rotate_block_state(1, 1);
    assert_eq!(board.rest_count() + open_count(&board), 16);
    board.open_block_at(0, 0, at(10));
    assert_eq!(board.rest_count() + open_count(&board), 16);
    board.open_block_at(3, 3, at(11));
    assert_eq!(board.rest_count() + open_count(&board), 16);
    board.open_block_at(0, 3, at(12));
    assert_eq!(board.rest_count() + open_count(&board), 16);
}

#[test]
fn mark_cycle_with_question_marks() {
    let mut board = Board::new(10, 11, 10);
    assert_eq!(board.block_status(2, 3), BlockStatus::Normal);
    board.rotate_block_state(2, 3);
    assert_eq!(board.block_status(2, 3), BlockStatus::MarkedMine);
    assert_eq!(board.cur_mark_count(), 1);
    board.rotate_block_state(2, 3);
    assert_eq!(board.block_status(2, 3), BlockStatus::MarkedQuestionable);
    assert_eq!(board.cur_mark_count(), 0);
    board.rotate_block_state(2, 3);
    assert_eq!(board.block_status(2, 3), BlockStatus::Normal);
    assert_eq!(board.cur_mark_count(), 0);
    assert_eq!(board.rest_count(), 110);
}

#[test]
fn mark_cycle_without_question_marks() {
    let mut board = Board::new(10, 11, 10);
    board.set_allow_marks(false);
    board.rotate_block_state(2, 3);
    assert_eq!(board.block_status(2, 3), BlockStatus::MarkedMine);
    assert_eq!(board.cur_mark_count(), 1);
    board.rotate_block_state(2, 3);
    assert_eq!(board.block_status(2, 3), BlockStatus::Normal);
    assert_eq!(board.cur_mark_count(), 0);
}

#[test]
fn rotating_does_nothing_to_an_open_cell_or_a_finished_game() {
    let mut board = fixed_board(1, vec![15]);
    board.open_block_at(0, 0, at(1));
    assert_eq!(board.status(), BoardStatus::Finished(at(1), at(1)));
    let before = statuses(&board);
    board.rotate_block_state(0, 0);
    board.rotate_block_state(3, 3);
    assert_eq!(statuses(&board), before);
    assert_eq!(board.cur_mark_count(), 1);

    let mut going = fixed_board(2, vec![3, 12]);
    going.open_block_at(1, 1, at(1));
    assert_eq!(going.block_status(1, 1), BlockStatus::Open);
    going.rotate_block_state(1, 1);
    assert_eq!(going.block_status(1, 1), BlockStatus::Open);
    assert_eq!(going.cur_mark_count(), 0);
}

#[test]
fn chord_focus_covers_its_own_cell() {
    assert!(Board::is_surrounding((2, 2), (2, 2)));
}

#[test]
fn chord_cover_is_wider_along_the_long_edge() {
    // (2, 2) points down: its long edge is shared with row 1.
    assert_eq!(Board::block_shape(2, 2), BlockShape::RevDeltaLike);
    assert!(Board::is_surrounding((2, 2), (2, 0)));
    assert!(Board::is_surrounding((2, 2), (2, 4)));
    assert!(!Board::is_surrounding((2, 2), (2, 5)));
    assert!(Board::is_surrounding((2, 2), (1, 0)));
    assert!(Board::is_surrounding((2, 2), (1, 4)));
    assert!(!Board::is_surrounding((2, 2), (3, 0)));
    assert!(Board::is_surrounding((2, 2), (3, 1)));
    assert!(Board::is_surrounding((2, 2), (3, 3)));
    assert!(!Board::is_surrounding((2, 2), (3, 4)));
    assert!(!Board::is_surrounding((2, 2), (0, 2)));
    assert!(!Board::is_surrounding((2, 2), (4, 2)));
    // (2, 3) points up: its long edge is shared with row 3.
    assert_eq!(Board::block_shape(2, 3), BlockShape::DeltaLike);
    assert!(Board::is_surrounding((2, 3), (3, 1)));
    assert!(Board::is_surrounding((2, 3), (3, 5)));
    assert!(!Board::is_surrounding((2, 3), (1, 1)));
    assert!(Board::is_surrounding((2, 3), (1, 2)));
    assert!(Board::is_surrounding((0, 0), (0, 2)));
    assert!(!Board::is_surrounding((0, 0), (usize::MAX, 0)));
    assert!(Board::is_surrounding((usize::MAX, usize::MAX), (usize::MAX, usize::MAX - 2)));
}

#[test]
fn shape_alternates_with_the_parity_of_row_plus_column() {
    assert_eq!(Board::block_shape(0, 0), BlockShape::RevDeltaLike);
    assert_eq!(Board::block_shape(0, 1), BlockShape::DeltaLike);
    assert_eq!(Board::block_shape(1, 0), BlockShape::DeltaLike);
    assert_eq!(Board::block_shape(1, 1), BlockShape::RevDeltaLike);
    assert_eq!(Board::block_shape(usize::MAX, usize::MAX), BlockShape::RevDeltaLike);
    assert_eq!(Board::block_shape(usize::MAX, 0), BlockShape::DeltaLike);
}

#[test]
fn twelve_neighbours_of_either_orientation() {
    assert_eq!(
        Board::surrounding_blocks(5, 5),
        [
            (4, 4),
            (4, 5),
            (4, 6),
            (4, 3),
            (5, 3),
            (5, 4),
            (5, 6),
            (5, 7),
            (4, 7),
            (6, 4),
            (6, 5),
            (6, 6)
        ]
    );
    assert_eq!(
        Board::surrounding_blocks(5, 6),
        [
            (4, 5),
            (4, 6),
            (4, 7),
            (6, 4),
            (5, 4),
            (5, 5),
            (5, 7),
            (5, 8),
            (6, 8),
            (6, 5),
            (6, 6),
            (6, 7)
        ]
    );
    assert_eq!(Board::surrounding_blocks(0, 0)[0], (-1, -1));
    assert_eq!(Board::surrounding_blocks(0, 0)[3], (-1, -2));
}

#[test]
fn index_in_range_filters_positions_off_the_board() {
    let board = Board::new(4, 5, 1);
    assert!(Board::is_index_in_range(&board, 0, 0));
    assert!(Board::is_index_in_range(&board, 3, 4));
    assert!(!Board::is_index_in_range(&board, -1, 0));
    assert!(!Board::is_index_in_range(&board, 0, -1));
    assert!(!Board::is_index_in_range(&board, 4, 0));
    assert!(!Board::is_index_in_range(&board, 0, 5));
}

#[test]
fn number_is_the_same_when_asked_twice() {
    let mut board = Board::new(10, 11, 10);
    board.open_block(4, 4);
    for y in 0..10 {
        for x in 0..11 {
            let first = board.block_display_number(y, x);
            let second = board.block_display_number(y, x);
            assert_eq!(first, second);
            assert_eq!(first.is_none(), board.block(y, x).has_mine);
        }
    }
}

#[test]
fn opening_a_numbered_cell_opens_only_that_cell() {
    let mut board = fixed_board(2, vec![3, 12]);
    board.open_block_at(1, 1, at(5));
    assert_eq!(board.status(), BoardStatus::Going(at(5)));
    assert_eq!(board.block_status(1, 1), BlockStatus::Open);
    assert_eq!(board.rest_count(), 15);
    assert_eq!(open_count(&board), 1);
    assert_eq!(board.snapshot_mine_pos_list(), Some(vec![3, 12]));
}

#[test]
fn flood_stops_at_cells_that_are_not_untouched() {
    let mut board = fixed_board(1, vec![15]);
    board.rotate_block_state(1, 3);
    board.rotate_block_state(1, 3);
    assert_eq!(board.block_status(1, 3), BlockStatus::MarkedQuestionable);
    board.open_block_at(0, 0, at(1));
    assert_eq!(board.block_status(1, 3), BlockStatus::MarkedQuestionable);
    assert_eq!(board.block_status(0, 3), BlockStatus::Open);
    assert_eq!(board.status(), BoardStatus::Going(at(1)));
    assert_eq!(board.rest_count(), 2);
}

#[test]
fn zero_floods_whatever_flags_there_are() {
    let mut board = fixed_board(1, vec![15]);
    board.rotate_block_state(0, 1);
    board.open_block_at(0, 0, at(1));
    assert_eq!(render(&board), ["0O 0M 0O 0O", "0O 0O 0O 0O", "0O 1O 1O 1O", "0O 1O 1O *N"]);
    assert_eq!(board.status(), BoardStatus::Going(at(1)));
    assert_eq!(board.rest_count(), 2);
    assert_eq!(board.cur_mark_count(), 1);

    let mut wide = wide_board();
    wide.rotate_block_state(3, 2);
    wide.open_block_at(2, 3, at(1));
    assert_eq!(
        render(&wide),
        [
            "*N 2N 2N 1N 0N 0N 0N 0N",
            "2N *N 1O 1O 1O 1N 1N 1N",
            "1O 1O 1O 0O 1O 2O *N 2N",
            "0O 0O 0M 0O 1O 2O *N 2N",
            "1O 1O 1O 1O 1O 1N 1N 1N",
            "1N *N 1N 1N 0N 0N 0N 0N",
        ]
    );
    assert_eq!(wide.rest_count(), 29);
    assert_eq!(wide.status(), BoardStatus::Going(at(1)));
}

#[test]
fn flooding_the_last_safe_cells_wins_and_flags_the_mines() {
    let mut board = fixed_board(1, vec![15]);
    board.open_block_at(0, 0, at(100));
    assert_eq!(board.status(), BoardStatus::Finished(at(100), at(100)));
    assert_eq!(board.rest_count(), 1);
    assert_eq!(board.cur_mark_count(), 1);
    assert_eq!(board.block_status(3, 3), BlockStatus::MarkedMine);
    assert_eq!(open_count(&board), 15);
    assert_eq!(board.display_value_mine_left(), 0);
}

#[test]
fn opening_a_mine_loses_the_game() {
    let mut board = fixed_board(2, vec![3, 12]);
    board.open_block_at(0, 3, at(7));
    assert_eq!(board.status(), BoardStatus::Died(at(7), at(7)));
    assert_eq!(board.block_status(0, 3), BlockStatus::Open);
    assert!(board.block(0, 3).has_mine);
    assert_eq!(board.rest_count(), 15);
    assert_eq!(board.block_display_kind((0, 3), None), BlockDisplayKind::ExplodedMine);
    assert_eq!(board.block_display_kind((3, 0), None), BlockDisplayKind::NotMarkedMine);
    let before = statuses(&board);
    board.open_block_at(0, 0, at(8));
    board.rotate_block_state(0, 0);
    assert_eq!(statuses(&board), before);
}

#[test]
fn flagged_cell_is_not_opened() {
    let mut board = fixed_board(2, vec![3, 12]);
    board.rotate_block_state(0, 3);
    board.open_block_at(0, 3, at(7));
    assert_eq!(board.status(), BoardStatus::Going(at(7)));
    assert_eq!(board.block_status(0, 3), BlockStatus::MarkedMine);
    assert_eq!(open_count(&board), 0);
}

#[test]
fn chord_with_wrong_flag_count_changes_nothing() {
    let mut board = fixed_board(2, vec![3, 12]);
    board.open_block_at(1, 1, at(5));
    let before = statuses(&board);
    board.blast_block_at(1, 1, at(6));
    assert_eq!(statuses(&board), before);
    assert_eq!(board.rest_count(), 15);
    assert_eq!(board.cur_mark_count(), 0);
    assert_eq!(board.status(), BoardStatus::Going(at(5)));
    board.rotate_block_state(0, 0);
    board.rotate_block_state(0, 1);
    let before = statuses(&board);
    board.blast_block_at(1, 1, at(6));
    assert_eq!(statuses(&board), before);
    assert_eq!(board.status(), BoardStatus::Going(at(5)));
    // A chord on a cell that is not open does nothing either.
    board.blast_block_at(2, 2, at(6));
    assert_eq!(statuses(&board), before);
}

#[test]
fn allocated_mines_are_different_cells_and_spare_the_excluded_one() {
    let board = Board::new(4, 4, 9);
    for _ in 0..100 {
        let list = board.allocate_mine_pos_list(Some((1, 2)));
        assert_eq!(list.len(), 9);
        let mut sorted = list.clone();
        sorted.sort();
        sorted.dedup();
        assert_eq!(sorted.len(), 9);
        assert!(list.iter().all(|i| *i < 16));
        assert!(!list.contains(&6));
    }
    let free = board.allocate_mine_pos_list(None);
    assert_eq!(free.len(), 9);
    let none = Board::new(4, 4, 0).allocate_mine_pos_list(Some((0, 0)));
    assert!(none.is_empty());
}

#[test]
fn snapshot_lists_the_mines_in_rising_order() {
    let mut board = fixed_board(3, vec![12, 3, 7]);
    assert_eq!(board.snapshot_mine_pos_list(), None);
    board.open_block_at(0, 0, at(1));
    assert_eq!(board.snapshot_mine_pos_list(), Some(vec![3, 7, 12]));
}

#[test]
fn renewed_board_keeps_size_goal_and_fixed_layout() {
    let mut board = fixed_board(2, vec![3, 12]);
    board.set_allow_marks(false);
    board.open_block_at(1, 1, at(5));
    let fresh = board.renew();
    assert_eq!(fresh.size(), (4, 4));
    assert_eq!(fresh.goal_mark_count(), 2);
    assert_eq!(fresh.status(), BoardStatus::Ready);
    assert_eq!(fresh.rest_count(), 16);
    assert_eq!(**fresh.fixed_mine_pos_list().unwrap(), vec![3, 12]);
    let plain = Board::new(4, 4, 2).renew();
    assert!(plain.fixed_mine_pos_list().is_none());
}

#[test]
fn fixed_layout_can_be_taken_away() {
    let mut board = fixed_board(2, vec![3, 12]);
    board.update_fixed_mine_pos_list(None);
    assert!(board.fixed_mine_pos_list().is_none());
    board.open_block(0, 3);
    assert!(!board.block(0, 3).has_mine);
}

#[test]
fn display_kind_follows_the_press() {
    let mut board = fixed_board(2, vec![3, 12]);
    assert_eq!(board.block_display_kind((1, 1), None), BlockDisplayKind::Normal);
    assert_eq!(
        board.block_display_kind((1, 1), Some((1, 1, false))),
        BlockDisplayKind::PushNormal
    );
    assert_eq!(board.block_display_kind((1, 1), Some((1, 2, false))), BlockDisplayKind::Normal);
    assert_eq!(board.block_display_kind((1, 1), Some((1, 3, true))), BlockDisplayKind::PushNormal);
    assert_eq!(board.block_display_kind((1, 1), Some((3, 3, true))), BlockDisplayKind::Normal);
    board.rotate_block_state(1, 1);
    assert_eq!(
        board.block_display_kind((1, 1), Some((1, 1, false))),
        BlockDisplayKind::MarkedMine
    );
    board.rotate_block_state(1, 1);
    assert_eq!(board.block_display_kind((1, 1), None), BlockDisplayKind::MarkedQuestionable);
    assert_eq!(
        board.block_display_kind((1, 1), Some((1, 1, false))),
        BlockDisplayKind::PushMarkedQuestionable
    );
    assert_eq!(
        board.block_display_kind((1, 1), Some((0, 0, true))),
        BlockDisplayKind::PushMarkedQuestionable
    );
    board.open_block_at(1, 1, at(1));
    assert_eq!(
        board.block_display_kind((1, 1), Some((1, 1, false))),
        BlockDisplayKind::OpenWithNumber(1)
    );
}

#[test]
fn display_kind_after_the_game() {
    let mut lost = fixed_board(2, vec![3, 12]);
    lost.rotate_block_state(0, 0);
    lost.rotate_block_state(3, 0);
    lost.rotate_block_state(2, 2);
    lost.rotate_block_state(2, 2);
    lost.open_block_at(1, 1, at(1));
    lost.open_block_at(0, 3, at(2));
    assert_eq!(lost.status(), BoardStatus::Died(at(1), at(2)));
    assert_eq!(lost.block_display_kind((0, 0), None), BlockDisplayKind::WrongMarkedMine);
    assert_eq!(lost.block_display_kind((3, 0), None), BlockDisplayKind::MarkedMine);
    assert_eq!(lost.block_display_kind((2, 2), None), BlockDisplayKind::MarkedQuestionable);
    assert_eq!(lost.block_display_kind((0, 3), None), BlockDisplayKind::ExplodedMine);
    assert_eq!(lost.block_display_kind((1, 1), None), BlockDisplayKind::OpenWithNumber(1));
    assert_eq!(
        lost.block_display_kind((0, 1), Some((0, 1, false))),
        BlockDisplayKind::Normal
    );
    assert_eq!(lost.game_button_display_kind(false, true), GameButtonDisplayKind::Died);

    let mut won = fixed_board(1, vec![15]);
    won.open_block_at(0, 0, at(1));
    assert_eq!(won.block_display_kind((3, 3), Some((3, 3, false))), BlockDisplayKind::MarkedMine);
    assert_eq!(won.block_display_kind((0, 0), None), BlockDisplayKind::OpenWithNumber(0));
    assert_eq!(won.game_button_display_kind(false, false), GameButtonDisplayKind::Finished);
    assert_eq!(won.game_button_display_kind(true, false), GameButtonDisplayKind::Pushed);
}

#[test]
fn question_mark_on_a_mine_shows_the_mine_when_the_game_is_lost() {
    let mut lost = fixed_board(2, vec![3, 12]);
    lost.rotate_block_state(3, 0);
    lost.rotate_block_state(3, 0);
    lost.open_block_at(0, 3, at(2));
    assert_eq!(lost.block_display_kind((3, 0), None), BlockDisplayKind::NotMarkedMine);
}

#[test]
fn button_shows_danger_while_the_pointer_is_captured() {
    let board = Board::new(10, 11, 10);
    assert_eq!(board.game_button_display_kind(false, false), GameButtonDisplayKind::Normal);
    assert_eq!(board.game_button_display_kind(false, true), GameButtonDisplayKind::Danger);
    assert_eq!(board.game_button_display_kind(true, true), GameButtonDisplayKind::Pushed);
}

#[test]
fn mine_panel_shows_goal_less_flags() {
    let mut board = Board::new(4, 4, 1);
    assert_eq!(board.display_value_mine_left(), 1);
    board.rotate_block_state(0, 0);
    board.rotate_block_state(0, 1);
    assert_eq!(board.display_value_mine_left(), -1);
}

#[test]
fn time_panel_shows_whole_seconds_up_to_999() {
    let mut board = fixed_board(2, vec![3, 12]);
    assert_eq!(board.display_value_time_at(at(500)), 0);
    board.open_block_at(1, 1, Timestamp { secs: 100, nanos: 900_000_000 });
    assert_eq!(board.display_value_time_at(Timestamp { secs: 101, nanos: 100_000_000 }), 0);
    assert_eq!(board.display_value_time_at(Timestamp { secs: 101, nanos: 900_000_000 }), 1);
    assert_eq!(board.display_value_time_at(Timestamp { secs: 106, nanos: 0 }), 5);
    assert_eq!(board.display_value_time_at(at(5000)), 999);
    assert_eq!(board.display_value_time_at(at(50)), 0);
    board.open_block_at(0, 3, at(130));
    assert_eq!(board.status(), BoardStatus::Died(Timestamp { secs: 100, nanos: 900_000_000 }, at(130)));
    assert_eq!(board.display_value_time_at(at(5000)), 29);
    assert_eq!(board.display_value_time(), 29);
}

#[test]
fn time_between_two_stamps() {
    let start = Timestamp { secs: -5, nanos: 500_000_000 };
    assert_eq!(start.seconds_until(&Timestamp { secs: -4, nanos: 499_999_999 }), 0);
    assert_eq!(start.seconds_until(&Timestamp { secs: -4, nanos: 500_000_000 }), 1);
    assert_eq!(start.seconds_until(&Timestamp { secs: 994, nanos: 0 }), 998);
    assert_eq!(start.seconds_until(&Timestamp { secs: 995, nanos: 0 }), 999);
    assert_eq!(start.seconds_until(&Timestamp { secs: i64::MAX, nanos: u32::MAX }), 999);
    assert_eq!(start.seconds_until(&Timestamp { secs: i64::MIN, nanos: 0 }), 0);
}

#[test]
fn default_block_is_untouched() {
    assert_eq!(BlockStatus::default(), BlockStatus::Normal);
    assert_eq!(
        Block::default(),
        Block { has_mine: false, cached_number: None, status: BlockStatus::Normal }
    );
}

#[test]
fn numbers_count_the_mines_among_the_twelve_neighbours() {
    let mut board = wide_board();
    board.open_block_at(4, 4, at(5));
    assert_eq!(
        render(&board),
        [
            "*N 2N 2N 1N 0N 0N 0N 0N",
            "2N *N 1N 1N 1N 1N 1N 1N",
            "1N 1N 1N 0N 1N 2N *N 2N",
            "0N 0N 0N 0N 1N 2N *N 2N",
            "1N 1N 1N 1N 1O 1N 1N 1N",
            "1N *N 1N 1N 0N 0N 0N 0N",
        ]
    );
    assert_eq!(board.block(4, 4).cached_number, Some(1));
    assert_eq!(board.block(2, 5).cached_number, Some(2));
    assert_eq!(board.block(0, 0).cached_number, None);
    assert_eq!(board.status(), BoardStatus::Going(at(5)));
    assert_eq!(board.rest_count(), 47);
}

#[test]
fn opening_a_zero_floods_the_region_and_its_border() {
    let mut board = wide_board();
    board.open_block_at(0, 7, at(5));
    assert_eq!(
        render(&board),
        [
            "*N 2N 2O 1O 0O 0O 0O 0O",
            "2N *N 1N 1O 1O 1O 1O 1O",
            "1N 1N 1N 0N 1N 2N *N 2N",
            "0N 0N 0N 0N 1N 2N *N 2N",
            "1N 1N 1N 1N 1N 1N 1N 1N",
            "1N *N 1N 1N 0N 0N 0N 0N",
        ]
    );
    assert_eq!(board.rest_count(), 37);
    assert_eq!(board.status(), BoardStatus::Going(at(5)));

    let mut other = wide_board();
    other.open_block_at(2, 3, at(5));
    assert_eq!(
        render(&other),
        [
            "*N 2N 2N 1N 0N 0N 0N 0N",
            "2N *N 1O 1O 1O 1N 1N 1N",
            "1O 1O 1O 0O 1O 2O *N 2N",
            "0O 0O 0O 0O 1O 2O *N 2N",
            "1O 1O 1O 1O 1O 1N 1N 1N",
            "1N *N 1N 1N 0N 0N 0N 0N",
        ]
    );
    assert_eq!(other.rest_count(), 28);
}

#[test]
fn opening_the_last_safe_cell_wins() {
    let mut board = wide_board();
    let steps = [
        ((0, 1), 47),
        ((0, 2), 46),
        ((0, 3), 45),
        ((0, 4), 36),
        ((1, 0), 35),
        ((1, 2), 34),
        ((2, 0), 33),
        ((2, 1), 32),
        ((2, 2), 31),
        ((2, 3), 17),
        ((2, 7), 16),
        ((3, 7), 15),
        ((4, 5), 14),
        ((4, 6), 13),
        ((4, 7), 12),
        ((5, 0), 11),
        ((5, 2), 10),
        ((5, 3), 9),
    ];
    for ((y, x), rest) in steps {
        board.open_block_at(y, x, at(6));
        assert_eq!(board.status(), BoardStatus::Going(at(6)));
        assert_eq!(board.rest_count(), rest);
        assert_eq!(board.cur_mark_count(), 0);
    }
    board.open_block_at(5, 4, at(9));
    assert_eq!(board.status(), BoardStatus::Finished(at(6), at(9)));
    assert_eq!(board.rest_count(), 5);
    assert_eq!(board.cur_mark_count(), 5);
    assert_eq!(
        render(&board),
        [
            "*M 2O 2O 1O 0O 0O 0O 0O",
            "2O *M 1O 1O 1O 1O 1O 1O",
            "1O 1O 1O 0O 1O 2O *M 2O",
            "0O 0O 0O 0O 1O 2O *M 2O",
            "1O 1O 1O 1O 1O 1O 1O 1O",
            "1O *M 1O 1O 0O 0O 0O 0O",
        ]
    );
    let before = statuses(&board);
    board.open_block_at(0, 0, at(10));
    board.blast_block_at(1, 3, at(10));
    assert_eq!(statuses(&board), before);
    assert_eq!(board.status(), BoardStatus::Finished(at(6), at(9)));
}

#[test]
fn chord_with_the_right_flag_opens_the_neighbours() {
    let mut board = wide_board();
    board.open_block_at(0, 7, at(5));
    board.rotate_block_state(1, 1);
    board.blast_block_at(1, 3, at(8));
    assert_eq!(
        render(&board),
        [
            "*N 2O 2O 1O 0O 0O 0O 0O",
            "2N *M 1O 1O 1O 1O 1O 1O",
            "1O 1O 1O 0O 1O 2O *N 2N",
            "0O 0O 0O 0O 1O 2O *N 2N",
            "1O 1O 1O 1O 1O 1N 1N 1N",
            "1N *N 1N 1N 0N 0N 0N 0N",
        ]
    );
    assert_eq!(board.status(), BoardStatus::Going(at(5)));
    assert_eq!(board.rest_count(), 18);
    assert_eq!(board.cur_mark_count(), 1);
}

#[test]
fn chord_taken_now_is_a_chord() {
    let mut board = wide_board();
    board.open_block_at(0, 7, at(5));
    board.rotate_block_state(1, 1);
    board.blast_block(1, 3);
    assert_eq!(board.rest_count(), 18);
    assert_eq!(board.status(), BoardStatus::Going(at(5)));
}

#[test]
fn chord_with_a_misplaced_flag_sets_off_the_mine() {
    let mut board = wide_board();
    board.open_block_at(0, 7, at(5));
    board.rotate_block_state(1, 2);
    board.blast_block_at(1, 3, at(8));
    assert_eq!(
        render(&board),
        [
            "*N 2O 2O 1O 0O 0O 0O 0O",
            "2N *O 1M 1O 1O 1O 1O 1O",
            "1O 1O 1O 0O 1O 2O *N 2N",
            "0O 0O 0O 0O 1O 2O *N 2N",
            "1O 1O 1O 1O 1O 1N 1N 1N",
            "1N *N 1N 1N 0N 0N 0N 0N",
        ]
    );
    assert_eq!(board.status(), BoardStatus::Died(at(5), at(8)));
    assert_eq!(board.rest_count(), 18);
    assert_eq!(board.block_display_kind((1, 1), None), BlockDisplayKind::ExplodedMine);
    assert_eq!(board.block_display_kind((1, 2), None), BlockDisplayKind::WrongMarkedMine);
    assert_eq!(board.block_display_kind((0, 0), None), BlockDisplayKind::NotMarkedMine);
    assert_eq!(board.rest_count() + open_count(&board), 48);
}

#[test]
fn chord_that_sets_off_a_mine_loses_even_when_as_many_cells_stay_closed_as_mines() {
    let mut board = fixed_board(2, vec![3, 12]);
    board.open_block_at(1, 1, at(5));
    board.rotate_block_state(0, 0);
    board.blast_block_at(1, 1, at(8));
    assert_eq!(board.status(), BoardStatus::Died(at(5), at(8)));
    assert_eq!(render(&board), ["0M 1O 1O *O", "0O 1O 1O 1O", "1O 1O 0O 0O", "*N 1O 1O 0O"]);
    assert_eq!(board.rest_count(), 2);
    assert_eq!(board.cur_mark_count(), 1);
    assert_eq!(board.block_display_kind((0, 3), None), BlockDisplayKind::ExplodedMine);
    assert_eq!(board.block_display_kind((0, 0), None), BlockDisplayKind::WrongMarkedMine);
    assert_eq!(board.block_display_kind((3, 0), None), BlockDisplayKind::NotMarkedMine);
}

#[test]
fn allocation_is_not_always_the_same() {
    let board = Board::new(10, 11, 10);
    let first = board.allocate_mine_pos_list(None);
    let differs = (0..20).any(|_| board.allocate_mine_pos_list(None) != first);
    assert!(differs);
}

#[test]
fn crowded_board_is_filled_whatever_is_drawn() {
    // Nine mines on sixteen cells with one cell excluded: draws are often
    // turned down, and the choice still ends with nine different cells.
    let board = Board::new(4, 4, 9);
    for y in 0..4 {
        for x in 0..4 {
            let list = board.allocate_mine_pos_list(Some((y, x)));
            assert_eq!(list.len(), 9);
            assert!(!list.contains(&(y * 4 + x)));
        }
    }
}
