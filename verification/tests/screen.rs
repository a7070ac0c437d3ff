use charlesmine::clock::Timestamp;
use charlesmine::model::{
    BlockDisplayKind, BlockShape, GameButtonDisplayKind, Model, ModelCommand,
};
use charlesmine::model_config::{AllowMarks, BoardSetting, ZoomRatio};
use charlesmine::model_gamemode::{BoardSaved, GameMode};
use charlesmine::view::{
    AlertFailure, GameTarget, LayoutData, LayoutState, LayoutZoom, MenuItem, View, ViewCommand,
    WindowRequest,
};
use charlesmine::view_assets::{
    BlockSpriteSheet, DigitSpriteSheet, GameButtonSpriteSheet, Point, Rect, ShapeMask, Size,
};
use std::rc::Rc;

/// A mask on which the upward triangle covers its whole square and the
/// downward one nothing, or the other way round.
fn mask(delta: bool) -> ShapeMask {
    ShapeMask::new(vec![delta; 480], vec![!delta; 480]).unwrap()
}

#[test]
fn layout_of_the_easy_board() {
    let layout = LayoutData::new((10, 11));
    assert_eq!(layout.block_area_dims, (10, 11));
    assert_eq!(layout.block_area_size, Size { cx: 154, cy: 200 });
    assert_eq!(layout.area_size, Size { cx: 178, cy: 272 });
    assert_eq!(layout.digit_pos_1, Point { x: 15, y: 15 });
    assert_eq!(layout.digit_pos_2, Point { x: 124, y: 15 });
    assert_eq!(layout.button_pos, Point { x: 77, y: 15 });
}

#[test]
fn rectangle_holds_its_left_and_top_edge_only() {
    let r = Rect { pos: Point { x: 10, y: 20 }, size: Size { cx: 5, cy: 6 } };
    assert!(r.contains(Point { x: 10, y: 20 }));
    assert!(r.contains(Point { x: 14, y: 25 }));
    assert!(!r.contains(Point { x: 15, y: 25 }));
    assert!(!r.contains(Point { x: 14, y: 26 }));
    assert!(!r.contains(Point { x: 9, y: 20 }));
    assert!(!r.contains(Point { x: isize::MIN, y: isize::MAX }));
}

#[test]
fn zoom_scales_sizes_and_points() {
    assert!(LayoutZoom::new_with_ratio(0).is_none());
    assert!(LayoutZoom::new_with_ratio(4).is_none());
    let two = LayoutZoom::new_with_ratio(2).unwrap();
    assert_eq!(two.ratio(), 2);
    assert_eq!(LayoutZoom::new().ratio(), 1);
    assert_eq!(LayoutZoom::from_ratio(ZoomRatio::Zoom3x).ratio(), 3);
    assert_eq!(two.zoom_size(Size { cx: 178, cy: 272 }), Size { cx: 356, cy: 544 });
    assert_eq!(two.unzoom_point(Point { x: 9, y: -9 }), Point { x: 4, y: -4 });
    let three = LayoutZoom::from_ratio(ZoomRatio::Zoom3x);
    assert_eq!(three.unzoom_point(Point { x: -1, y: 300 }), Point { x: 0, y: 100 });
    assert_eq!(
        three.unzoom_point(Point { x: isize::MIN, y: isize::MAX }),
        Point { x: isize::MIN / 3, y: isize::MAX / 3 }
    );
}

#[test]
fn hit_test_finds_button_cells_and_nothing() {
    let view = View::new(&Model::new());
    let up = mask(true);
    let down = mask(false);
    assert_eq!(view.hit_test(Point { x: 77, y: 15 }, &up), GameTarget::GameButton);
    assert_eq!(view.hit_test(Point { x: 100, y: 38 }, &up), GameTarget::GameButton);
    assert_eq!(view.hit_test(Point { x: 101, y: 38 }, &up), GameTarget::Other);
    assert_eq!(view.hit_test(Point { x: 0, y: 0 }, &up), GameTarget::Other);
    assert_eq!(view.hit_test(Point { x: -5, y: -5 }, &up), GameTarget::Other);
    assert_eq!(view.hit_test(Point { x: 11, y: 65 }, &down), GameTarget::Other);
    assert_eq!(view.hit_test(Point { x: 17, y: 59 }, &down), GameTarget::Other);
    assert_eq!(view.hit_test(Point { x: 17, y: 260 }, &down), GameTarget::Other);
    // The cell at (0, 0) points down, the one at (0, 1) up.
    assert_eq!(
        view.hit_test(Point { x: 17, y: 65 }, &down),
        GameTarget::FieldBlock { y: 0, x: 0 }
    );
    assert_eq!(view.hit_test(Point { x: 17, y: 65 }, &up), GameTarget::Other);
    assert_eq!(
        view.hit_test(Point { x: 32, y: 65 }, &down),
        GameTarget::FieldBlock { y: 0, x: 0 }
    );
    assert_eq!(view.hit_test(Point { x: 32, y: 65 }, &up), GameTarget::FieldBlock { y: 0, x: 1 });
    assert_eq!(view.hit_test(Point { x: 32, y: 85 }, &up), GameTarget::FieldBlock { y: 1, x: 0 });
    assert_eq!(
        view.hit_test(Point { x: 32, y: 85 }, &down),
        GameTarget::FieldBlock { y: 1, x: 1 }
    );
    // The last column ends at 12 + 10 * 13 + 24.
    assert_eq!(
        view.hit_test(Point { x: 165, y: 259 }, &up),
        GameTarget::FieldBlock { y: 9, x: 10 }
    );
    assert_eq!(view.hit_test(Point { x: 166, y: 259 }, &up), GameTarget::Other);
}

#[test]
fn hit_test_reads_the_mask_pixel_by_pixel() {
    let mut delta = vec![false; 480];
    delta[3 * 24 + 7] = true;
    let only = ShapeMask::new(delta, vec![false; 480]).unwrap();
    assert!(only.covers(BlockShape::DeltaLike, 3, 7));
    assert!(!only.covers(BlockShape::DeltaLike, 7, 3));
    assert!(!only.covers(BlockShape::RevDeltaLike, 3, 7));
    assert!(!only.covers(BlockShape::DeltaLike, 20, 7));
    assert!(BlockSpriteSheet::hit_test_shape(&only, BlockShape::DeltaLike, (3, 7)));
    assert!(ShapeMask::new(vec![true; 479], vec![true; 480]).is_none());
    let view = View::new(&Model::new());
    // The cell at (0, 1) begins at x = 25, y = 60.
    assert_eq!(
        view.hit_test(Point { x: 25 + 7, y: 60 + 3 }, &only),
        GameTarget::FieldBlock { y: 0, x: 1 }
    );
    assert_eq!(view.hit_test(Point { x: 25 + 8, y: 60 + 3 }, &only), GameTarget::Other);
}

#[test]
fn hit_test_undoes_the_magnification() {
    let mut view = View::new(&Model::new());
    view.update_zoom_ratio(ZoomRatio::Zoom2x);
    let down = mask(false);
    assert_eq!(view.hit_test(Point { x: 154, y: 30 }, &down), GameTarget::GameButton);
    assert_eq!(
        view.hit_test(Point { x: 35, y: 131 }, &down),
        GameTarget::FieldBlock { y: 0, x: 0 }
    );
    assert_eq!(view.window_size(), Size { cx: 356, cy: 544 });
}

#[test]
fn press_is_taken_off_only_by_its_own_release() {
    let mut view = View::new(&Model::new());
    assert_eq!(
        view.layout_state(),
        LayoutState { button_pressed: false, window_captured: false, block_pressed: None }
    );
    assert_eq!(LayoutState::new(), view.layout_state());
    view.set_block_pressed(2, 3, false);
    assert_eq!(view.layout_state().block_pressed, Some((2, 3, false)));
    view.unset_block_pressed(2, 3, true);
    assert_eq!(view.layout_state().block_pressed, Some((2, 3, false)));
    view.unset_block_pressed(2, 4, false);
    assert_eq!(view.layout_state().block_pressed, Some((2, 3, false)));
    view.unset_block_pressed(2, 3, false);
    assert_eq!(view.layout_state().block_pressed, None);
    view.set_button_pressed(true);
    view.set_window_captured(true);
    assert!(view.layout_state().button_pressed && view.layout_state().window_captured);
    view.regenerate_layout_data((15, 41));
    assert_eq!(view.layout_data().block_area_dims, (15, 41));
    assert_eq!(view.layout_data().area_size, Size { cx: 568, cy: 372 });
}

#[test]
fn scene_shows_every_cell_the_panels_and_the_button() {
    let mut model = Model::new();
    let file = BoardSaved { board_size: (4, 4), mine_pos: Rc::new(vec![3, 12]) }.export_to_file();
    model.process_command(ModelCommand::LoadMap(format!("a.cmm")), Some(file));
    model.process_command(ModelCommand::RotateBlockState(0, 0), None);
    let start = Timestamp { secs: 10, nanos: 0 };
    model.process_command_at(ModelCommand::OpenBlock(1, 1), None, start);
    let mut view = View::new(&model);
    assert_eq!(view.layout_data().block_area_dims, (4, 4));
    view.set_block_pressed(2, 2, false);
    let scene = view.draw_at(&model, Timestamp { secs: 17, nanos: 5 });
    assert_eq!(scene.mines_left, 1);
    assert_eq!(scene.seconds, 7);
    assert_eq!(scene.button, GameButtonDisplayKind::Normal);
    assert_eq!(scene.blocks.len(), 16);
    assert_eq!(scene.blocks[0], BlockDisplayKind::MarkedMine);
    assert_eq!(scene.blocks[5], BlockDisplayKind::OpenWithNumber(1));
    assert_eq!(scene.blocks[10], BlockDisplayKind::PushNormal);
    assert_eq!(scene.blocks[3], BlockDisplayKind::Normal);
    assert_eq!(scene.blocks.iter().filter(|k| **k == BlockDisplayKind::Normal).count(), 13);
    view.set_window_captured(true);
    let scene = view.draw(&model);
    assert_eq!(scene.button, GameButtonDisplayKind::Danger);
    assert_eq!(scene.seconds, 999);
}

fn asked(view: &mut View, command: ViewCommand, model: &Model) -> Vec<WindowRequest> {
    view.process_command(command, model).requests
}

#[test]
fn view_turns_commands_into_requests() {
    let model = Model::new();
    let mut view = View::new(&Model::new());
    assert_eq!(asked(&mut view, ViewCommand::Refresh, &model), [WindowRequest::Invalidate]);
    assert_eq!(
        asked(&mut view, ViewCommand::AlertFailure(AlertFailure::FileIOError), &model),
        [WindowRequest::Alert(AlertFailure::FileIOError)]
    );
    assert_eq!(asked(&mut view, ViewCommand::SetCapture, &model), [WindowRequest::Capture]);
    assert!(view.layout_state().window_captured);
    assert_eq!(asked(&mut view, ViewCommand::ReleaseCapture, &model), [WindowRequest::Release]);
    assert!(!view.layout_state().window_captured);
    assert!(asked(&mut view, ViewCommand::SetButtonPressed(true), &model).is_empty());
    assert!(view.layout_state().button_pressed);
    assert!(asked(&mut view, ViewCommand::SetBlockPressed(1, 2, true), &model).is_empty());
    assert_eq!(view.layout_state().block_pressed, Some((1, 2, true)));
    assert!(asked(&mut view, ViewCommand::UnsetBlockPressed(1, 2, true), &model).is_empty());
    assert_eq!(view.layout_state().block_pressed, None);
    assert_eq!(
        asked(&mut view, ViewCommand::UpdateUIAllowMarks(AllowMarks(false)), &model),
        [WindowRequest::Check(MenuItem::Mark, false)]
    );
    assert_eq!(
        asked(&mut view, ViewCommand::UpdateUIZoomRatio(ZoomRatio::Zoom2x), &model),
        [
            WindowRequest::Check(MenuItem::Zoom1x, false),
            WindowRequest::Check(MenuItem::Zoom2x, true),
            WindowRequest::Check(MenuItem::Zoom3x, false),
        ]
    );
    assert_eq!(
        asked(&mut view, ViewCommand::UpdateZoomRatio(ZoomRatio::Zoom3x), &model),
        [WindowRequest::AdjustLayout, WindowRequest::Invalidate]
    );
    assert_eq!(view.window_size(), Size { cx: 534, cy: 816 });
    assert_eq!(
        asked(&mut view, ViewCommand::UpdateUIBoardSetting(BoardSetting::normal()), &model),
        [
            WindowRequest::Check(MenuItem::GameEasy, false),
            WindowRequest::Check(MenuItem::GameMedium, true),
            WindowRequest::Check(MenuItem::GameHard, false),
            WindowRequest::Check(MenuItem::GameCustom, false),
            WindowRequest::AdjustLayout,
        ]
    );
    assert_eq!(view.layout_data().block_area_dims, (15, 21));
    assert_eq!(
        asked(&mut view, ViewCommand::UpdateUIGameMode(GameMode::Normal), &model),
        [
            WindowRequest::Enable(MenuItem::LoadMap, true),
            WindowRequest::Enable(MenuItem::SaveMap, true),
            WindowRequest::Enable(MenuItem::Restart, true),
            WindowRequest::Enable(MenuItem::RecordPlay, true),
            WindowRequest::Enable(MenuItem::RecordRecord, true),
            WindowRequest::Enable(MenuItem::RecordStop, false),
        ]
    );
    let recording = GameMode::GameRecording(Timestamp { secs: 0, nanos: 0 });
    let requests = asked(&mut view, ViewCommand::UpdateUIGameMode(recording), &model);
    assert_eq!(requests[0], WindowRequest::Enable(MenuItem::LoadMap, false));
    assert_eq!(requests[5], WindowRequest::Enable(MenuItem::RecordStop, true));
}

#[test]
fn view_shows_the_settings_at_the_start() {
    let mut model = Model::new();
    model.process_command(ModelCommand::ToggleAllowMarks, None);
    let mut view = View::new(&Model::new());
    let reply = view.process_command(ViewCommand::Initialize, &model);
    assert!(reply.requests.is_empty());
    let told: Vec<String> = reply.follow_up.iter().map(|c| format!("{:?}", c)).collect();
    assert_eq!(
        told,
        [
            "UpdateUIAllowMarks(AllowMarks(false))",
            "UpdateUIZoomRatio(Zoom1x)",
            "UpdateUIBoardSetting(BoardSetting { x: 11, y: 10, c: 10, k: Easy })",
            "UpdateUIGameMode(Normal)",
        ]
    );
}

#[test]
fn sprites_of_the_panels() {
    assert_eq!(DigitSpriteSheet::sprite_index_neg(), 0);
    assert_eq!(DigitSpriteSheet::sprite_index_digit(0), 11);
    assert_eq!(DigitSpriteSheet::sprite_index_digit(9), 2);
    assert_eq!(DigitSpriteSheet::sprite_indices(123), [10, 9, 8]);
    assert_eq!(DigitSpriteSheet::sprite_indices(0), [11, 11, 11]);
    assert_eq!(DigitSpriteSheet::sprite_indices(-5), [0, 11, 6]);
    assert_eq!(DigitSpriteSheet::sprite_indices(-45), [0, 7, 6]);
    assert_eq!(DigitSpriteSheet::sprite_indices(999), [2, 2, 2]);
    assert_eq!(DigitSpriteSheet::sprite_indices(1234), [9, 8, 7]);
    assert_eq!(
        DigitSpriteSheet::sprite_coord(3),
        (Point { x: 0, y: 69 }, Size { cx: 13, cy: 23 })
    );
}

#[test]
fn sprites_of_the_button_and_the_cells() {
    assert_eq!(GameButtonSpriteSheet::sprite_index(GameButtonDisplayKind::Normal), 4);
    assert_eq!(GameButtonSpriteSheet::sprite_index(GameButtonDisplayKind::Pushed), 0);
    assert_eq!(GameButtonSpriteSheet::sprite_index(GameButtonDisplayKind::Danger), 3);
    assert_eq!(GameButtonSpriteSheet::sprite_index(GameButtonDisplayKind::Finished), 1);
    assert_eq!(GameButtonSpriteSheet::sprite_index(GameButtonDisplayKind::Died), 2);
    assert_eq!(
        GameButtonSpriteSheet::sprite_coord(2),
        (Point { x: 0, y: 48 }, Size { cx: 24, cy: 24 })
    );
    let d = BlockShape::DeltaLike;
    let r = BlockShape::RevDeltaLike;
    assert_eq!(BlockSpriteSheet::sprite_index(d, BlockDisplayKind::Normal), 0);
    assert_eq!(BlockSpriteSheet::sprite_index(r, BlockDisplayKind::Normal), 1);
    assert_eq!(BlockSpriteSheet::sprite_index(d, BlockDisplayKind::MarkedMine), 2);
    assert_eq!(BlockSpriteSheet::sprite_index(r, BlockDisplayKind::MarkedQuestionable), 5);
    assert_eq!(BlockSpriteSheet::sprite_index(d, BlockDisplayKind::ExplodedMine), 6);
    assert_eq!(BlockSpriteSheet::sprite_index(d, BlockDisplayKind::WrongMarkedMine), 8);
    assert_eq!(BlockSpriteSheet::sprite_index(d, BlockDisplayKind::NotMarkedMine), 10);
    assert_eq!(BlockSpriteSheet::sprite_index(d, BlockDisplayKind::PushMarkedQuestionable), 12);
    assert_eq!(BlockSpriteSheet::sprite_index(r, BlockDisplayKind::OpenWithNumber(3)), 33);
    assert_eq!(BlockSpriteSheet::sprite_index(d, BlockDisplayKind::OpenWithNumber(12)), 14);
    assert_eq!(BlockSpriteSheet::sprite_index(d, BlockDisplayKind::OpenWithNumber(0)), 38);
    assert_eq!(BlockSpriteSheet::sprite_index(r, BlockDisplayKind::PushNormal), 39);
    assert_eq!(
        BlockSpriteSheet::sprite_coord(33),
        (Point { x: 24, y: 320 }, Size { cx: 24, cy: 20 })
    );
    assert_eq!(BlockSpriteSheet::calc_block_area_size((10, 11)), Size { cx: 154, cy: 200 });
    assert_eq!(BlockSpriteSheet::calc_block_area_size((1, 1)), Size { cx: 24, cy: 20 });
    assert_eq!(
        BlockSpriteSheet::calc_block_pos(Point { x: 12, y: 60 }, (2, 3)),
        Point { x: 51, y: 100 }
    );
}
