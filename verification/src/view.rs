//! What the session tells the view, and where the pointer is.

use crate::clock::Timestamp;
use crate::lemmas::lemma_index_bounds;
use crate::model::{BlockDisplayKind, Board, GameButtonDisplayKind, Model, ModelState};
use crate::model_config::{AllowMarks, BoardSetting, BoardSettingKind, ZoomRatio};
use crate::model_gamemode::{GameMode, ModeModel};
use crate::rules::{shape_at, tally, Tally};
use crate::view_assets::{BlockSpriteSheet, Point, Rect, ShapeMask, Size};
use vstd::prelude::*;
use vstd::view::View as _;

verus! {

/// A failure that the user is told of.
#[derive(Copy, Clone, PartialEq, Eq, Debug, Structural)]
pub enum AlertFailure {
    FileIOError,
}

/// Which side of its rectangle a border is drawn on.
#[derive(Copy, Clone, PartialEq, Eq, Debug, Structural)]
pub enum BorderPosition {
    Inner,
    Outer,
}

/// What lies under the pointer.
#[derive(Copy, Clone, PartialEq, Eq, Debug, Structural)]
pub enum GameTarget {
    GameButton,
    FieldBlock { y: usize, x: usize },
    Other,
}

/// What the session asks of the view.
#[derive(Debug)]
pub enum ViewCommand {
    Initialize,
    UpdateZoomRatio(ZoomRatio),
    UpdateUIBoardSetting(BoardSetting),
    UpdateUIAllowMarks(AllowMarks),
    UpdateUIZoomRatio(ZoomRatio),
    UpdateUIGameMode(GameMode),
    SetButtonPressed(bool),
    SetBlockPressed(usize, usize, bool),
    UnsetBlockPressed(usize, usize, bool),
    AlertFailure(AlertFailure),
    Refresh,
    SetCapture,
    ReleaseCapture,
}

/// A command to the view as the contracts see it: the game mode by its
/// model, every other command as it is.
pub enum Notice {
    GameMode(ModeModel),
    Plain(ViewCommand),
}

impl vstd::view::View for ViewCommand {
    type V = Notice;

    open spec fn view(&self) -> Notice {
        match self {
            ViewCommand::UpdateUIGameMode(mode) => Notice::GameMode(mode@),
            _ => Notice::Plain(*self),
        }
    }
}

/// The commands of `list`, each as the contracts see it.
pub open spec fn notices(list: Seq<ViewCommand>) -> Seq<Notice> {
    list.map_values(|c: ViewCommand| c@)
}

/// Space left of the mine panel.
pub const DIGITEDGE_LEFT: usize = 15;

/// Space right of the time panel.
pub const DIGITEDGE_RIGHT: usize = 15;

/// Space above the panels.
pub const DIGITEDGE_TOP: usize = 15;

/// Space above the new-game button.
pub const BUTTONEDGE_TOP: usize = 15;

/// Left edge of the field.
pub const BLOCK_AREA_X: usize = 12;

/// Top edge of the field: below the panels and the banner under them.
pub const BLOCK_AREA_Y: usize = 60;

/// Space right of and below the field.
pub const BLOCK_AREA_EDGE: usize = 12;

/// Where the parts of the window lie, for a field of given dimensions.
#[derive(Copy, Clone, PartialEq, Eq, Debug)]
pub struct LayoutData {
    pub block_area_dims: (usize, usize),
    pub area_size: Size,
    pub block_area_size: Size,
    pub digit_pos_1: Point,
    pub digit_pos_2: Point,
    pub button_pos: Point,
}

impl LayoutData {
    /// The layout of a field of `dims` rows and columns.
    pub open spec fn of(dims: (usize, usize)) -> LayoutData {
        let width = (24 + (dims.1 - 1) * 13) as usize;
        let height = (20 + (dims.0 - 1) * 20) as usize;
        LayoutData {
            block_area_dims: dims,
            area_size: Size { cx: (12 + width + 12) as usize, cy: (60 + height + 12) as usize },
            block_area_size: Size { cx: width, cy: height },
            digit_pos_1: Point { x: 15, y: 15 },
            digit_pos_2: Point { x: (12 + width + 12 - 15 - 39) as isize, y: 15 },
            button_pos: Point { x: ((12 + width + 12 - 24) / 2) as isize, y: 15 },
        }
    }

    /// Whether a window can be laid out around a field of `dims` rows and
    /// columns: the field can be laid out and is wide enough for the two
    /// panels to stand side by side.
    pub open spec fn displayable(dims: (usize, usize)) -> bool {
        BlockSpriteSheet::drawable(dims) && dims.1 >= 2
    }

    /// Whether a window can be laid out around a field of `dims` rows and
    /// columns.
    pub fn is_displayable(dims: (usize, usize)) -> (r: bool)
        ensures
            r == Self::displayable(dims),
    {
        BlockSpriteSheet::is_drawable(dims) && dims.1 >= 2
    }

    /// Lays the window out around a field of `block_area_dims` rows and
    /// columns: the field with its margins, the mine panel at the top left,
    /// the time panel at the top right and the button midway between.
    pub fn new(block_area_dims: (usize, usize)) -> (layout: Self)
        requires
            Self::displayable(block_area_dims),
        ensures
            layout == Self::of(block_area_dims),
    {
        let block_area_size = BlockSpriteSheet::calc_block_area_size(block_area_dims);
        let area_size = Size {
            cx: BLOCK_AREA_X + block_area_size.cx + BLOCK_AREA_EDGE,
            cy: BLOCK_AREA_Y + block_area_size.cy + BLOCK_AREA_EDGE,
        };
        let digit_pos_1 = Point { x: DIGITEDGE_LEFT as isize, y: DIGITEDGE_TOP as isize };
        let digit_pos_2 = Point {
            x: (area_size.cx - DIGITEDGE_RIGHT - 39) as isize,
            y: DIGITEDGE_TOP as isize,
        };
        let button_pos = Point {
            x: ((area_size.cx - 24) / 2) as isize,
            y: BUTTONEDGE_TOP as isize,
        };
        LayoutData {
            block_area_dims,
            area_size,
            block_area_size,
            digit_pos_1,
            digit_pos_2,
            button_pos,
        }
    }
}

/// What is pressed at the moment.
#[derive(Copy, Clone, PartialEq, Eq, Debug)]
pub struct LayoutState {
    pub button_pressed: bool,
    pub window_captured: bool,
    pub block_pressed: Option<(usize, usize, bool)>,
}

impl LayoutState {
    /// Nothing pressed.
    pub fn new() -> (state: Self)
        ensures
            state == (LayoutState {
                button_pressed: false,
                window_captured: false,
                block_pressed: None,
            }),
    {
        LayoutState { button_pressed: false, window_captured: false, block_pressed: None }
    }
}

/// The magnification of the drawing: 1, 2 or 3.
#[derive(Copy, Clone, PartialEq, Eq, Debug)]
pub struct LayoutZoom {
    ratio: usize,
}

/// `a` divided by `d`, rounded towards zero.
pub open spec fn toward_zero(a: int, d: int) -> int {
    if a >= 0 {
        a / d
    } else {
        -((-a) / d)
    }
}

impl LayoutZoom {
    #[verifier::type_invariant]
    spec fn positive(&self) -> bool {
        1 <= self.ratio <= 3
    }

    /// The magnification.
    pub closed spec fn spec_ratio(&self) -> int {
        self.ratio as int
    }

    /// No magnification.
    pub fn new() -> (zoom: Self)
        ensures
            zoom.spec_ratio() == 1,
    {
        LayoutZoom { ratio: 1 }
    }

    /// The magnification `v`, or nothing where `v` is not 1, 2 or 3.
    pub fn new_with_ratio(v: usize) -> (zoom: Option<Self>)
        ensures
            match zoom {
                Some(z) => 1 <= v <= 3 && z.spec_ratio() == v,
                None => !(1 <= v <= 3),
            },
    {
        if 1 <= v && v <= 3 {
            Some(LayoutZoom { ratio: v })
        } else {
            None
        }
    }

    /// The magnification that a setting names.
    pub fn from_ratio(r: ZoomRatio) -> (zoom: Self)
        ensures
            zoom.spec_ratio() == match r {
                ZoomRatio::Zoom1x => 1int,
                ZoomRatio::Zoom2x => 2int,
                ZoomRatio::Zoom3x => 3int,
            },
    {
        match r {
            ZoomRatio::Zoom1x => LayoutZoom { ratio: 1 },
            ZoomRatio::Zoom2x => LayoutZoom { ratio: 2 },
            ZoomRatio::Zoom3x => LayoutZoom { ratio: 3 },
        }
    }

    /// The magnification.
    pub fn ratio(&self) -> (v: usize)
        ensures
            v == self.spec_ratio(),
            1 <= v <= 3,
    {
        proof {
            use_type_invariant(self);
        }
        self.ratio
    }

    /// The size on the screen of what has the size `size` unmagnified.
    pub fn zoom_size(&self, size: Size) -> (zoomed: Size)
        requires
            size.cx * 3 <= usize::MAX,
            size.cy * 3 <= usize::MAX,
        ensures
            zoomed.cx == size.cx * self.spec_ratio(),
            zoomed.cy == size.cy * self.spec_ratio(),
    {
        let v = self.ratio();
        assert(size.cx * v <= size.cx * 3 && size.cy * v <= size.cy * 3) by (nonlinear_arith)
            requires
                v <= 3,
        ;
        Size { cx: size.cx * v, cy: size.cy * v }
    }

    /// The unmagnified position of the position `point` on the screen:
    /// each coordinate divided by the magnification and rounded towards
    /// zero.
    pub fn unzoom_point(&self, point: Point) -> (unzoomed: Point)
        ensures
            unzoomed.x == toward_zero(point.x as int, self.spec_ratio()),
            unzoomed.y == toward_zero(point.y as int, self.spec_ratio()),
    {
        let v = self.ratio();
        Point { x: divide_toward_zero(point.x, v), y: divide_toward_zero(point.y, v) }
    }
}

/// Divides `a` by `d`, rounding towards zero.
fn divide_toward_zero(a: isize, d: usize) -> (q: isize)
    requires
        1 <= d <= isize::MAX,
    ensures
        q == toward_zero(a as int, d as int),
{
    if a >= 0 {
        ((a as usize) / d) as isize
    } else {
        let size: usize = (-(a as i128)) as usize;
        let part: usize = size / d;
        assert(part <= size) by (nonlinear_arith)
            requires
                part == size / d,
                d >= 1,
        ;
        (-(part as i128)) as isize
    }
}

/// Divides `a` by `d`, rounding down.
fn floor_div(a: isize, d: usize) -> (q: isize)
    requires
        1 <= d <= isize::MAX,
    ensures
        q == a as int / d as int,
{
    if a >= 0 {
        ((a as usize) / d) as isize
    } else {
        let below: usize = (-(a as i128) - 1) as usize;
        let part: usize = below / d;
        proof {
            let k = part as int;
            let m = (below % d) as int;
            vstd::arithmetic::div_mod::lemma_fundamental_div_mod(below as int, d as int);
            assert(d * k == k * d) by (nonlinear_arith);
            assert((-k - 1) * d == -(k * d) - d) by (nonlinear_arith);
            assert(a as int == (-k - 1) * d + (d - m - 1));
            vstd::arithmetic::div_mod::lemma_fundamental_div_mod_converse(
                a as int,
                d as int,
                -k - 1,
                d - m - 1,
            );
            assert(part <= below) by (nonlinear_arith)
                requires
                    part == below / d,
                    d >= 1,
            ;
        }
        (-(part as i128) - 1) as isize
    }
}

/// The view: where things lie, what is pressed, and how much is magnified.
pub struct View {
    layout_data: LayoutData,
    layout_state: LayoutState,
    layout_zoom: LayoutZoom,
}

/// What is to be drawn: the two panels, the button and every cell, the
/// rows one after another.
pub struct Scene {
    pub mines_left: isize,
    pub seconds: isize,
    pub button: GameButtonDisplayKind,
    pub blocks: Vec<BlockDisplayKind>,
}

/// The pressed cell as the rules read it.
pub open spec fn focus_of(pressed: Option<(usize, usize, bool)>) -> Option<(int, int, bool)> {
    match pressed {
        Some(f) => Some((f.0 as int, f.1 as int, f.2)),
        None => None,
    }
}

/// The cell that the unmagnified pixel `(px, py)` lies on, looked for in
/// row `y` from column `x` to column `x_max`: the first whose triangle
/// covers the pixel.
pub open spec fn scan(
    mask: ShapeMask,
    cols: int,
    px: int,
    py: int,
    y: int,
    x: int,
    x_max: int,
) -> GameTarget
    decreases x_max - x + 1,
{
    if x > x_max {
        GameTarget::Other
    } else if 0 <= x < cols && px - 12 - 13 * x < 24 && mask.spec_covers(
        shape_at(y, x),
        py - 60 - 20 * y,
        px - 12 - 13 * x,
    ) {
        GameTarget::FieldBlock { y: y as usize, x: x as usize }
    } else {
        scan(mask, cols, px, py, y, x + 1, x_max)
    }
}

/// What lies at the unmagnified pixel `p` of a window laid out as
/// `layout`: the button, else the cell, among the two or three whose
/// squares hold the pixel, whose triangle covers it, else nothing.
pub open spec fn target_at(layout: LayoutData, mask: ShapeMask, p: Point) -> GameTarget {
    let button = Rect { pos: layout.button_pos, size: Size { cx: 24, cy: 24 } };
    if button.spec_contains(p) {
        GameTarget::GameButton
    } else {
        let y = (p.y - 60) / 20;
        if 0 <= y < layout.block_area_dims.0 {
            scan(
                mask,
                layout.block_area_dims.1 as int,
                p.x as int,
                p.y as int,
                y,
                (p.x - 12 - 23) / 13,
                (p.x - 12) / 13,
            )
        } else {
            GameTarget::Other
        }
    }
}

impl View {
    pub closed spec fn layout(&self) -> LayoutData {
        self.layout_data
    }

    /// The invariant of a view: the window is laid out around a field that
    /// can be displayed.
    pub open spec fn wf(&self) -> bool {
        &&& LayoutData::displayable(self.layout().block_area_dims)
        &&& self.layout() == LayoutData::of(self.layout().block_area_dims)
    }

    /// Whether `command` can be given to the view: a board setting names a
    /// field that can be displayed.
    pub open spec fn command_fits(command: ViewCommand) -> bool {
        command matches ViewCommand::UpdateUIBoardSetting(v) ==> LayoutData::displayable(
            (v.y, v.x),
        )
    }

    /// Whether `command` can be given to the view.
    pub fn accepts(command: &ViewCommand) -> (r: bool)
        ensures
            r == Self::command_fits(*command),
    {
        match command {
            ViewCommand::UpdateUIBoardSetting(v) => LayoutData::is_displayable((v.y, v.x)),
            _ => true,
        }
    }

    pub closed spec fn state(&self) -> LayoutState {
        self.layout_state
    }

    pub closed spec fn zoom(&self) -> LayoutZoom {
        self.layout_zoom
    }

    /// A view of the board of `model`, with nothing pressed and no
    /// magnification.
    pub fn new(model: &Model) -> (view: Self)
        requires
            model.wf(),
            LayoutData::displayable((model@.board.rows as usize, model@.board.cols as usize)),
        ensures
            view.wf(),
            view.layout() == LayoutData::of(
                (model@.board.rows as usize, model@.board.cols as usize),
            ),
            view.state() == (LayoutState {
                button_pressed: false,
                window_captured: false,
                block_pressed: None,
            }),
            view.zoom().spec_ratio() == 1,
    {
        let dims = model.board().size();
        View {
            layout_data: LayoutData::new(dims),
            layout_state: LayoutState::new(),
            layout_zoom: LayoutZoom::new(),
        }
    }

    pub fn layout_data(&self) -> (layout: LayoutData)
        ensures
            layout == self.layout(),
    {
        self.layout_data
    }

    pub fn layout_state(&self) -> (state: LayoutState)
        ensures
            state == self.state(),
    {
        self.layout_state
    }

    pub fn layout_zoom(&self) -> (zoom: LayoutZoom)
        ensures
            zoom == self.zoom(),
    {
        self.layout_zoom
    }

    pub fn update_zoom_ratio(&mut self, ratio: ZoomRatio)
        ensures
            final(self).layout() == old(self).layout(),
            final(self).state() == old(self).state(),
            final(self).zoom().spec_ratio() == match ratio {
                ZoomRatio::Zoom1x => 1int,
                ZoomRatio::Zoom2x => 2int,
                ZoomRatio::Zoom3x => 3int,
            },
    {
        self.layout_zoom = LayoutZoom::from_ratio(ratio);
    }

    /// Lays the window out anew for a field of `dims` rows and columns.
    pub fn regenerate_layout_data(&mut self, dims: (usize, usize))
        requires
            LayoutData::displayable(dims),
        ensures
            final(self).layout() == LayoutData::of(dims),
            final(self).state() == old(self).state(),
            final(self).zoom() == old(self).zoom(),
    {
        self.layout_data = LayoutData::new(dims);
    }

    /// The size of the window on the screen.
    pub fn window_size(&self) -> (size: Size)
        requires
            self.wf(),
        ensures
            size.cx == self.layout().area_size.cx * self.zoom().spec_ratio(),
            size.cy == self.layout().area_size.cy * self.zoom().spec_ratio(),
    {
        self.layout_zoom.zoom_size(self.layout_data.area_size)
    }

    pub fn set_button_pressed(&mut self, pressed: bool)
        ensures
            final(self).layout() == old(self).layout(),
            final(self).zoom() == old(self).zoom(),
            final(self).state() == (LayoutState { button_pressed: pressed, ..old(self).state() }),
    {
        self.layout_state.button_pressed = pressed;
    }

    pub fn set_window_captured(&mut self, window_captured: bool)
        ensures
            final(self).layout() == old(self).layout(),
            final(self).zoom() == old(self).zoom(),
            final(self).state() == (LayoutState { window_captured, ..old(self).state() }),
    {
        self.layout_state.window_captured = window_captured;
    }

    /// Marks the cell `(y, x)` as pressed, as a chord where `blast` says
    /// so.
    pub fn set_block_pressed(&mut self, y: usize, x: usize, blast: bool)
        ensures
            final(self).layout() == old(self).layout(),
            final(self).zoom() == old(self).zoom(),
            final(self).state() == (LayoutState {
                block_pressed: Some((y, x, blast)),
                ..old(self).state()
            }),
    {
        self.layout_state.block_pressed = Some((y, x, blast));
    }

    /// Takes the press off the cell `(y, x)`, unless another press has
    /// taken its place since.
    pub fn unset_block_pressed(&mut self, y: usize, x: usize, blast: bool)
        ensures
            final(self).layout() == old(self).layout(),
            final(self).zoom() == old(self).zoom(),
            final(self).state() == (LayoutState {
                block_pressed: if old(self).state().block_pressed == Some((y, x, blast)) {
                    None
                } else {
                    old(self).state().block_pressed
                },
                ..old(self).state()
            }),
    {
        let same = match self.layout_state.block_pressed {
            Some((py, px, pblast)) => py == y && px == x && pblast == blast,
            None => false,
        };
        if same {
            self.layout_state.block_pressed = None;
        }
    }

    /// What lies under the pixel `point` of the window.
    pub fn hit_test(&self, point: Point, mask: &ShapeMask) -> (target: GameTarget)
        requires
            self.wf(),
        ensures
            target == target_at(
                self.layout(),
                *mask,
                Point {
                    x: toward_zero(point.x as int, self.zoom().spec_ratio()) as isize,
                    y: toward_zero(point.y as int, self.zoom().spec_ratio()) as isize,
                },
            ),
    {
        let p = self.layout_zoom.unzoom_point(point);
        let button_rect = Rect { pos: self.layout_data.button_pos, size: Size { cx: 24, cy: 24 } };
        if button_rect.contains(p) {
            return GameTarget::GameButton;
        }
        let rows = self.layout_data.block_area_dims.0;
        let cols = self.layout_data.block_area_dims.1;
        let py: i128 = p.y as i128;
        let px: i128 = p.x as i128;
        if py < 60 || py >= 60 + 20 * (rows as i128) {
            return GameTarget::Other;
        }
        let y_idx: usize = ((py - 60) as usize) / 20;
        if px < 12 {
            assert((p.x - 12) / 13 < 0);
            assert(scan(
                *mask,
                cols as int,
                p.x as int,
                p.y as int,
                y_idx as int,
                (p.x - 12 - 23) / 13,
                (p.x - 12) / 13,
            ) == GameTarget::Other) by {
                lemma_scan_off_field(
                    *mask,
                    cols as int,
                    p.x as int,
                    p.y as int,
                    y_idx as int,
                    (p.x - 12 - 23) / 13,
                    (p.x - 12) / 13,
                );
            }
            return GameTarget::Other;
        }
        let x_idx_max: usize = ((px - 12) as usize) / 13;
        let x_idx_min: usize = if px >= 35 {
            ((px - 35) as usize) / 13
        } else {
            0
        };
        proof {
            if px < 35 {
                lemma_scan_skip_left(
                    *mask,
                    cols as int,
                    p.x as int,
                    p.y as int,
                    y_idx as int,
                    (p.x - 12 - 23) / 13,
                    (p.x - 12) / 13,
                );
            }
        }
        let mut x_idx: usize = x_idx_min;
        while x_idx <= x_idx_max
            invariant
                x_idx_min <= x_idx <= x_idx_max + 1,
                p.x == toward_zero(point.x as int, self.zoom().spec_ratio()),
                p.y == toward_zero(point.y as int, self.zoom().spec_ratio()),
                x_idx_max == (p.x - 12) / 13,
                p.x >= 12,
                px == p.x,
                py == p.y,
                y_idx == (p.y - 60) / 20,
                0 <= y_idx < rows,
                rows == self.layout().block_area_dims.0,
                cols == self.layout().block_area_dims.1,
                BlockSpriteSheet::drawable(self.layout().block_area_dims),
                scan(
                    *mask,
                    cols as int,
                    p.x as int,
                    p.y as int,
                    y_idx as int,
                    x_idx as int,
                    x_idx_max as int,
                ) == target_at(self.layout(), *mask, p),
            decreases x_idx_max + 1 - x_idx,
        {
            if x_idx < cols {
                let x_offset: usize = (px - 12 - 13 * (x_idx as i128)) as usize;
                let y_offset: usize = (py - 60 - 20 * (y_idx as i128)) as usize;
                if x_offset < 24 && BlockSpriteSheet::hit_test_shape(
                    mask,
                    Board::block_shape(y_idx, x_idx),
                    (y_offset, x_offset),
                ) {
                    return GameTarget::FieldBlock { y: y_idx, x: x_idx };
                }
            }
            x_idx += 1;
        }
        GameTarget::Other
    }

    /// What is to be drawn of the board of `model` at the time `now`.
    pub fn draw_at(&self, model: &Model, now: Timestamp) -> (scene: Scene)
        requires
            model.wf(),
        ensures
            scene.mines_left == model@.board.goal - tally(model@.board.cells, Tally::Marked),
            scene.seconds == model@.board.shown_seconds(now),
            scene.button == model@.board.button_kind(
                self.state().button_pressed,
                self.state().window_captured,
            ),
            scene.blocks@.len() == model@.board.rows * model@.board.cols,
            forall|y: int, x: int|
                model@.board.in_range(y, x) ==> scene.blocks@[#[trigger] model@.board.index(y, x)]
                    == model@.board.display_kind(y, x, focus_of(self.state().block_pressed)),
            forall|i: int|
                0 <= i < scene.blocks@.len() ==> (#[trigger] scene.blocks@[i]
                    matches BlockDisplayKind::OpenWithNumber(n) ==> n <= 12),
    {
        let board = model.board();
        proof {
            board.lemma_wf_model();
        }
        let (rows, cols) = board.size();
        let mut blocks: Vec<BlockDisplayKind> = Vec::new();
        let mut y: usize = 0;
        while y < rows
            invariant
                y <= rows,
                rows == board@.rows,
                cols == board@.cols,
                board.wf(),
                board@.wf(),
                blocks@.len() == y * cols,
                forall|i: int|
                    0 <= i < blocks@.len() ==> (#[trigger] blocks@[i]
                        matches BlockDisplayKind::OpenWithNumber(n) ==> n <= 12),
                forall|cy: int, cx: int|
                    0 <= cy < y && 0 <= cx < cols ==> blocks@[#[trigger] board@.index(cy, cx)]
                        == board@.display_kind(cy, cx, focus_of(self.state().block_pressed)),
            decreases rows - y,
        {
            let mut x: usize = 0;
            while x < cols
                invariant
                    y < rows,
                    x <= cols,
                    rows == board@.rows,
                    cols == board@.cols,
                    board.wf(),
                    board@.wf(),
                    blocks@.len() == y * cols + x,
                    forall|i: int|
                        0 <= i < blocks@.len() ==> (#[trigger] blocks@[i]
                            matches BlockDisplayKind::OpenWithNumber(n) ==> n <= 12),
                    forall|cy: int, cx: int|
                        (0 <= cy < y && 0 <= cx < cols) || (cy == y && 0 <= cx < x) ==> blocks@[
                        #[trigger] board@.index(cy, cx)] == board@.display_kind(
                            cy,
                            cx,
                            focus_of(self.state().block_pressed),
                        ),
                decreases cols - x,
            {
                let kind = board.block_display_kind((y, x), self.layout_state.block_pressed);
                let ghost before = blocks@;
                blocks.push(kind);
                proof {
                    assert forall|cy: int, cx: int|
                        (0 <= cy < y && 0 <= cx < cols) || (cy == y && 0 <= cx < x + 1) implies blocks@[
                    #[trigger] board@.index(cy, cx)] == board@.display_kind(
                        cy,
                        cx,
                        focus_of(self.state().block_pressed),
                    ) by {
                        lemma_index_bounds(rows as int, cols as int, cy, cx);
                        if cy < y {
                            assert(cy * cols + cols <= y * cols) by (nonlinear_arith)
                                requires
                                    cy + 1 <= y,
                                    0 <= cols,
                            ;
                            assert(blocks@[board@.index(cy, cx)] == before[board@.index(cy, cx)]);
                        } else if cx < x {
                            assert(blocks@[board@.index(cy, cx)] == before[board@.index(cy, cx)]);
                        }
                    }
                }
                x += 1;
            }
            proof {
                assert(y * cols + cols == (y + 1) * cols) by (nonlinear_arith);
            }
            y += 1;
        }
        Scene {
            mines_left: board.display_value_mine_left(),
            seconds: board.display_value_time_at(now),
            button: board.game_button_display_kind(
                self.layout_state.button_pressed,
                self.layout_state.window_captured,
            ),
            blocks,
        }
    }

    /// What is to be drawn of the board of `model` now.
    pub fn draw(&self, model: &Model) -> (scene: Scene)
        requires
            model.wf(),
        ensures
            exists|now: Timestamp| scene.seconds == model@.board.shown_seconds(now),
            scene.mines_left == model@.board.goal - tally(model@.board.cells, Tally::Marked),
            scene.button == model@.board.button_kind(
                self.state().button_pressed,
                self.state().window_captured,
            ),
            scene.blocks@.len() == model@.board.rows * model@.board.cols,
            forall|y: int, x: int|
                model@.board.in_range(y, x) ==> scene.blocks@[#[trigger] model@.board.index(y, x)]
                    == model@.board.display_kind(y, x, focus_of(self.state().block_pressed)),
            forall|i: int|
                0 <= i < scene.blocks@.len() ==> (#[trigger] scene.blocks@[i]
                    matches BlockDisplayKind::OpenWithNumber(n) ==> n <= 12),
    {
        let now = Timestamp::now();
        self.draw_at(model, now)
    }
}

/// An entry of the menu.
#[derive(Copy, Clone, PartialEq, Eq, Debug, Structural)]
pub enum MenuItem {
    GameEasy,
    GameMedium,
    GameHard,
    GameCustom,
    Mark,
    Zoom1x,
    Zoom2x,
    Zoom3x,
    LoadMap,
    SaveMap,
    Restart,
    RecordPlay,
    RecordRecord,
    RecordStop,
}

/// What the view asks of the window.
#[derive(Copy, Clone, PartialEq, Eq, Debug, Structural)]
pub enum WindowRequest {
    /// Tick the menu entry, or take the tick away.
    Check(MenuItem, bool),
    /// Make the menu entry available, or not.
    Enable(MenuItem, bool),
    /// Give the window the size that the layout and the magnification ask
    /// for.
    AdjustLayout,
    /// Draw the window anew.
    Invalidate,
    /// Tell the user of a failure.
    Alert(AlertFailure),
    /// Capture the pointer.
    Capture,
    /// Let the pointer go.
    Release,
}

/// What the view answers to a command: commands that it gives itself in
/// turn, and what it asks of the window.
pub struct ViewReply {
    pub follow_up: Vec<ViewCommand>,
    pub requests: Vec<WindowRequest>,
}

/// What the view asks of the window on `command`.
pub open spec fn requests_for(command: ViewCommand) -> Seq<WindowRequest> {
    match command {
        ViewCommand::Initialize => seq![],
        ViewCommand::UpdateZoomRatio(_) => seq![
            WindowRequest::AdjustLayout,
            WindowRequest::Invalidate,
        ],
        ViewCommand::UpdateUIBoardSetting(v) => seq![
            WindowRequest::Check(MenuItem::GameEasy, v.k == BoardSettingKind::Easy),
            WindowRequest::Check(MenuItem::GameMedium, v.k == BoardSettingKind::Normal),
            WindowRequest::Check(MenuItem::GameHard, v.k == BoardSettingKind::Hard),
            WindowRequest::Check(MenuItem::GameCustom, v.k == BoardSettingKind::Custom),
            WindowRequest::AdjustLayout,
        ],
        ViewCommand::UpdateUIAllowMarks(v) => seq![WindowRequest::Check(MenuItem::Mark, v.0)],
        ViewCommand::UpdateUIZoomRatio(v) => seq![
            WindowRequest::Check(MenuItem::Zoom1x, v == ZoomRatio::Zoom1x),
            WindowRequest::Check(MenuItem::Zoom2x, v == ZoomRatio::Zoom2x),
            WindowRequest::Check(MenuItem::Zoom3x, v == ZoomRatio::Zoom3x),
        ],
        ViewCommand::UpdateUIGameMode(mode) => {
            let plain = mode@ is Normal || mode@ is Predefined;
            seq![
                WindowRequest::Enable(MenuItem::LoadMap, plain),
                WindowRequest::Enable(MenuItem::SaveMap, plain),
                WindowRequest::Enable(MenuItem::Restart, plain),
                WindowRequest::Enable(MenuItem::RecordPlay, plain),
                WindowRequest::Enable(MenuItem::RecordRecord, plain),
                WindowRequest::Enable(MenuItem::RecordStop, !plain),
            ]
        },
        ViewCommand::AlertFailure(f) => seq![WindowRequest::Alert(f)],
        ViewCommand::Refresh => seq![WindowRequest::Invalidate],
        ViewCommand::SetCapture => seq![WindowRequest::Capture],
        ViewCommand::ReleaseCapture => seq![WindowRequest::Release],
        _ => seq![],
    }
}

/// What is pressed after `command`.
pub open spec fn pressed_after(state: LayoutState, command: ViewCommand) -> LayoutState {
    match command {
        ViewCommand::SetButtonPressed(v) => LayoutState { button_pressed: v, ..state },
        ViewCommand::SetBlockPressed(y, x, blast) => LayoutState {
            block_pressed: Some((y, x, blast)),
            ..state
        },
        ViewCommand::UnsetBlockPressed(y, x, blast) => LayoutState {
            block_pressed: if state.block_pressed == Some((y, x, blast)) {
                None
            } else {
                state.block_pressed
            },
            ..state
        },
        ViewCommand::SetCapture => LayoutState { window_captured: true, ..state },
        ViewCommand::ReleaseCapture => LayoutState { window_captured: false, ..state },
        _ => state,
    }
}

/// The commands that the view gives itself at the start, to show the
/// settings and the mode of the session.
pub open spec fn start_up(model: ModelState) -> Seq<Notice> {
    seq![
        Notice::Plain(ViewCommand::UpdateUIAllowMarks(model.config.allow_marks)),
        Notice::Plain(ViewCommand::UpdateUIZoomRatio(model.config.zoom_ratio)),
        Notice::Plain(ViewCommand::UpdateUIBoardSetting(model.config.board_setting)),
        Notice::GameMode(model.mode),
    ]
}

impl View {
    /// Carries out `command`: takes note of what is pressed, lays the
    /// window out anew where the board or the magnification changes, and
    /// says what is asked of the window.
    pub fn process_command(&mut self, command: ViewCommand, model: &Model) -> (reply: ViewReply)
        requires
            old(self).wf(),
            Self::command_fits(command),
        ensures
            final(self).wf(),
            reply.requests@ == requests_for(command),
            notices(reply.follow_up@) == (if command is Initialize {
                start_up(model@)
            } else {
                Seq::<Notice>::empty()
            }),
            final(self).state() == pressed_after(old(self).state(), command),
            final(self).layout() == (match command {
                ViewCommand::UpdateUIBoardSetting(v) => LayoutData::of((v.y, v.x)),
                _ => old(self).layout(),
            }),
            match command {
                ViewCommand::UpdateZoomRatio(v) => final(self).zoom().spec_ratio() == match v {
                    ZoomRatio::Zoom1x => 1int,
                    ZoomRatio::Zoom2x => 2int,
                    ZoomRatio::Zoom3x => 3int,
                },
                _ => final(self).zoom() == old(self).zoom(),
            },
    {
        let mut follow_up: Vec<ViewCommand> = Vec::new();
        let mut requests: Vec<WindowRequest> = Vec::new();
        match command {
            ViewCommand::Initialize => {
                let config = model.config();
                follow_up.push(ViewCommand::UpdateUIAllowMarks(config.allow_marks));
                follow_up.push(ViewCommand::UpdateUIZoomRatio(config.zoom_ratio));
                follow_up.push(ViewCommand::UpdateUIBoardSetting(config.board_setting));
                follow_up.push(ViewCommand::UpdateUIGameMode(model.game_mode()));
            },
            ViewCommand::UpdateZoomRatio(v) => {
                self.update_zoom_ratio(v);
                requests.push(WindowRequest::AdjustLayout);
                requests.push(WindowRequest::Invalidate);
            },
            ViewCommand::UpdateUIBoardSetting(v) => {
                requests.push(WindowRequest::Check(MenuItem::GameEasy, v.k == BoardSettingKind::Easy));
                requests.push(
                    WindowRequest::Check(MenuItem::GameMedium, v.k == BoardSettingKind::Normal),
                );
                requests.push(WindowRequest::Check(MenuItem::GameHard, v.k == BoardSettingKind::Hard));
                requests.push(
                    WindowRequest::Check(MenuItem::GameCustom, v.k == BoardSettingKind::Custom),
                );
                self.regenerate_layout_data((v.y, v.x));
                requests.push(WindowRequest::AdjustLayout);
            },
            ViewCommand::UpdateUIAllowMarks(v) => {
                requests.push(WindowRequest::Check(MenuItem::Mark, v.0));
            },
            ViewCommand::UpdateUIZoomRatio(v) => {
                requests.push(WindowRequest::Check(MenuItem::Zoom1x, v == ZoomRatio::Zoom1x));
                requests.push(WindowRequest::Check(MenuItem::Zoom2x, v == ZoomRatio::Zoom2x));
                requests.push(WindowRequest::Check(MenuItem::Zoom3x, v == ZoomRatio::Zoom3x));
            },
            ViewCommand::UpdateUIGameMode(v) => {
                let plain = v.is_normal() || v.is_predefined();
                requests.push(WindowRequest::Enable(MenuItem::LoadMap, plain));
                requests.push(WindowRequest::Enable(MenuItem::SaveMap, plain));
                requests.push(WindowRequest::Enable(MenuItem::Restart, plain));
                requests.push(WindowRequest::Enable(MenuItem::RecordPlay, plain));
                requests.push(WindowRequest::Enable(MenuItem::RecordRecord, plain));
                requests.push(WindowRequest::Enable(MenuItem::RecordStop, !plain));
            },
            ViewCommand::AlertFailure(f) => {
                requests.push(WindowRequest::Alert(f));
            },
            ViewCommand::SetButtonPressed(v) => {
                self.set_button_pressed(v);
            },
            ViewCommand::SetBlockPressed(y, x, blast) => {
                self.set_block_pressed(y, x, blast);
            },
            ViewCommand::UnsetBlockPressed(y, x, blast) => {
                self.unset_block_pressed(y, x, blast);
            },
            ViewCommand::Refresh => {
                requests.push(WindowRequest::Invalidate);
            },
            ViewCommand::SetCapture => {
                self.set_window_captured(true);
                requests.push(WindowRequest::Capture);
            },
            ViewCommand::ReleaseCapture => {
                self.set_window_captured(false);
                requests.push(WindowRequest::Release);
            },
        }
        proof {
            assert(requests@ =~= requests_for(command));
            if command is Initialize {
                assert(notices(follow_up@) =~= start_up(model@));
            } else {
                assert(notices(follow_up@) =~= Seq::<Notice>::empty());
            }
        }
        ViewReply { follow_up, requests }
    }
}

/// A scan that ends left of the field finds nothing.
proof fn lemma_scan_off_field(
    mask: ShapeMask,
    cols: int,
    px: int,
    py: int,
    y: int,
    x: int,
    x_max: int,
)
    requires
        x_max < 0,
    ensures
        scan(mask, cols, px, py, y, x, x_max) == GameTarget::Other,
    decreases x_max - x + 1,
{
    if x <= x_max {
        lemma_scan_off_field(mask, cols, px, py, y, x + 1, x_max);
    }
}

/// A scan may leave out the columns left of the field.
proof fn lemma_scan_skip_left(
    mask: ShapeMask,
    cols: int,
    px: int,
    py: int,
    y: int,
    x: int,
    x_max: int,
)
    requires
        x <= 0 <= x_max + 1,
    ensures
        scan(mask, cols, px, py, y, x, x_max) == scan(mask, cols, px, py, y, 0, x_max),
    decreases -x,
{
    if x < 0 {
        lemma_scan_skip_left(mask, cols, px, py, y, x + 1, x_max);
    }
}

} // verus!
