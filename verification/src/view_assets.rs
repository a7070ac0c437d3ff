//! Where each picture lies on its sprite sheet, how the cells are laid out
//! on the screen, and which pixels of a cell's square its triangle covers.

use crate::model::{BlockDisplayKind, BlockShape, GameButtonDisplayKind};
use vstd::prelude::*;

verus! {

/// A position on the screen or on a sprite sheet, in pixels.
#[derive(Copy, Clone, PartialEq, Eq, Debug, Structural)]
pub struct Point {
    pub x: isize,
    pub y: isize,
}

/// A width and a height, in pixels.
#[derive(Copy, Clone, PartialEq, Eq, Debug, Structural)]
pub struct Size {
    pub cx: usize,
    pub cy: usize,
}

/// A rectangle: its top left corner and its size.
#[derive(Copy, Clone, PartialEq, Eq, Debug, Structural)]
pub struct Rect {
    pub pos: Point,
    pub size: Size,
}

impl Rect {
    /// Whether `p` lies inside: the left and top edges count, the right and
    /// bottom edges do not.
    pub open spec fn spec_contains(self, p: Point) -> bool {
        &&& self.pos.x <= p.x < self.pos.x + self.size.cx
        &&& self.pos.y <= p.y < self.pos.y + self.size.cy
    }

    #[verifier::when_used_as_spec(spec_contains)]
    pub fn contains(self, p: Point) -> (r: bool)
        ensures
            r == self.spec_contains(p),
    {
        let dx: i128 = p.x as i128 - self.pos.x as i128;
        let dy: i128 = p.y as i128 - self.pos.y as i128;
        0 <= dx && dx < self.size.cx as i128 && 0 <= dy && dy < self.size.cy as i128
    }
}

/// Width of a digit of the panels.
pub const DIGIT_WIDTH: usize = 13;

/// Height of a digit of the panels.
pub const DIGIT_HEIGHT: usize = 23;

/// Width of the new-game button.
pub const BUTTON_WIDTH: usize = 24;

/// Height of the new-game button.
pub const BUTTON_HEIGHT: usize = 24;

/// Width of the square that holds a cell's triangle.
pub const BLOCKSIZE_X: usize = 24;

/// Height of the square that holds a cell's triangle.
pub const BLOCKSIZE_Y: usize = 20;

/// Distance from one cell to the next in its row: less than the width of a
/// cell, so that the squares of neighbours overlap.
pub const BLOCKDELTA_X: usize = 13;

/// Distance from one row to the next.
pub const BLOCKDELTA_Y: usize = 20;

/// The sheet of the digits of the panels, one below the other.
pub struct DigitSpriteSheet;

impl DigitSpriteSheet {
    /// The sprite of the minus sign.
    pub fn sprite_index_neg() -> (idx: usize)
        ensures
            idx == 0,
    {
        0
    }

    /// The sprite of the digit `v`.
    pub fn sprite_index_digit(v: usize) -> (idx: usize)
        requires
            v <= 9,
        ensures
            idx == 11 - v,
    {
        11 - v
    }

    /// Where the sprite `sprite_idx` lies on the sheet.
    pub fn sprite_coord(sprite_idx: usize) -> (at: (Point, Size))
        requires
            sprite_idx * 23 <= isize::MAX,
        ensures
            at.0 == (Point { x: 0, y: (sprite_idx * 23) as isize }),
            at.1 == (Size { cx: 13, cy: 23 }),
    {
        (
            Point { x: 0, y: (sprite_idx * DIGIT_HEIGHT) as isize },
            Size { cx: DIGIT_WIDTH, cy: DIGIT_HEIGHT },
        )
    }

    /// The three sprites that show `value`: its hundreds, tens and ones,
    /// with a minus sign in place of the hundreds where it is negative.
    pub fn sprite_indices(value: isize) -> (sprites: [usize; 3])
        requires
            value > isize::MIN,
        ensures
            forall|i: int| 0 <= i < 3 ==> #[trigger] sprites@[i] == panel_sprites(value as int)[i],
    {
        let value_abs: usize = if value < 0 {
            (-value) as usize
        } else {
            value as usize
        };
        let first = if value < 0 {
            Self::sprite_index_neg()
        } else {
            Self::sprite_index_digit((value_abs % 1000) / 100)
        };
        let sprites = [
            first,
            Self::sprite_index_digit((value_abs % 100) / 10),
            Self::sprite_index_digit(value_abs % 10),
        ];
        sprites
    }
}

/// The sprites of a panel that shows `value`.
pub open spec fn panel_sprites(value: int) -> Seq<int> {
    let size = if value < 0 {
        -value
    } else {
        value
    };
    seq![
        if value < 0 {
            0
        } else {
            11 - (size % 1000) / 100
        },
        11 - (size % 100) / 10,
        11 - size % 10,
    ]
}

/// The sheet of the faces of the new-game button, one below the other.
pub struct GameButtonSpriteSheet;

impl GameButtonSpriteSheet {
    pub open spec fn spec_sprite_index(state: GameButtonDisplayKind) -> usize {
        match state {
            GameButtonDisplayKind::Normal => 4,
            GameButtonDisplayKind::Pushed => 0,
            GameButtonDisplayKind::Danger => 3,
            GameButtonDisplayKind::Finished => 1,
            GameButtonDisplayKind::Died => 2,
        }
    }

    /// The sprite of the face `state`.
    #[verifier::when_used_as_spec(spec_sprite_index)]
    pub fn sprite_index(state: GameButtonDisplayKind) -> (idx: usize)
        ensures
            idx == Self::spec_sprite_index(state),
    {
        match state {
            GameButtonDisplayKind::Normal => 4,
            GameButtonDisplayKind::Pushed => 0,
            GameButtonDisplayKind::Danger => 3,
            GameButtonDisplayKind::Finished => 1,
            GameButtonDisplayKind::Died => 2,
        }
    }

    /// Where the sprite `sprite_idx` lies on the sheet.
    pub fn sprite_coord(sprite_idx: usize) -> (at: (Point, Size))
        requires
            sprite_idx * 24 <= isize::MAX,
        ensures
            at.0 == (Point { x: 0, y: (sprite_idx * 24) as isize }),
            at.1 == (Size { cx: 24, cy: 24 }),
    {
        (
            Point { x: 0, y: (sprite_idx * BUTTON_HEIGHT) as isize },
            Size { cx: BUTTON_WIDTH, cy: BUTTON_HEIGHT },
        )
    }
}

/// Which pixels of a cell's square its triangle covers, for either
/// orientation: 20 rows of 24 pixels each, row after row.
pub struct ShapeMask {
    delta: Vec<bool>,
    rev_delta: Vec<bool>,
}

/// Number of pixels in a cell's square.
pub const MASK_LEN: usize = 480;

impl ShapeMask {
    /// Both orientations have all their pixels.
    #[verifier::type_invariant]
    spec fn complete(&self) -> bool {
        self.delta@.len() == 480 && self.rev_delta@.len() == 480
    }

    /// The pixels of the triangle of orientation `shape`.
    pub closed spec fn pixels(&self, shape: BlockShape) -> Seq<bool> {
        match shape {
            BlockShape::DeltaLike => self.delta@,
            BlockShape::RevDeltaLike => self.rev_delta@,
        }
    }

    /// Whether the triangle of orientation `shape` covers the pixel in row
    /// `y`, column `x` of its square. Outside the square nothing is covered.
    pub open spec fn spec_covers(&self, shape: BlockShape, y: int, x: int) -> bool {
        0 <= y < 20 && 0 <= x < 24 && self.pixels(shape)[y * 24 + x]
    }

    /// A mask from the pixels of the two orientations, or nothing where
    /// either has not 480 pixels.
    pub fn new(delta: Vec<bool>, rev_delta: Vec<bool>) -> (mask: Option<ShapeMask>)
        ensures
            match mask {
                Some(m) => delta@.len() == 480 && rev_delta@.len() == 480 && m.pixels(
                    BlockShape::DeltaLike,
                ) == delta@ && m.pixels(BlockShape::RevDeltaLike) == rev_delta@,
                None => delta@.len() != 480 || rev_delta@.len() != 480,
            },
    {
        if delta.len() == MASK_LEN && rev_delta.len() == MASK_LEN {
            Some(ShapeMask { delta, rev_delta })
        } else {
            None
        }
    }

    pub fn covers(&self, shape: BlockShape, y: usize, x: usize) -> (r: bool)
        ensures
            r == self.spec_covers(shape, y as int, x as int),
    {
        proof {
            use_type_invariant(self);
        }
        if y < BLOCKSIZE_Y && x < BLOCKSIZE_X {
            match shape {
                BlockShape::DeltaLike => self.delta[y * BLOCKSIZE_X + x],
                BlockShape::RevDeltaLike => self.rev_delta[y * BLOCKSIZE_X + x],
            }
        } else {
            false
        }
    }
}

/// The sheet of the faces of a cell: two columns, one for either
/// orientation, and a row for each face.
pub struct BlockSpriteSheet;

impl BlockSpriteSheet {
    /// Whether a field of `board_size` rows and columns can be laid out:
    /// it has a cell, and its pixels can be counted in `isize` even at the
    /// largest magnification.
    pub open spec fn drawable(board_size: (usize, usize)) -> bool {
        &&& 1 <= board_size.0
        &&& 1 <= board_size.1
        &&& 60 * board_size.0 + 300 <= isize::MAX
        &&& 39 * board_size.1 + 300 <= isize::MAX
    }

    /// Whether a field of `board_size` rows and columns can be laid out.
    pub fn is_drawable(board_size: (usize, usize)) -> (r: bool)
        ensures
            r == Self::drawable(board_size),
    {
        let limit: usize = isize::MAX as usize;
        1 <= board_size.0 && 1 <= board_size.1 && board_size.0 <= (limit - 300) / 60
            && board_size.1 <= (limit - 300) / 39
    }

    /// The size of a field of `board_size` rows and columns.
    pub fn calc_block_area_size(board_size: (usize, usize)) -> (size: Size)
        requires
            Self::drawable(board_size),
        ensures
            size.cx == 24 + (board_size.1 - 1) * 13,
            size.cy == 20 + (board_size.0 - 1) * 20,
    {
        Size {
            cx: BLOCKSIZE_X + (board_size.1 - 1) * BLOCKDELTA_X,
            cy: BLOCKSIZE_Y + (board_size.0 - 1) * BLOCKDELTA_Y,
        }
    }

    /// Whether the triangle of orientation `shape` covers the pixel at
    /// `pos`, row first, of its square.
    pub fn hit_test_shape(mask: &ShapeMask, shape: BlockShape, pos: (usize, usize)) -> (r: bool)
        ensures
            r == mask.spec_covers(shape, pos.0 as int, pos.1 as int),
    {
        mask.covers(shape, pos.0, pos.1)
    }

    /// Where the square of the cell `board_item`, row first, lies when the
    /// field begins at `minefield_pos`.
    pub fn calc_block_pos(minefield_pos: Point, board_item: (usize, usize)) -> (pos: Point)
        requires
            minefield_pos.x + board_item.1 * 13 <= isize::MAX,
            minefield_pos.y + board_item.0 * 20 <= isize::MAX,
            board_item.1 * 13 <= isize::MAX,
            board_item.0 * 20 <= isize::MAX,
        ensures
            pos.x == minefield_pos.x + board_item.1 * 13,
            pos.y == minefield_pos.y + board_item.0 * 20,
    {
        Point {
            x: minefield_pos.x + (board_item.1 * BLOCKDELTA_X) as isize,
            y: minefield_pos.y + (board_item.0 * BLOCKDELTA_Y) as isize,
        }
    }

    /// The row of the face `kind` on the sheet.
    pub open spec fn face_row(kind: BlockDisplayKind) -> int {
        match kind {
            BlockDisplayKind::Normal => 0,
            BlockDisplayKind::MarkedMine => 1,
            BlockDisplayKind::MarkedQuestionable => 2,
            BlockDisplayKind::ExplodedMine => 3,
            BlockDisplayKind::WrongMarkedMine => 4,
            BlockDisplayKind::NotMarkedMine => 5,
            BlockDisplayKind::PushMarkedQuestionable => 6,
            BlockDisplayKind::OpenWithNumber(n) => 19 - n,
            BlockDisplayKind::PushNormal => 19,
        }
    }

    /// The sprite of the face `block_display_kind` for a triangle of
    /// orientation `block_shape`. A number above 12 has no face.
    pub fn sprite_index(block_shape: BlockShape, block_display_kind: BlockDisplayKind) -> (idx:
        usize)
        requires
            block_display_kind matches BlockDisplayKind::OpenWithNumber(n) ==> n <= 12,
        ensures
            idx == Self::face_row(block_display_kind) * 2 + (if block_shape
                == BlockShape::RevDeltaLike {
                1int
            } else {
                0int
            }),
    {
        let block_kind: usize = match block_display_kind {
            BlockDisplayKind::Normal => 0,
            BlockDisplayKind::MarkedMine => 1,
            BlockDisplayKind::MarkedQuestionable => 2,
            BlockDisplayKind::ExplodedMine => 3,
            BlockDisplayKind::WrongMarkedMine => 4,
            BlockDisplayKind::NotMarkedMine => 5,
            BlockDisplayKind::PushMarkedQuestionable => 6,
            BlockDisplayKind::OpenWithNumber(n) => 19 - n as usize,
            BlockDisplayKind::PushNormal => 19,
        };
        let block_shape_offset: usize = match block_shape {
            BlockShape::DeltaLike => 0,
            BlockShape::RevDeltaLike => 1,
        };
        block_kind * 2 + block_shape_offset
    }

    /// Where the sprite `sprite_idx` lies on the sheet.
    pub fn sprite_coord(sprite_idx: usize) -> (at: (Point, Size))
        requires
            sprite_idx * 10 <= isize::MAX,
        ensures
            at.0.x == (sprite_idx % 2) * 24,
            at.0.y == (sprite_idx / 2) * 20,
            at.1 == (Size { cx: 24, cy: 20 }),
    {
        (
            Point {
                x: ((sprite_idx % 2) * BLOCKSIZE_X) as isize,
                y: ((sprite_idx / 2) * BLOCKSIZE_Y) as isize,
            },
            Size { cx: BLOCKSIZE_X, cy: BLOCKSIZE_Y },
        )
    }
}

} // verus!
