//! Settings of a game: board dimensions, mark behaviour and zoom.

use vstd::prelude::*;

verus! {

/// Which preset, if any, a board setting came from.
#[derive(Copy, Clone, PartialEq, Eq, Debug, Structural)]
pub enum BoardSettingKind {
    Easy,
    Normal,
    Hard,
    Custom,
}

/// Width `x`, height `y` and mine count `c` of a board.
#[derive(Copy, Clone, PartialEq, Eq, Debug, Structural)]
pub struct BoardSetting {
    pub x: usize,
    pub y: usize,
    pub c: usize,
    pub k: BoardSettingKind,
}

/// `v` limited to the closed range from `low` to `high`.
pub open spec fn clamp_to(v: int, low: int, high: int) -> int {
    if v < low {
        low
    } else if v > high {
        high
    } else {
        v
    }
}

impl BoardSetting {
    /// The easy preset: 11 wide, 10 high, 10 mines.
    pub open spec fn spec_easy() -> BoardSetting {
        BoardSetting { x: 11, y: 10, c: 10, k: BoardSettingKind::Easy }
    }

    /// The normal preset: 21 wide, 15 high, 50 mines.
    pub open spec fn spec_normal() -> BoardSetting {
        BoardSetting { x: 21, y: 15, c: 50, k: BoardSettingKind::Normal }
    }

    /// The hard preset: 41 wide, 15 high, 99 mines.
    pub open spec fn spec_hard() -> BoardSetting {
        BoardSetting { x: 41, y: 15, c: 99, k: BoardSettingKind::Hard }
    }

    #[verifier::when_used_as_spec(spec_easy)]
    pub fn easy() -> (s: BoardSetting)
        ensures
            s == Self::spec_easy(),
            s.playable(),
    {
        let s = BoardSetting { x: 11, y: 10, c: 10, k: BoardSettingKind::Easy };
        assert(s.x * s.y == 110 && (s.x - 1) * (s.y - 1) == 90) by (nonlinear_arith)
            requires
                s.x == 11,
                s.y == 10,
        ;
        s
    }

    #[verifier::when_used_as_spec(spec_normal)]
    pub fn normal() -> (s: BoardSetting)
        ensures
            s == Self::spec_normal(),
            s.playable(),
    {
        let s = BoardSetting { x: 21, y: 15, c: 50, k: BoardSettingKind::Normal };
        assert(s.x * s.y == 315 && (s.x - 1) * (s.y - 1) == 280) by (nonlinear_arith)
            requires
                s.x == 21,
                s.y == 15,
        ;
        s
    }

    #[verifier::when_used_as_spec(spec_hard)]
    pub fn hard() -> (s: BoardSetting)
        ensures
            s == Self::spec_hard(),
            s.playable(),
    {
        let s = BoardSetting { x: 41, y: 15, c: 99, k: BoardSettingKind::Hard };
        assert(s.x * s.y == 615 && (s.x - 1) * (s.y - 1) == 560) by (nonlinear_arith)
            requires
                s.x == 41,
                s.y == 15,
        ;
        s
    }

    /// A setting describes a playable board when both dimensions are at
    /// least 1 and the mines leave a row and a column's worth of cells free.
    pub open spec fn playable(&self) -> bool {
        &&& 1 <= self.x
        &&& 1 <= self.y
        &&& self.x * self.y + 2 <= isize::MAX
        &&& self.c <= (self.x - 1) * (self.y - 1)
    }

    /// Whether the setting describes a playable board.
    pub fn is_playable(&self) -> (r: bool)
        ensures
            r == self.playable(),
    {
        if self.x < 1 || self.y < 1 {
            return false;
        }
        assert((self.x as u128) * (self.y as u128) <= 0xffff_ffff_ffff_ffff
            * 0xffff_ffff_ffff_ffff) by (nonlinear_arith)
            requires
                self.x <= 0xffff_ffff_ffff_ffff,
                self.y <= 0xffff_ffff_ffff_ffff,
        ;
        assert((self.x as u128 - 1) * (self.y as u128 - 1) <= 0xffff_ffff_ffff_ffff
            * 0xffff_ffff_ffff_ffff) by (nonlinear_arith)
            requires
                1 <= self.x <= 0xffff_ffff_ffff_ffff,
                1 <= self.y <= 0xffff_ffff_ffff_ffff,
        ;
        let cells: u128 = (self.x as u128) * (self.y as u128);
        let room: u128 = (self.x as u128 - 1) * (self.y as u128 - 1);
        cells + 2 <= isize::MAX as u128 && self.c as u128 <= room
    }

    /// Builds a custom setting from free-form input: the width is brought
    /// into 11..=41, the height into 10..=15, and then the mine count into
    /// 10..=(width - 1) * (height - 1), computed from the clamped dimensions.
    pub fn new_custom(x: usize, y: usize, c: usize) -> (s: Self)
        ensures
            s.x == clamp_to(x as int, 11, 41),
            s.y == clamp_to(y as int, 10, 15),
            s.c == clamp_to(c as int, 10, (s.x - 1) * (s.y - 1)),
            s.k == BoardSettingKind::Custom,
            s.playable(),
    {
        let x = clamp_usize(x, 11, 41);
        let y = clamp_usize(y, 10, 15);
        assert(90 <= (x - 1) * (y - 1) <= 560) by (nonlinear_arith)
            requires
                11 <= x <= 41,
                10 <= y <= 15,
        ;
        assert(x * y <= 615) by (nonlinear_arith)
            requires
                11 <= x <= 41,
                10 <= y <= 15,
        ;
        let c = clamp_usize(c, 10, (x - 1) * (y - 1));
        BoardSetting { x, y, c, k: BoardSettingKind::Custom }
    }
}

/// Limits `v` to `low..=high`.
fn clamp_usize(v: usize, low: usize, high: usize) -> (r: usize)
    requires
        low <= high,
    ensures
        r == clamp_to(v as int, low as int, high as int),
{
    if v < low {
        low
    } else if v > high {
        high
    } else {
        v
    }
}

impl Default for BoardSetting {
    fn default() -> (s: Self)
        ensures
            s == BoardSetting::easy(),
    {
        BoardSetting::easy()
    }
}

/// Whether a flagged cell turns into a question mark on the next rotation.
#[derive(Copy, Clone, Debug, PartialEq, Eq, Structural)]
pub struct AllowMarks(pub bool);

impl Default for AllowMarks {
    fn default() -> (a: Self)
        ensures
            a == AllowMarks(true),
    {
        AllowMarks(true)
    }
}

/// Magnification of the drawing.
#[derive(Copy, Clone, Debug, PartialEq, Eq, Structural)]
pub enum ZoomRatio {
    Zoom1x,
    Zoom2x,
    Zoom3x,
}

impl Default for ZoomRatio {
    fn default() -> (z: Self)
        ensures
            z == ZoomRatio::Zoom1x,
    {
        ZoomRatio::Zoom1x
    }
}

/// The settings a session starts from.
pub struct Config {
    pub board_setting: BoardSetting,
    pub allow_marks: AllowMarks,
    pub zoom_ratio: ZoomRatio,
}

impl Config {
    /// The easy preset, with question marks allowed and no magnification.
    pub fn new() -> (c: Self)
        ensures
            c.board_setting == BoardSetting::easy(),
            c.allow_marks == AllowMarks(true),
            c.zoom_ratio == ZoomRatio::Zoom1x,
    {
        Config {
            board_setting: BoardSetting::easy(),
            allow_marks: AllowMarks(true),
            zoom_ratio: ZoomRatio::Zoom1x,
        }
    }
}

impl Default for Config {
    fn default() -> (c: Self)
        ensures
            c.board_setting == BoardSetting::easy(),
            c.allow_marks == AllowMarks(true),
            c.zoom_ratio == ZoomRatio::Zoom1x,
    {
        Config::new()
    }
}

} // verus!
