//! Board dimensions brought into the range that the game accepts.

use crate::model_config::clamp_to;
use vstd::prelude::*;

verus! {

/// Width `x`, height `y` and mine count `c` of a board.
#[derive(Copy, Clone, PartialEq, Eq, Debug, Structural)]
pub struct BoardSetting {
    pub x: usize,
    pub y: usize,
    pub c: usize,
}

/// Limits `value` to `low..=high`.
///
/// Trusted: calls `clamp::clamp`, which returns `low` where `value` is
/// below it, `high` where `value` is above it and `value` itself otherwise.
/// It asserts `low < high`, so callers must keep to that.
#[verifier::external_body]
fn clamp(low: usize, value: usize, high: usize) -> (r: usize)
    requires
        low < high,
    ensures
        r == clamp_to(value as int, low as int, high as int),
{
    clamp::clamp(low, value, high)
}

impl BoardSetting {
    /// The smallest board: 11 wide, 10 high, 10 mines.
    pub open spec fn spec_easy() -> BoardSetting {
        BoardSetting { x: 11, y: 10, c: 10 }
    }

    #[verifier::when_used_as_spec(spec_easy)]
    pub fn easy() -> (s: BoardSetting)
        ensures
            s == Self::spec_easy(),
    {
        BoardSetting { x: 11, y: 10, c: 10 }
    }

    /// The middle board: 21 wide, 15 high, 50 mines.
    pub fn normal() -> (s: BoardSetting)
        ensures
            s == (BoardSetting { x: 21, y: 15, c: 50 }),
    {
        BoardSetting { x: 21, y: 15, c: 50 }
    }

    /// The largest board: 41 wide, 15 high, 99 mines.
    pub fn hard() -> (s: BoardSetting)
        ensures
            s == (BoardSetting { x: 41, y: 15, c: 99 }),
    {
        BoardSetting { x: 41, y: 15, c: 99 }
    }

    /// A setting from free-form input: the width is brought into 11..=41,
    /// the height into 10..=15, and then the mine count into
    /// 10..=(width - 1) * (height - 1).
    pub fn new_normalized(x: usize, y: usize, c: usize) -> (s: Self)
        ensures
            s.x == clamp_to(x as int, 11, 41),
            s.y == clamp_to(y as int, 10, 15),
            s.c == clamp_to(c as int, 10, (s.x - 1) * (s.y - 1)),
    {
        let x = clamp(11, x, 41);
        let y = clamp(10, y, 15);
        assert(90 <= (x - 1) * (y - 1) <= 560) by (nonlinear_arith)
            requires
                11 <= x <= 41,
                10 <= y <= 15,
        ;
        let c = clamp(10, c, (x - 1) * (y - 1));
        BoardSetting { x, y, c }
    }
}

/// The settings that a game starts from.
pub struct Config;

impl Config {
    pub fn new() -> Self {
        Config
    }

    /// The board to start on: the smallest.
    pub fn board_setting(&self) -> (s: BoardSetting)
        ensures
            s == BoardSetting::easy(),
    {
        BoardSetting::easy()
    }
}

} // verus!
