//! The screen zones that scripts ask about touches in.

use vstd::prelude::*;

verus! {

/// Areas of the screen that scripts can query for touch information.
#[derive(Clone, Copy, PartialEq, Eq, Structural, Debug)]
pub enum Zone {
    TopLeft,
    TopMiddle,
    TopRight,
    MiddleLeft,
    Middle,
    MiddleRight,
    BottomLeft,
    BottomMiddle,
    BottomRight,
}

/// The zone that scripts call by `index`: numbered from one, down each
/// column from the left.
pub open spec fn spec_zone_by_number(index: int) -> Option<Zone> {
    if index == 1 {
        Some(Zone::TopLeft)
    } else if index == 2 {
        Some(Zone::MiddleLeft)
    } else if index == 3 {
        Some(Zone::BottomLeft)
    } else if index == 4 {
        Some(Zone::TopMiddle)
    } else if index == 5 {
        Some(Zone::Middle)
    } else if index == 6 {
        Some(Zone::BottomMiddle)
    } else if index == 7 {
        Some(Zone::TopRight)
    } else if index == 8 {
        Some(Zone::MiddleRight)
    } else if index == 9 {
        Some(Zone::BottomRight)
    } else {
        None
    }
}

/// The column (0 to 2, from the left) and row (0 to 2, from the top) of a
/// zone.
pub open spec fn zone_cell(z: Zone) -> (int, int) {
    match z {
        Zone::TopLeft => (0, 0),
        Zone::MiddleLeft => (0, 1),
        Zone::BottomLeft => (0, 2),
        Zone::TopMiddle => (1, 0),
        Zone::Middle => (1, 1),
        Zone::BottomMiddle => (1, 2),
        Zone::TopRight => (2, 0),
        Zone::MiddleRight => (2, 1),
        Zone::BottomRight => (2, 2),
    }
}

impl Zone {
    /// Returns the zone that scripts call by `index`, or `None` if no zone
    /// has that number.
    pub fn by_number(index: usize) -> (zone: Option<Zone>)
        ensures
            zone == spec_zone_by_number(index as int),
    {
        match index {
            1 => Some(Zone::TopLeft),
            2 => Some(Zone::MiddleLeft),
            3 => Some(Zone::BottomLeft),
            4 => Some(Zone::TopMiddle),
            5 => Some(Zone::Middle),
            6 => Some(Zone::BottomMiddle),
            7 => Some(Zone::TopRight),
            8 => Some(Zone::MiddleRight),
            9 => Some(Zone::BottomRight),
            _ => None,
        }
    }
}

/// Zones one to nine are the nine cells of a three-by-three grid, each
/// once: zone `n` is in column `(n - 1) / 3` and row `(n - 1) % 3`.
pub proof fn lemma_zone_numbers_cover_grid(index: int)
    requires
        1 <= index <= 9,
    ensures
        spec_zone_by_number(index) is Some,
        zone_cell(spec_zone_by_number(index).unwrap()) == ((index - 1) / 3, (index - 1) % 3),
{
}

} // verus!
