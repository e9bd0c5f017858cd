use vstd::prelude::*;

verus! {

/// The kinds of non-player characters; each is one row of the NPC spritesheet.
#[derive(Debug, Clone, Copy, PartialEq, Eq, Structural)]
pub enum NpcKind {
    Villager,
    Animal,
    Guy,
    Girl,
}

/// The row of the NPC spritesheet that shows this kind of character.
pub open spec fn spec_sprite_row(kind: NpcKind) -> i32 {
    match kind {
        NpcKind::Villager => 0,
        NpcKind::Animal => 1,
        NpcKind::Guy => 2,
        NpcKind::Girl => 3,
    }
}

/// The row of the NPC spritesheet that shows this kind of character.
pub fn sprite_row(kind: NpcKind) -> (r: i32)
    ensures
        r == spec_sprite_row(kind),
{
    match kind {
        NpcKind::Villager => 0,
        NpcKind::Animal => 1,
        NpcKind::Guy => 2,
        NpcKind::Girl => 3,
    }
}

/// The patrol step on reaching waypoint `idx` of `count` (walked back and forth): going
/// forward, the next waypoint, or the one before the last when `idx` is the last; coming
/// back, the previous waypoint, or waypoint 1 going forward again when `idx` is the first.
pub open spec fn spec_next_waypoint(idx: usize, going: bool, count: usize) -> (usize, bool) {
    if going {
        if idx + 1 >= count {
            ((idx - 1) as usize, false)
        } else {
            ((idx + 1) as usize, true)
        }
    } else if idx == 0 {
        (1, true)
    } else {
        ((idx - 1) as usize, false)
    }
}

/// The waypoint to walk to, and whether the patrol goes forward, once the character stands on
/// waypoint `idx` of a patrol of `count` waypoints (see [`spec_next_waypoint`]).
pub fn next_waypoint(idx: usize, going: bool, count: usize) -> (r: (usize, bool))
    requires
        2 <= count,
        idx < count,
    ensures
        r == spec_next_waypoint(idx, going, count),
        r.0 < count,
        r.0 != idx,
{
    if going {
        if idx + 1 >= count {
            (idx - 1, false)
        } else {
            (idx + 1, true)
        }
    } else if idx == 0 {
        (1, true)
    } else {
        (idx - 1, false)
    }
}

} // verus!
