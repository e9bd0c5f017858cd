use vstd::prelude::*;

verus! {

/// The kinds of enemies; each is one row of the enemy spritesheet.
#[derive(Clone, Copy, PartialEq, Eq, Debug, Structural)]
pub enum EnemyKind {
    Slime,
    Goblin,
    Knight,
}

} // verus!

verus! {

/// The hit points that an enemy of a kind starts with.
pub open spec fn spec_max_hp(k: EnemyKind) -> i32 {
    match k {
        EnemyKind::Slime => 2,
        EnemyKind::Goblin => 4,
        EnemyKind::Knight => 8,
    }
}

/// The row of the enemy spritesheet for a kind.
pub open spec fn spec_sprite_row(k: EnemyKind) -> u32 {
    match k {
        EnemyKind::Slime => 0,
        EnemyKind::Goblin => 1,
        EnemyKind::Knight => 2,
    }
}

impl EnemyKind {
    /// The hit points that an enemy of this kind starts with (the `max_hp` of its stats).
    pub fn max_hp(&self) -> (h: i32)
        ensures
            h == spec_max_hp(*self),
    {
        match self {
            EnemyKind::Slime => 2,
            EnemyKind::Goblin => 4,
            EnemyKind::Knight => 8,
        }
    }

    /// The row of the enemy spritesheet for this kind (the `sprite_row` of its stats).
    pub fn sprite_row(&self) -> (r: u32)
        ensures
            r == spec_sprite_row(*self),
    {
        match self {
            EnemyKind::Slime => 0,
            EnemyKind::Goblin => 1,
            EnemyKind::Knight => 2,
        }
    }
}

/// Width of a frame of the enemy spritesheet.
pub const ENEMY_SPRITE_W: u32 = 22;

/// Height of a frame of the enemy spritesheet.
pub const ENEMY_SPRITE_H: u32 = 28;

/// The top-left corner, in the enemy spritesheet, of frame `frame` of an enemy of kind `k`
/// facing the direction of row `dir_row` (0 down, 1 left, 2 right, 3 up): the sheet holds the
/// four direction rows of each kind in turn (slimes, then goblins, then knights).
pub fn enemy_sprite_origin(k: EnemyKind, dir_row: u32, frame: u32) -> (r: (i32, i32))
    requires
        dir_row < 4,
        frame < 4,
    ensures
        r.0 == frame * 22,
        r.1 == (spec_sprite_row(k) * 4 + dir_row) * 28,
{
    let sheet_row = k.sprite_row() * 4 + dir_row;
    ((frame * ENEMY_SPRITE_W) as i32, (sheet_row * ENEMY_SPRITE_H) as i32)
}

/// Law: each kind of enemy has a row of its own among the three rows of the spritesheet, so
/// no two kinds share a picture; every enemy starts with hit points, and the kinds grow
/// tougher from slime to goblin to knight.
pub proof fn law_enemy_kinds(a: EnemyKind, b: EnemyKind)
    ensures
        a != b ==> spec_sprite_row(a) != spec_sprite_row(b),
        spec_sprite_row(a) < 3,
        spec_max_hp(a) > 0,
        spec_max_hp(EnemyKind::Slime) < spec_max_hp(EnemyKind::Goblin) < spec_max_hp(EnemyKind::Knight),
{
}

} // verus!
