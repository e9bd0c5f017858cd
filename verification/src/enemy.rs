use vstd::prelude::*;

use crate::enemy_type::{EnemyKind, spec_max_hp};
use crate::player::HitOutcome;

verus! {

/// An enemy's life.
#[derive(Clone, Copy, Debug)]
pub struct Enemy {
    pub hp: i32,
    pub is_alive: bool,
    pub is_invincible: bool,
    pub kind: EnemyKind,
}

/// The damage that touching an enemy of a kind does.
pub open spec fn spec_contact_damage(k: EnemyKind) -> i32 {
    match k {
        EnemyKind::Slime => 1,
        EnemyKind::Goblin => 1,
        EnemyKind::Knight => 2,
    }
}

/// The enemy after losing `amount` hit points (dead at 0).
pub open spec fn damaged(e: Enemy, amount: i32) -> Enemy {
    if e.hp - amount <= 0 {
        Enemy { hp: 0, is_alive: false, ..e }
    } else {
        Enemy { hp: (e.hp - amount) as i32, ..e }
    }
}

/// The enemy after a blow of `damage` that does not kill it: hit points drop and a short
/// invincibility starts.
pub open spec fn enemy_hurt(e: Enemy, damage: i32) -> Enemy {
    Enemy { hp: (e.hp - damage) as i32, is_invincible: true, ..e }
}

/// How an enemy takes a blow of `damage`, and the enemy after it: ignored when it is dead
/// or invincible; otherwise it dies when no hit point is left, or is hurt.
pub open spec fn enemy_after_hit(e: Enemy, damage: i32) -> (HitOutcome, Enemy) {
    if !e.is_alive || e.is_invincible {
        (HitOutcome::Ignored, e)
    } else if e.hp - damage <= 0 {
        (HitOutcome::Killed, damaged(e, damage))
    } else {
        (HitOutcome::Hurt, enemy_hurt(e, damage))
    }
}

impl Enemy {
    /// A living enemy of kind `kind` at full health.
    pub fn new(kind: EnemyKind) -> (e: Enemy)
        ensures
            e.hp == spec_max_hp(kind),
            e.is_alive,
            !e.is_invincible,
            e.kind == kind,
    {
        Enemy { hp: kind.max_hp(), is_alive: true, is_invincible: false, kind }
    }

    /// Loses `amount` hit points; at 0 the enemy dies.
    pub fn take_damage(&mut self, amount: i32)
        requires
            i32::MIN <= old(self).hp - amount <= i32::MAX,
        ensures
            *final(self) == damaged(*old(self), amount),
    {
        self.hp = self.hp - amount;
        if self.hp <= 0 {
            self.hp = 0;
            self.is_alive = false;
        }
    }

    /// The damage that touching this enemy does.
    pub fn contact_damage(&self) -> (d: i32)
        ensures
            d == spec_contact_damage(self.kind),
    {
        match self.kind {
            EnemyKind::Slime => 1,
            EnemyKind::Goblin => 1,
            EnemyKind::Knight => 2,
        }
    }

    /// Takes a blow of `damage`: ignored when dead or invincible; otherwise the enemy dies
    /// or turns invincible for a while.
    pub fn take_hit(&mut self, damage: i32) -> (o: HitOutcome)
        requires
            old(self).is_alive && !old(self).is_invincible ==> i32::MIN <= old(self).hp - damage
                <= i32::MAX,
        ensures
            (o, *final(self)) == enemy_after_hit(*old(self), damage),
    {
        if self.is_invincible || !self.is_alive {
            return HitOutcome::Ignored;
        }
        self.hp = self.hp - damage;
        if self.hp <= 0 {
            self.hp = 0;
            self.is_alive = false;
            return HitOutcome::Killed;
        }
        self.is_invincible = true;
        HitOutcome::Hurt
    }
}

/// Law: an enemy is alive exactly while it has hit points left. A new enemy has some, and
/// losing hit points (by damage or by a blow) keeps the two in step.
pub proof fn law_enemy_alive_iff_hit_points(kind: EnemyKind, e: Enemy, amount: i32)
    requires
        e.is_alive == (e.hp > 0),
        amount >= 0,
        i32::MIN <= e.hp - amount,
    ensures
        spec_max_hp(kind) > 0,
        damaged(e, amount).is_alive == (damaged(e, amount).hp > 0),
        e.is_alive && e.hp - amount > 0 ==> enemy_hurt(e, amount).is_alive == (enemy_hurt(e, amount).hp
            > 0),
{
}

/// Law: a blow on an enemy that is up with hit points left either is ignored (when it is
/// invincible) or takes the damage: when no hit point is left the blow kills, the hit points
/// stop at 0 and the enemy is down; otherwise the enemy is hurt, loses exactly `damage` hit
/// points, stays up and turns invincible. Either way it is up exactly while it has hit points.
pub proof fn law_enemy_blow(e: Enemy, damage: i32)
    requires
        e.is_alive,
        e.hp > 0,
        damage >= 0,
    ensures
        enemy_after_hit(e, damage).1.is_alive == (enemy_after_hit(e, damage).1.hp > 0),
        enemy_after_hit(e, damage).1.hp >= 0,
        e.is_invincible ==> enemy_after_hit(e, damage) == (HitOutcome::Ignored, e),
        !e.is_invincible && e.hp - damage <= 0 ==> enemy_after_hit(e, damage).0 == HitOutcome::Killed
            && enemy_after_hit(e, damage).1.hp == 0 && !enemy_after_hit(e, damage).1.is_alive,
        !e.is_invincible && e.hp - damage > 0 ==> enemy_after_hit(e, damage).0 == HitOutcome::Hurt
            && enemy_after_hit(e, damage).1.hp == e.hp - damage && enemy_after_hit(e, damage).1.is_alive
            && enemy_after_hit(e, damage).1.is_invincible,
        enemy_after_hit(e, damage).1.kind == e.kind,
{
}

} // verus!
