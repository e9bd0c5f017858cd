use vstd::prelude::*;

use crate::map_loader::{KeyKind, LootKind, ObjectKind, ObjectKindView, RubyKind};

verus! {

/// The hit points the player starts with.
pub const PLAYER_MAX_HP: i32 = 6;

/// The damage of one sword stroke.
pub const ATTACK_DAMAGE: i32 = 2;

/// The four directions the player faces.
#[derive(Clone, Copy, PartialEq, Eq, Debug, Structural)]
pub enum Direction {
    Down,
    Left,
    Right,
    Up,
}

/// The row of the player spritesheet for a direction (0 down, 1 left, 2 right, 3 up).
pub open spec fn spec_direction_row(d: Direction) -> u32 {
    match d {
        Direction::Down => 0,
        Direction::Left => 1,
        Direction::Right => 2,
        Direction::Up => 3,
    }
}

pub fn direction_row(d: Direction) -> (r: u32)
    ensures
        r == spec_direction_row(d),
{
    match d {
        Direction::Down => 0,
        Direction::Left => 1,
        Direction::Right => 2,
        Direction::Up => 3,
    }
}

/// Where the player faces and whether they walk, for the arrow keys held (`up`, `down`,
/// `left`, `right`): opposite keys cancel out; the vertical axis wins over the horizontal one;
/// with no movement the player keeps facing `current`.
pub open spec fn spec_facing(up: bool, down: bool, left: bool, right: bool, current: Direction) -> (Direction, bool) {
    let dy: int = (if down { 1int } else { 0int }) - (if up { 1int } else { 0int });
    let dx: int = (if right { 1int } else { 0int }) - (if left { 1int } else { 0int });
    let d = if dy < 0 {
        Direction::Up
    } else if dy > 0 {
        Direction::Down
    } else if dx < 0 {
        Direction::Left
    } else if dx > 0 {
        Direction::Right
    } else {
        current
    };
    (d, dx != 0 || dy != 0)
}

pub fn facing(up: bool, down: bool, left: bool, right: bool, current: Direction) -> (r: (Direction, bool))
    ensures
        r == spec_facing(up, down, left, right, current),
{
    let dy: i8 = (if down { 1i8 } else { 0i8 }) - (if up { 1i8 } else { 0i8 });
    let dx: i8 = (if right { 1i8 } else { 0i8 }) - (if left { 1i8 } else { 0i8 });
    let d = if dy < 0 {
        Direction::Up
    } else if dy > 0 {
        Direction::Down
    } else if dx < 0 {
        Direction::Left
    } else if dx > 0 {
        Direction::Right
    } else {
        current
    };
    (d, dx != 0 || dy != 0)
}

/// The number of frames of a walking animation.
pub const ANIM_FRAMES: u32 = 8;

/// The next frame of the walking animation, back to the first after the last.
pub fn next_anim_frame(frame: u32) -> (f: u32)
    ensures
        f == (frame + 1) % (ANIM_FRAMES as int),
{
    if frame < ANIM_FRAMES {
        (frame + 1) % ANIM_FRAMES
    } else {
        ((frame % ANIM_FRAMES) + 1) % ANIM_FRAMES
    }
}

/// A frame index counted from the start of an animation of `frames` frames, held on the last
/// frame once the animation is over.
pub fn capped_frame(raw: u32, frames: u32) -> (f: u32)
    requires
        frames >= 1,
    ensures
        f == (if raw < frames - 1 {
            raw
        } else {
            (frames - 1) as u32
        }),
{
    if raw < frames - 1 {
        raw
    } else {
        frames - 1
    }
}

/// The directions the player faces, step by step, while spinning at death.
pub open spec fn spin_sequence() -> Seq<Direction> {
    seq![
        Direction::Up,
        Direction::Left,
        Direction::Down,
        Direction::Right,
        Direction::Up,
        Direction::Left,
        Direction::Down,
        Direction::Right,
    ]
}

/// The direction shown at step `step` of the death spin; past the last step the spin is over
/// (and the player starts vanishing).
pub fn spin_direction(step: usize) -> (d: Option<Direction>)
    ensures
        step < 8 ==> d == Some(spin_sequence()[step as int]),
        step >= 8 ==> d is None,
{
    if step >= 8 {
        None
    } else if step % 4 == 0 {
        Some(Direction::Up)
    } else if step % 4 == 1 {
        Some(Direction::Left)
    } else if step % 4 == 2 {
        Some(Direction::Down)
    } else {
        Some(Direction::Right)
    }
}

/// The stages of the player's death.
#[derive(Debug, Clone, Copy, PartialEq, Eq, Structural)]
pub enum DeathState {
    Alive,
    /// The player spins around.
    Spinning,
    /// The player vanishes.
    Vanishing,
    /// The game is over.
    Done,
}

/// The sounds that one update of the player asks for.
pub struct PlayerAudioEvents {
    pub sword_swing: bool,
    pub got_hit: bool,
    pub death_start: bool,
}

impl Default for PlayerAudioEvents {
    /// No sound asked for.
    fn default() -> (e: PlayerAudioEvents)
        ensures
            !e.sword_swing && !e.got_hit && !e.death_start,
    {
        PlayerAudioEvents { sword_swing: false, got_hit: false, death_start: false }
    }
}

/// How a blow was taken.
#[derive(Debug, Clone, Copy, PartialEq, Eq, Structural)]
pub enum HitOutcome {
    /// Nothing happened (already down, or invincible).
    Ignored,
    /// Hit points were lost; a short invincibility starts.
    Hurt,
    /// The last hit points were lost.
    Killed,
}

/// The player's life, purse and keys.
#[derive(Clone, Copy, Debug)]
pub struct Player {
    pub hp: i32,
    pub max_hp: i32,
    pub is_invincible: bool,
    pub death_state: DeathState,
    pub rubies: i32,
    pub keys_basic: u32,
    pub keys_silver: u32,
    pub keys_gold: u32,
    pub keys_boss: u32,
    pub heart_pieces: u8,
}

/// The number of keys of a kind that the player holds.
pub open spec fn key_count(p: Player, kind: KeyKind) -> u32 {
    match kind {
        KeyKind::Basic => p.keys_basic,
        KeyKind::Silver => p.keys_silver,
        KeyKind::Gold => p.keys_gold,
        KeyKind::Boss => p.keys_boss,
    }
}

/// `p` with `n` keys of kind `kind`.
pub open spec fn with_keys(p: Player, kind: KeyKind, n: u32) -> Player {
    match kind {
        KeyKind::Basic => Player { keys_basic: n, ..p },
        KeyKind::Silver => Player { keys_silver: n, ..p },
        KeyKind::Gold => Player { keys_gold: n, ..p },
        KeyKind::Boss => Player { keys_boss: n, ..p },
    }
}

/// `p` after using up one key of kind `kind` (the count stays at 0 when there is none).
pub open spec fn key_used(p: Player, kind: KeyKind) -> Player {
    with_keys(
        p,
        kind,
        if key_count(p, kind) > 0 {
            (key_count(p, kind) - 1) as u32
        } else {
            0
        },
    )
}

/// The value of a ruby.
pub open spec fn ruby_value(k: RubyKind) -> int {
    match k {
        RubyKind::Green => 1,
        RubyKind::Blue => 5,
        RubyKind::Red => 10,
    }
}

/// The sound that picking something up makes.
#[derive(Debug, Clone, Copy, PartialEq, Eq, Structural)]
pub enum PickupSound {
    Heart,
    Ruby,
    Chest,
}

/// What touching an object did.
pub struct Pickup {
    /// The object is now collected.
    pub taken: bool,
    /// The screen flashes (something was picked up).
    pub flash: bool,
    pub sound: Option<PickupSound>,
    /// What comes out of an opened chest.
    pub loot: Option<ObjectKind>,
}

/// The object that comes out of a chest holding `l`.
pub open spec fn loot_object(l: LootKind) -> ObjectKindView {
    match l {
        LootKind::Heart => ObjectKindView::Heart,
        LootKind::Ruby => ObjectKindView::Ruby(RubyKind::Green),
        LootKind::Key => ObjectKindView::Key,
    }
}

/// Hit points after healing by 2, up to `max`.
pub open spec fn healed(hp: i32, max: int) -> i32 {
    if hp + 2 <= max {
        (hp + 2) as i32
    } else {
        max as i32
    }
}

/// Picking up an object of kind `k` stays within the integer ranges.
pub open spec fn pickup_fits(p: Player, k: ObjectKindView) -> bool {
    match k {
        ObjectKindView::Heart => p.hp + 2 <= i32::MAX,
        ObjectKindView::Ruby(r) => p.rubies + ruby_value(r) <= i32::MAX,
        ObjectKindView::Key => p.keys_basic + 1 <= u32::MAX,
        ObjectKindView::HeartPiece => p.max_hp + 2 <= i32::MAX && p.hp + 2 <= i32::MAX,
        _ => true,
    }
}

/// The player after picking up an object of kind `k`.
pub open spec fn after_pickup(p: Player, k: ObjectKindView) -> Player {
    match k {
        ObjectKindView::Heart => Player { hp: healed(p.hp, p.max_hp as int), ..p },
        ObjectKindView::Ruby(r) => Player { rubies: (p.rubies + ruby_value(r)) as i32, ..p },
        ObjectKindView::Key => Player { keys_basic: (p.keys_basic + 1) as u32, ..p },
        ObjectKindView::HeartPiece => Player {
            max_hp: (p.max_hp + 2) as i32,
            hp: healed(p.hp, p.max_hp + 2),
            ..p
        },
        _ => p,
    }
}

/// Whether touching an object of kind `k` collects it (transitions and bushes are not).
pub open spec fn is_taken(k: ObjectKindView) -> bool {
    !(k is Transition || k is Bush)
}

/// The sound of picking up an object of kind `k`.
pub open spec fn pickup_sound(k: ObjectKindView) -> Option<PickupSound> {
    match k {
        ObjectKindView::Heart => Some(PickupSound::Heart),
        ObjectKindView::Ruby(_) => Some(PickupSound::Ruby),
        ObjectKindView::Key => Some(PickupSound::Ruby),
        ObjectKindView::Chest(_) => Some(PickupSound::Chest),
        ObjectKindView::HeartPiece => Some(PickupSound::Heart),
        _ => None,
    }
}

/// Whether picking up an object of kind `k` flashes the screen (everything taken but chests).
pub open spec fn pickup_flashes(k: ObjectKindView) -> bool {
    is_taken(k) && !(k is Chest)
}

/// The player after a fatal blow: no hit points left, the death spin starts.
pub open spec fn killed(p: Player) -> Player {
    Player { hp: 0, death_state: DeathState::Spinning, ..p }
}

/// The player after a blow of `damage` that is not fatal: hit points drop, invincibility starts.
pub open spec fn hurt(p: Player, damage: i32) -> Player {
    Player { hp: (p.hp - damage) as i32, is_invincible: true, ..p }
}

/// How the player takes a blow of `damage`, and the player after it: ignored when down or
/// invincible; otherwise the player dies when no hit point is left, or is hurt.
pub open spec fn player_after_hit(p: Player, damage: i32) -> (HitOutcome, Player) {
    if p.death_state != DeathState::Alive || p.is_invincible {
        (HitOutcome::Ignored, p)
    } else if p.hp - damage <= 0 {
        (HitOutcome::Killed, killed(p))
    } else {
        (HitOutcome::Hurt, hurt(p, damage))
    }
}

impl Player {
    /// A player at full health, with nothing in hand.
    pub fn new() -> (p: Player)
        ensures
            p.hp == PLAYER_MAX_HP,
            p.max_hp == PLAYER_MAX_HP,
            !p.is_invincible,
            p.death_state == DeathState::Alive,
            p.rubies == 0,
            p.keys_basic == 0 && p.keys_silver == 0 && p.keys_gold == 0 && p.keys_boss == 0,
            p.heart_pieces == 0,
    {
        Player {
            hp: PLAYER_MAX_HP,
            max_hp: PLAYER_MAX_HP,
            is_invincible: false,
            death_state: DeathState::Alive,
            rubies: 0,
            keys_basic: 0,
            keys_silver: 0,
            keys_gold: 0,
            keys_boss: 0,
            heart_pieces: 0,
        }
    }

    pub fn is_alive(&self) -> (b: bool)
        ensures
            b == (self.death_state == DeathState::Alive),
    {
        self.death_state == DeathState::Alive
    }

    pub fn is_done(&self) -> (b: bool)
        ensures
            b == (self.death_state == DeathState::Done),
    {
        self.death_state == DeathState::Done
    }

    pub fn attack_damage(&self) -> (d: i32)
        ensures
            d == ATTACK_DAMAGE,
    {
        ATTACK_DAMAGE
    }

    /// Takes a blow of `damage`: ignored when down or invincible; otherwise hit points drop,
    /// and either the player dies (hit points at 0, the spin starts) or turns invincible.
    pub fn take_hit(&mut self, damage: i32) -> (o: HitOutcome)
        requires
            old(self).death_state == DeathState::Alive && !old(self).is_invincible ==> i32::MIN
                <= old(self).hp - damage <= i32::MAX,
        ensures
            (o, *final(self)) == player_after_hit(*old(self), damage),
    {
        if !self.is_alive() || self.is_invincible {
            return HitOutcome::Ignored;
        }
        self.hp = self.hp - damage;
        if self.hp <= 0 {
            self.hp = 0;
            self.death_state = DeathState::Spinning;
            return HitOutcome::Killed;
        }
        self.is_invincible = true;
        HitOutcome::Hurt
    }

    pub fn has_key(&self, kind: KeyKind) -> (b: bool)
        ensures
            b == (key_count(*self, kind) > 0),
    {
        match kind {
            KeyKind::Basic => self.keys_basic > 0,
            KeyKind::Silver => self.keys_silver > 0,
            KeyKind::Gold => self.keys_gold > 0,
            KeyKind::Boss => self.keys_boss > 0,
        }
    }

    /// Uses up one key of a kind (none is used when there is none).
    pub fn use_key(&mut self, kind: KeyKind)
        ensures
            *final(self) == key_used(*old(self), kind),
    {
        match kind {
            KeyKind::Basic => self.keys_basic = self.keys_basic.saturating_sub(1),
            KeyKind::Silver => self.keys_silver = self.keys_silver.saturating_sub(1),
            KeyKind::Gold => self.keys_gold = self.keys_gold.saturating_sub(1),
            KeyKind::Boss => self.keys_boss = self.keys_boss.saturating_sub(1),
        }
    }

    /// Touches an object of kind `kind`: hearts heal 2 (up to the maximum), rubies add their
    /// value, keys add a basic key, heart pieces raise the maximum by 2 and heal 2, chests
    /// open and give their loot; transitions and bushes are left alone.
    pub fn pick_up(&mut self, kind: &ObjectKind) -> (r: Pickup)
        requires
            pickup_fits(*old(self), kind@),
        ensures
            *final(self) == after_pickup(*old(self), kind@),
            r.taken == is_taken(kind@),
            r.flash == pickup_flashes(kind@),
            r.sound == pickup_sound(kind@),
            (match kind@ {
                ObjectKindView::Chest(l) => (r.loot matches Some(o) && o@ == loot_object(l)),
                _ => r.loot is None,
            }),
    {
        match kind {
            ObjectKind::Heart => {
                self.hp = if self.hp + 2 <= self.max_hp {
                    self.hp + 2
                } else {
                    self.max_hp
                };
                Pickup { taken: true, flash: true, sound: Some(PickupSound::Heart), loot: None }
            },
            ObjectKind::Ruby(k) => {
                let v: i32 = match k {
                    RubyKind::Green => 1,
                    RubyKind::Blue => 5,
                    RubyKind::Red => 10,
                };
                self.rubies = self.rubies + v;
                Pickup { taken: true, flash: true, sound: Some(PickupSound::Ruby), loot: None }
            },
            ObjectKind::Key => {
                self.keys_basic = self.keys_basic + 1;
                Pickup { taken: true, flash: true, sound: Some(PickupSound::Ruby), loot: None }
            },
            ObjectKind::Chest { contains } => {
                let loot = match contains {
                    LootKind::Heart => ObjectKind::Heart,
                    LootKind::Ruby => ObjectKind::Ruby(RubyKind::Green),
                    LootKind::Key => ObjectKind::Key,
                };
                Pickup { taken: true, flash: false, sound: Some(PickupSound::Chest), loot: Some(loot) }
            },
            ObjectKind::Transition { .. } => Pickup {
                taken: false,
                flash: false,
                sound: None,
                loot: None,
            },
            ObjectKind::HeartPiece => {
                self.max_hp = self.max_hp + 2;
                self.hp = if self.hp + 2 <= self.max_hp {
                    self.hp + 2
                } else {
                    self.max_hp
                };
                Pickup { taken: true, flash: true, sound: Some(PickupSound::Heart), loot: None }
            },
            ObjectKind::Bush => Pickup { taken: false, flash: false, sound: None, loot: None },
        }
    }
}

/// Law: the player's hit points stay between 0 and the maximum. A blow of any damage (fatal
/// or not) and the pick-up of any object keep them there.
pub proof fn law_health_in_range(p: Player, damage: i32, k: ObjectKindView)
    requires
        0 <= p.hp <= p.max_hp,
        0 <= damage,
        pickup_fits(p, k),
    ensures
        0 <= killed(p).hp <= killed(p).max_hp,
        p.hp - damage > 0 ==> 0 <= hurt(p, damage).hp <= hurt(p, damage).max_hp,
        0 <= after_pickup(p, k).hp <= after_pickup(p, k).max_hp,
{
}

/// Law: using a key after checking that one is held takes exactly one key of that kind and
/// leaves the other kinds alone.
pub proof fn law_use_key_takes_one(p: Player, kind: KeyKind, other: KeyKind)
    ensures
        key_count(p, kind) > 0 ==> key_count(key_used(p, kind), kind) == key_count(p, kind) - 1,
        key_count(p, kind) == 0 ==> key_used(p, kind) == p,
        other != kind ==> key_count(key_used(p, other), kind) == key_count(p, kind),
        key_used(p, kind).hp == p.hp && key_used(p, kind).rubies == p.rubies,
{
}

/// Law: the player is up exactly while having hit points. A blow of any damage on a player
/// who is up with hit points left either is ignored (during invincibility) or takes the damage:
/// when no hit point is left, the blow kills, the hit points stop at 0 and the death spin
/// starts; otherwise the player is hurt, loses exactly `damage` hit points, stays up and turns
/// invincible.
pub proof fn law_player_alive_iff_hit_points(p: Player, damage: i32)
    requires
        p.death_state == DeathState::Alive,
        p.hp > 0,
        damage >= 0,
    ensures
        (player_after_hit(p, damage).1.death_state == DeathState::Alive) == (player_after_hit(p, damage).1.hp
            > 0),
        player_after_hit(p, damage).1.hp >= 0,
        p.is_invincible ==> player_after_hit(p, damage) == (HitOutcome::Ignored, p),
        !p.is_invincible && p.hp - damage <= 0 ==> player_after_hit(p, damage).0 == HitOutcome::Killed
            && player_after_hit(p, damage).1.hp == 0 && player_after_hit(p, damage).1.death_state
            == DeathState::Spinning,
        !p.is_invincible && p.hp - damage > 0 ==> player_after_hit(p, damage).0 == HitOutcome::Hurt
            && player_after_hit(p, damage).1.hp == p.hp - damage && player_after_hit(p, damage).1.death_state
            == DeathState::Alive && player_after_hit(p, damage).1.is_invincible,
{
}

/// Law: the vertical keys win over the horizontal ones. While exactly one of up and down is
/// held, the player faces that way, whatever horizontal keys are held; otherwise exactly one of
/// left and right held turns the player that way; with both axes cancelled the player keeps
/// facing `current` and stands still. The player walks exactly when some axis is not
/// cancelled.
pub proof fn law_facing_keys(up: bool, down: bool, left: bool, right: bool, current: Direction)
    ensures
        up && !down ==> spec_facing(up, down, left, right, current).0 == Direction::Up,
        down && !up ==> spec_facing(up, down, left, right, current).0 == Direction::Down,
        up == down && left && !right ==> spec_facing(up, down, left, right, current).0 == Direction::Left,
        up == down && right && !left ==> spec_facing(up, down, left, right, current).0 == Direction::Right,
        up == down && left == right ==> spec_facing(up, down, left, right, current).0 == current,
        spec_facing(up, down, left, right, current).1 == (up != down || left != right),
{
}

/// Law: what a pick-up gives. A heart heals 2 hit points without passing the maximum; a
/// green, blue or red ruby adds 1, 5 or 10 rubies; a key adds one basic key; a heart piece
/// raises the maximum by 2 and heals 2; a chest, a bush or a door leaves the player as is.
/// Nothing else about the player changes.
pub proof fn law_pickup_gives(p: Player, k: ObjectKindView)
    requires
        0 <= p.hp <= p.max_hp,
        pickup_fits(p, k),
    ensures
        k == ObjectKindView::Heart ==> after_pickup(p, k) == (Player {
            hp: if p.hp + 2 <= p.max_hp { (p.hp + 2) as i32 } else { p.max_hp },
            ..p
        }),
        k == ObjectKindView::Ruby(RubyKind::Green) ==> after_pickup(p, k) == (Player {
            rubies: (p.rubies + 1) as i32,
            ..p
        }),
        k == ObjectKindView::Ruby(RubyKind::Blue) ==> after_pickup(p, k) == (Player {
            rubies: (p.rubies + 5) as i32,
            ..p
        }),
        k == ObjectKindView::Ruby(RubyKind::Red) ==> after_pickup(p, k) == (Player {
            rubies: (p.rubies + 10) as i32,
            ..p
        }),
        k == ObjectKindView::Key ==> after_pickup(p, k) == (Player {
            keys_basic: (p.keys_basic + 1) as u32,
            ..p
        }),
        k == ObjectKindView::HeartPiece ==> after_pickup(p, k) == (Player {
            max_hp: (p.max_hp + 2) as i32,
            hp: (p.hp + 2) as i32,
            ..p
        }),
        (k is Chest) || (k is Bush) || (k is Transition) ==> after_pickup(p, k) == p,
        after_pickup(p, k).hp >= p.hp && after_pickup(p, k).rubies >= p.rubies,
{
}

} // verus!
