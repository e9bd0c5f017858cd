use vstd::prelude::*;

use crate::enemy::{enemy_after_hit, Enemy};
use crate::map_loader::{ObjectKind, ObjectKindView, RubyKind};
use crate::player::{
    after_pickup, is_taken, loot_object, pickup_fits, pickup_flashes, pickup_sound, player_after_hit,
    DeathState, HitOutcome, PickupSound, Player,
};

verus! {

/// The sound that touching an enemy calls for.
#[derive(Debug, Clone, Copy, PartialEq, Eq, Structural)]
pub enum ContactCue {
    PlayerDeath,
    PlayerHit,
    Silent,
}

/// The sound of an enemy's contact: the death sound when the blow killed the player, the hit
/// sound when it hurt a player who was not invincible and is still standing.
pub open spec fn spec_contact_cue(before: DeathState, after: DeathState, was_invincible: bool) -> ContactCue {
    if before == DeathState::Alive && after == DeathState::Spinning {
        ContactCue::PlayerDeath
    } else if !was_invincible && after == DeathState::Alive {
        ContactCue::PlayerHit
    } else {
        ContactCue::Silent
    }
}

pub fn contact_cue(before: DeathState, after: DeathState, was_invincible: bool) -> (c: ContactCue)
    ensures
        c == spec_contact_cue(before, after, was_invincible),
{
    if before == DeathState::Alive && after == DeathState::Spinning {
        ContactCue::PlayerDeath
    } else if !was_invincible && after == DeathState::Alive {
        ContactCue::PlayerHit
    } else {
        ContactCue::Silent
    }
}

/// The sound of a sword stroke on a living enemy.
#[derive(Debug, Clone, Copy, PartialEq, Eq, Structural)]
pub enum AttackCue {
    EnemyDeath,
    EnemyHit,
}

/// A stroke that kills calls for the death sound; any other stroke on a living enemy for the
/// hit sound.
pub fn attack_cue(o: HitOutcome) -> (c: AttackCue)
    ensures
        c == (if o == HitOutcome::Killed {
            AttackCue::EnemyDeath
        } else {
            AttackCue::EnemyHit
        }),
{
    match o {
        HitOutcome::Killed => AttackCue::EnemyDeath,
        _ => AttackCue::EnemyHit,
    }
}

/// An object of the map as the contact rules see it: its kind, whether it is already
/// collected, whether the player stands within reach of it, where it comes from in the
/// caller's list (`origin`: its own index for an object of the map; for loot, the index of
/// the chest it came out of), and whether it is loot dropped by a chest.
pub struct ContactObject {
    pub kind: ObjectKind,
    pub collected: bool,
    pub near: bool,
    pub origin: usize,
    pub dropped: bool,
}

/// The value of a [`ContactObject`].
pub struct ContactView {
    pub kind: ObjectKindView,
    pub collected: bool,
    pub near: bool,
    pub origin: usize,
    pub dropped: bool,
}

pub open spec fn contact_view(o: ContactObject) -> ContactView {
    ContactView { kind: o.kind@, collected: o.collected, near: o.near, origin: o.origin, dropped: o.dropped }
}

pub open spec fn contact_views(s: Seq<ContactObject>) -> Seq<ContactView> {
    s.map_values(|o: ContactObject| contact_view(o))
}

/// An object that the player touches: near it and not collected yet.
pub open spec fn touched(o: ContactObject) -> bool {
    !o.collected && o.near
}

/// The player after touching, in order, the objects `objs`.
pub open spec fn contact_player(p: Player, objs: Seq<ContactObject>) -> Player
    decreases objs.len(),
{
    if objs.len() == 0 {
        p
    } else {
        let before = contact_player(p, objs.drop_last());
        if touched(objs.last()) {
            after_pickup(before, objs.last().kind@)
        } else {
            before
        }
    }
}

/// Touching the objects `objs` in order stays within the integer ranges.
pub open spec fn contact_fits(p: Player, objs: Seq<ContactObject>) -> bool
    decreases objs.len(),
{
    if objs.len() == 0 {
        true
    } else {
        contact_fits(p, objs.drop_last()) && (touched(objs.last()) ==> pickup_fits(
            contact_player(p, objs.drop_last()),
            objs.last().kind@,
        ))
    }
}

/// The sounds of touching the objects `objs`, in order.
pub open spec fn contact_sounds(objs: Seq<ContactObject>) -> Seq<PickupSound>
    decreases objs.len(),
{
    if objs.len() == 0 {
        Seq::empty()
    } else {
        let before = contact_sounds(objs.drop_last());
        if touched(objs.last()) && pickup_sound(objs.last().kind@) is Some {
            before.push(pickup_sound(objs.last().kind@).unwrap())
        } else {
            before
        }
    }
}

/// An object once the player has touched what is within reach: what is taken is collected.
pub open spec fn after_touch(o: ContactObject) -> ContactView {
    ContactView { collected: o.collected || (o.near && is_taken(o.kind@)), ..contact_view(o) }
}

/// Whether an object stays on the map: not collected, or an opened chest, or a heart piece.
pub open spec fn stays(v: ContactView) -> bool {
    !v.collected || v.kind is Chest || v.kind is HeartPiece
}

/// The objects of `s` that stay on the map, in order.
pub open spec fn kept(s: Seq<ContactView>) -> Seq<ContactView>
    decreases s.len(),
{
    if s.len() == 0 {
        Seq::empty()
    } else if stays(s.last()) {
        kept(s.drop_last()).push(s.last())
    } else {
        kept(s.drop_last())
    }
}

/// The loot of the chests among `objs` that the player opens, in order: each is a new,
/// uncollected object, coming from its chest.
pub open spec fn loot_objects(objs: Seq<ContactObject>) -> Seq<ContactView>
    decreases objs.len(),
{
    if objs.len() == 0 {
        Seq::empty()
    } else {
        let before = loot_objects(objs.drop_last());
        let o = objs.last();
        match o.kind@ {
            ObjectKindView::Chest(l) => if touched(o) {
                before.push(
                    ContactView { kind: loot_object(l), collected: false, near: false, origin: o.origin, dropped: true },
                )
            } else {
                before
            },
            _ => before,
        }
    }
}

/// The objects of the map after the player touches what lies within reach of `objs`: the
/// objects that stay (see [`stays`]), in order, followed by the loot of the opened chests.
pub open spec fn settled(objs: Seq<ContactObject>) -> Seq<ContactView> {
    kept(objs.map_values(|o: ContactObject| after_touch(o))) + loot_objects(objs)
}

/// What touching the objects did.
pub struct ContactOutcome {
    /// Something was picked up (the screen flashes).
    pub collected: bool,
    pub sounds: Vec<PickupSound>,
}

/// The player touches every object that is near and not collected yet, in order (see
/// [`Player::pick_up`]); what is taken becomes collected. Afterwards the map holds the
/// objects that stay, in order, followed by the loot of the chests opened (see [`settled`]).
pub fn resolve_object_contact(player: &mut Player, objects: &mut Vec<ContactObject>) -> (r: ContactOutcome)
    requires
        contact_fits(*old(player), old(objects)@),
    ensures
        *final(player) == contact_player(*old(player), old(objects)@),
        contact_views(final(objects)@) == settled(old(objects)@),
        r.collected == (exists|i: int|
            0 <= i < old(objects)@.len() && touched(#[trigger] old(objects)@[i]) && pickup_flashes(
                old(objects)@[i].kind@,
            )),
        r.sounds@ == contact_sounds(old(objects)@),
{
    let ghost objs = objects@;
    let ghost p0 = *player;
    let mut out = ContactOutcome { collected: false, sounds: Vec::new() };
    let mut loot: Vec<ContactObject> = Vec::new();
    assert(objs.take(0) == Seq::<ContactObject>::empty());
    assert(contact_views(loot@) =~= Seq::<ContactView>::empty());
    let mut i: usize = 0;
    while i < objects.len()
        invariant
            objs == old(objects)@,
            p0 == *old(player),
            objects@.len() == objs.len(),
            0 <= i <= objs.len(),
            contact_fits(p0, objs),
            *player == contact_player(p0, objs.take(i as int)),
            forall|j: int| 0 <= j < i ==> contact_view(#[trigger] objects@[j]) == after_touch(objs[j]),
            forall|j: int| i <= j < objs.len() ==> #[trigger] objects@[j] == objs[j],
            out.collected == (exists|j: int| 0 <= j < i && touched(#[trigger] objs[j]) && pickup_flashes(objs[j].kind@)),
            out.sounds@ == contact_sounds(objs.take(i as int)),
            contact_views(loot@) == loot_objects(objs.take(i as int)),
        decreases objects.len() - i,
    {
        let ghost pre = objs.take(i as int);
        let ghost cur = objs.take(i + 1);
        assert(cur.drop_last() == pre);
        assert(cur.last() == objs[i as int]);
        assert(objects@[i as int] == objs[i as int]);
        proof {
            lemma_contact_fits_prefix(p0, objs, i + 1);
        }
        if !objects[i].collected && objects[i].near {
            let pk = player.pick_up(&objects[i].kind);
            if pk.taken {
                objects[i].collected = true;
            }
            if pk.flash {
                out.collected = true;
            }
            match pk.sound {
                Some(snd) => out.sounds.push(snd),
                None => {},
            }
            match pk.loot {
                Some(l) => {
                    let ghost before = contact_views(loot@);
                    let origin = objects[i].origin;
                    loot.push(ContactObject { kind: l, collected: false, near: false, origin, dropped: true });
                    assert(contact_views(loot@) =~= before.push(contact_view(loot@.last())));
                },
                None => {
                    assert(contact_views(loot@) == loot_objects(cur));
                },
            }
        }
        i = i + 1;
    }
    assert(objs.take(objs.len() as int) == objs);
    let ghost marked = objects@;
    assert(contact_views(marked) =~= objs.map_values(|o: ContactObject| after_touch(o)));

    let mut rest: Vec<ContactObject> = Vec::new();
    std::mem::swap(objects, &mut rest);
    let ghost mv = contact_views(marked);
    let ghost mut k: int = 0;
    assert(mv.take(0) == Seq::<ContactView>::empty());
    assert(contact_views(objects@) =~= Seq::<ContactView>::empty());
    while rest.len() > 0
        invariant
            mv == contact_views(marked),
            0 <= k <= marked.len(),
            rest@ == marked.skip(k),
            contact_views(objects@) == kept(mv.take(k)),
        decreases rest.len(),
    {
        let o = rest.remove(0);
        proof {
            assert(o == marked[k]);
            assert(mv.take(k + 1).drop_last() == mv.take(k));
            assert(mv.take(k + 1).last() == contact_view(o));
            assert(rest@ =~= marked.skip(k + 1));
        }
        let ghost before = contact_views(objects@);
        if survives_contact(&o.kind, o.collected) {
            objects.push(o);
            assert(contact_views(objects@) =~= before.push(contact_view(o)));
        }
        proof {
            k = k + 1;
        }
    }
    assert(k == marked.len());
    assert(mv.take(k) == mv);

    let ghost lv = contact_views(loot@);
    let ghost kv = contact_views(objects@);
    let ghost mut n: int = 0;
    assert(loot@.skip(0) == loot@);
    while loot.len() > 0
        invariant
            lv.len() == n + loot@.len(),
            0 <= n <= lv.len(),
            forall|m: int| 0 <= m < loot@.len() ==> contact_view(#[trigger] loot@[m]) == lv[n + m],
            contact_views(objects@) == kv + lv.take(n),
        decreases loot.len(),
    {
        let o = loot.remove(0);
        let ghost before = contact_views(objects@);
        assert(contact_view(o) == lv[n]);
        objects.push(o);
        proof {
            assert(contact_views(objects@) =~= before.push(contact_view(o)));
            assert(lv.take(n + 1) =~= lv.take(n).push(lv[n]));
            assert forall|m: int| 0 <= m < loot@.len() implies contact_view(#[trigger] loot@[m]) == lv[n + 1 + m] by {
                assert(contact_view(loot@[m]) == lv[n + 1 + m]);
            }
            n = n + 1;
        }
    }
    assert(lv.take(n) == lv);
    out
}

/// A prefix of objects that fits fits as well.
proof fn lemma_contact_fits_prefix(p: Player, objs: Seq<ContactObject>, n: int)
    requires
        0 <= n <= objs.len(),
        contact_fits(p, objs),
    ensures
        contact_fits(p, objs.take(n)),
    decreases objs.len() - n,
{
    if n < objs.len() {
        lemma_contact_fits_prefix(p, objs, n + 1);
        assert(objs.take(n + 1).drop_last() == objs.take(n));
    } else {
        assert(objs.take(n) == objs);
    }
}

/// Whether an object stays on the map after the contacts: collected objects go away, but
/// opened chests and collected heart pieces stay.
pub fn survives_contact(kind: &ObjectKind, collected: bool) -> (b: bool)
    ensures
        b == (!collected || kind@ is Chest || kind@ is HeartPiece),
{
    !collected || match kind {
        ObjectKind::Chest { .. } | ObjectKind::HeartPiece => true,
        _ => false,
    }
}

// ------------------------------------------------------------------
// Blows
// ------------------------------------------------------------------

/// The player is touched by a living enemy whose contact does `damage`: the player takes the
/// blow (see [`Player::take_hit`]) and the contact calls for the sound [`contact_cue`] picks.
pub fn enemy_contact(player: &mut Player, damage: i32) -> (r: (HitOutcome, ContactCue))
    requires
        old(player).death_state == DeathState::Alive && !old(player).is_invincible ==> i32::MIN
            <= old(player).hp - damage <= i32::MAX,
    ensures
        (r.0, *final(player)) == player_after_hit(*old(player), damage),
        r.1 == spec_contact_cue(old(player).death_state, final(player).death_state, old(player).is_invincible),
{
    let before = player.death_state;
    let was_invincible = player.is_invincible;
    let o = player.take_hit(damage);
    let cue = contact_cue(before, player.death_state, was_invincible);
    (o, cue)
}

/// `rand::random_ratio`: `true` with a chance of `numerator` in `denominator`. Which value
/// comes is left to chance; the crate's documentation guarantees `false` for a numerator of
/// 0 and `true` for a numerator equal to the denominator, and the call panics unless
/// `0 < denominator` and `numerator <= denominator`.
#[verifier::external_body]
fn random_ratio(numerator: u32, denominator: u32) -> (r: bool)
    requires
        0 < denominator,
        numerator <= denominator,
    ensures
        numerator == 0 ==> !r,
        numerator == denominator ==> r,
{
    rand::random_ratio(numerator, denominator)
}

/// `rand::random_range` over `0..n`: a value of the range, left to chance. The call panics on
/// an empty range.
#[verifier::external_body]
fn random_below(n: u32) -> (r: u32)
    requires
        0 < n,
    ensures
        r < n,
{
    rand::random_range(0..n)
}

/// The ruby of a roll of 0 to 99: green below 70, blue below 90, red from 90 on.
pub open spec fn spec_ruby_for_roll(roll: u32) -> RubyKind {
    if roll < 70 {
        RubyKind::Green
    } else if roll < 90 {
        RubyKind::Blue
    } else {
        RubyKind::Red
    }
}

pub fn ruby_for_roll(roll: u32) -> (k: RubyKind)
    ensures
        k == spec_ruby_for_roll(roll),
{
    if roll < 70 {
        RubyKind::Green
    } else if roll < 90 {
        RubyKind::Blue
    } else {
        RubyKind::Red
    }
}

/// A ruby of a colour drawn at random: green 70 times in 100, blue 20, red 10.
pub fn random_ruby_kind() -> (k: RubyKind)
    ensures
        exists|roll: u32| roll < 100 && k == spec_ruby_for_roll(roll),
{
    let roll = random_below(100);
    ruby_for_roll(roll)
}

/// Whether a ruby drops, with a chance of `chance_percent` in 100.
pub fn should_drop_ruby(chance_percent: u32) -> (b: bool)
    requires
        chance_percent <= 100,
    ensures
        chance_percent == 0 ==> !b,
        chance_percent == 100 ==> b,
{
    random_ratio(chance_percent, 100)
}

/// What drops for a drawn coin `dropped` and a drawn roll of 0 to 99: nothing when the coin
/// says no, else the ruby of the roll.
pub open spec fn spec_drop_for_draw(dropped: bool, roll: u32) -> Option<RubyKind> {
    if dropped {
        Some(spec_ruby_for_roll(roll))
    } else {
        None
    }
}

/// What drops for a drawn coin and roll (see [`spec_drop_for_draw`]).
pub fn drop_for_draw(dropped: bool, roll: u32) -> (r: Option<RubyKind>)
    ensures
        r == spec_drop_for_draw(dropped, roll),
{
    if dropped {
        Some(ruby_for_roll(roll))
    } else {
        None
    }
}

/// Whether a drawn coin could say "drop" with a chance of `chance_percent` in 100: never at 0,
/// always at 100, either way in between.
pub open spec fn coin_allowed(chance_percent: u32, dropped: bool) -> bool {
    &&& chance_percent == 0 ==> !dropped
    &&& chance_percent == 100 ==> dropped
}

/// The ruby that drops, with a chance of `chance_percent` in 100, where an enemy dies or a
/// bush is cut: a coin is drawn by [`should_drop_ruby`], and when it says so, a roll of 0 to 99
/// picks the colour (see [`drop_for_draw`]).
pub fn ruby_drop(chance_percent: u32) -> (r: Option<RubyKind>)
    requires
        chance_percent <= 100,
    ensures
        exists|dropped: bool, roll: u32|
            coin_allowed(chance_percent, dropped) && roll < 100 && r == #[trigger] spec_drop_for_draw(dropped, roll),
{
    let dropped = should_drop_ruby(chance_percent);
    let roll: u32 = if dropped {
        random_below(100)
    } else {
        0
    };
    drop_for_draw(dropped, roll)
}

/// The chance, in 100, that a killed enemy leaves a ruby.
pub const ENEMY_DROP_PERCENT: u32 = 50;

/// The chance, in 100, that a cut bush leaves a ruby.
pub const BUSH_DROP_PERCENT: u32 = 35;

/// What a sword stroke did to a living enemy that it reached.
pub struct Strike {
    pub outcome: HitOutcome,
    pub cue: AttackCue,
    /// The ruby left where the enemy died, if one drops.
    pub drop: Option<RubyKind>,
}

/// A sword stroke of `damage` reaches the living enemy `enemy`: the enemy takes the blow (see
/// [`Enemy::take_hit`]); the stroke calls for the death sound when it kills and the hit sound
/// otherwise; a killed enemy leaves a ruby half of the time.
pub fn strike_enemy(enemy: &mut Enemy, damage: i32) -> (s: Strike)
    requires
        old(enemy).is_alive,
        !old(enemy).is_invincible ==> i32::MIN <= old(enemy).hp - damage <= i32::MAX,
    ensures
        (s.outcome, *final(enemy)) == enemy_after_hit(*old(enemy), damage),
        s.cue == (if s.outcome == HitOutcome::Killed {
            AttackCue::EnemyDeath
        } else {
            AttackCue::EnemyHit
        }),
        s.outcome != HitOutcome::Killed ==> s.drop is None,
        s.outcome == HitOutcome::Killed ==> exists|dropped: bool, roll: u32|
            coin_allowed(ENEMY_DROP_PERCENT, dropped) && roll < 100 && s.drop == #[trigger] spec_drop_for_draw(
                dropped,
                roll,
            ),
{
    let outcome = enemy.take_hit(damage);
    let cue = attack_cue(outcome);
    let drop = if outcome == HitOutcome::Killed {
        ruby_drop(ENEMY_DROP_PERCENT)
    } else {
        None
    };
    Strike { outcome, cue, drop }
}

} // verus!
