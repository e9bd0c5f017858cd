use zelda_like::combat::{drop_for_draw, enemy_contact, ruby_drop, ruby_for_roll, should_drop_ruby, strike_enemy};
use zelda_like::npc::next_waypoint;
use zelda_like::combat::{attack_cue, contact_cue, resolve_object_contact, survives_contact, AttackCue, ContactCue, ContactObject};
use zelda_like::enemy::Enemy;
use zelda_like::enemy_type::EnemyKind;
use zelda_like::map_loader::{KeyKind, LootKind, ObjectKind, RubyKind};
use zelda_like::player::{
    capped_frame, direction_row, facing, next_anim_frame, spin_direction, DeathState, Direction, HitOutcome,
    PickupSound, Player, PlayerAudioEvents, ATTACK_DAMAGE, PLAYER_MAX_HP,
};

#[test]
fn new_player() {
    let p = Player::new();
    assert_eq!(p.hp, PLAYER_MAX_HP);
    assert_eq!(p.max_hp, 6);
    assert!(p.is_alive());
    assert!(!p.is_done());
    assert_eq!(p.rubies, 0);
    assert_eq!(p.attack_damage(), ATTACK_DAMAGE);
    let e = PlayerAudioEvents::default();
    assert!(!e.sword_swing && !e.got_hit && !e.death_start);
}

#[test]
fn hits_hurt_then_kill() {
    let mut p = Player::new();
    assert_eq!(p.take_hit(2), HitOutcome::Hurt);
    assert_eq!(p.hp, 4);
    assert!(p.is_invincible);
    assert_eq!(p.take_hit(2), HitOutcome::Ignored);
    assert_eq!(p.hp, 4);
    p.is_invincible = false;
    assert_eq!(p.take_hit(10), HitOutcome::Killed);
    assert_eq!(p.hp, 0);
    assert_eq!(p.death_state, DeathState::Spinning);
    assert!(!p.is_alive());
    p.is_invincible = false;
    assert_eq!(p.take_hit(1), HitOutcome::Ignored);
    assert_eq!(p.hp, 0);
}

#[test]
fn health_stays_in_range() {
    let mut p = Player::new();
    for _ in 0..5 {
        p.is_invincible = false;
        p.take_hit(1);
        assert!(0 <= p.hp && p.hp <= p.max_hp);
    }
    p.pick_up(&ObjectKind::Heart);
    p.pick_up(&ObjectKind::Heart);
    p.pick_up(&ObjectKind::Heart);
    assert_eq!(p.hp, p.max_hp);
    p.pick_up(&ObjectKind::HeartPiece);
    assert_eq!(p.max_hp, 8);
    assert_eq!(p.hp, 8);
}

#[test]
fn pick_ups() {
    let mut p = Player::new();
    p.hp = 5;
    let r = p.pick_up(&ObjectKind::Heart);
    assert_eq!(p.hp, 6);
    assert!(r.taken && r.flash);
    assert_eq!(r.sound, Some(PickupSound::Heart));

    let r = p.pick_up(&ObjectKind::Ruby(RubyKind::Blue));
    assert_eq!(p.rubies, 5);
    assert_eq!(r.sound, Some(PickupSound::Ruby));
    p.pick_up(&ObjectKind::Ruby(RubyKind::Red));
    p.pick_up(&ObjectKind::Ruby(RubyKind::Green));
    assert_eq!(p.rubies, 16);

    let r = p.pick_up(&ObjectKind::Key);
    assert_eq!(p.keys_basic, 1);
    assert_eq!(r.sound, Some(PickupSound::Ruby));

    let r = p.pick_up(&ObjectKind::Chest { contains: LootKind::Key });
    assert!(r.taken && !r.flash);
    assert_eq!(r.sound, Some(PickupSound::Chest));
    assert_eq!(r.loot, Some(ObjectKind::Key));
    let r = p.pick_up(&ObjectKind::Chest { contains: LootKind::Ruby });
    assert_eq!(r.loot, Some(ObjectKind::Ruby(RubyKind::Green)));
    assert_eq!(p.keys_basic, 1);

    let before = p;
    let r = p.pick_up(&ObjectKind::Transition { target_map: "a".to_string(), target_entry: "b".to_string() });
    assert!(!r.taken && !r.flash && r.sound.is_none() && r.loot.is_none());
    let r = p.pick_up(&ObjectKind::Bush);
    assert!(!r.taken);
    assert_eq!(p.hp, before.hp);
    assert_eq!(p.rubies, before.rubies);

    p.hp = 3;
    p.pick_up(&ObjectKind::HeartPiece);
    assert_eq!(p.max_hp, 8);
    assert_eq!(p.hp, 5);
}

#[test]
fn keys_are_used_one_at_a_time() {
    let mut p = Player::new();
    assert!(!p.has_key(KeyKind::Silver));
    p.use_key(KeyKind::Silver);
    assert_eq!(p.keys_silver, 0);
    p.keys_silver = 2;
    p.keys_gold = 1;
    assert!(p.has_key(KeyKind::Silver));
    p.use_key(KeyKind::Silver);
    assert_eq!(p.keys_silver, 1);
    assert_eq!(p.keys_gold, 1);
    p.use_key(KeyKind::Gold);
    assert!(!p.has_key(KeyKind::Gold));
}

#[test]
fn facing_and_animation() {
    assert_eq!(facing(true, false, false, false, Direction::Down), (Direction::Up, true));
    assert_eq!(facing(true, false, true, false, Direction::Down), (Direction::Up, true));
    assert_eq!(facing(false, false, true, false, Direction::Down), (Direction::Left, true));
    assert_eq!(facing(false, false, false, true, Direction::Up), (Direction::Right, true));
    assert_eq!(facing(true, true, false, false, Direction::Left), (Direction::Left, false));
    assert_eq!(facing(true, true, true, true, Direction::Right), (Direction::Right, false));
    assert_eq!(facing(false, true, false, true, Direction::Up), (Direction::Down, true));
    assert_eq!(next_anim_frame(0), 1);
    assert_eq!(next_anim_frame(7), 0);
    assert_eq!(capped_frame(2, 4), 2);
    assert_eq!(capped_frame(9, 4), 3);
    assert_eq!(spin_direction(0), Some(Direction::Up));
    assert_eq!(spin_direction(3), Some(Direction::Right));
    assert_eq!(spin_direction(6), Some(Direction::Down));
    assert_eq!(spin_direction(8), None);
    assert_eq!(direction_row(Direction::Down), 0);
    assert_eq!(direction_row(Direction::Left), 1);
    assert_eq!(direction_row(Direction::Right), 2);
    assert_eq!(direction_row(Direction::Up), 3);
}

#[test]
fn enemies() {
    let mut e = Enemy::new(EnemyKind::Goblin);
    assert_eq!(e.hp, 4);
    assert!(e.is_alive);
    assert_eq!(e.take_hit(2), HitOutcome::Hurt);
    assert_eq!(e.hp, 2);
    assert!(e.is_invincible && e.is_alive);
    assert_eq!(e.take_hit(2), HitOutcome::Ignored);
    e.is_invincible = false;
    assert_eq!(e.take_hit(5), HitOutcome::Killed);
    assert_eq!(e.hp, 0);
    assert!(!e.is_alive);
    assert_eq!(e.take_hit(1), HitOutcome::Ignored);

    let mut k = Enemy::new(EnemyKind::Knight);
    assert_eq!(k.contact_damage(), 2);
    k.take_damage(3);
    assert_eq!(k.hp, 5);
    assert!(k.is_alive);
    k.take_damage(5);
    assert_eq!(k.hp, 0);
    assert!(!k.is_alive);
    assert_eq!(Enemy::new(EnemyKind::Slime).contact_damage(), 1);
    assert_eq!(EnemyKind::Slime.max_hp(), 2);
    assert_eq!(EnemyKind::Knight.max_hp(), 8);
    assert_eq!(EnemyKind::Goblin.sprite_row(), 1);
}

#[test]
fn enemy_alive_while_it_has_hit_points() {
    let mut e = Enemy::new(EnemyKind::Slime);
    assert_eq!(e.is_alive, e.hp > 0);
    e.take_damage(1);
    assert_eq!(e.is_alive, e.hp > 0);
    e.take_damage(1);
    assert_eq!(e.is_alive, e.hp > 0);
    assert!(!e.is_alive);
}

fn contact(kind: ObjectKind, collected: bool, near: bool, origin: usize) -> ContactObject {
    ContactObject { kind, collected, near, origin, dropped: false }
}

fn summary(objs: &[ContactObject]) -> Vec<(ObjectKind, bool, usize, bool)> {
    objs.iter().map(|o| (o.kind.clone(), o.collected, o.origin, o.dropped)).collect()
}

#[test]
fn contact_with_objects() {
    let mut p = Player::new();
    p.hp = 3;
    let transition = ObjectKind::Transition { target_map: "m".to_string(), target_entry: "e".to_string() };
    let mut objs = vec![
        contact(ObjectKind::Heart, false, true, 0),
        contact(ObjectKind::Ruby(RubyKind::Red), false, false, 1),
        contact(ObjectKind::Chest { contains: LootKind::Heart }, false, true, 2),
        contact(transition.clone(), false, true, 3),
        contact(ObjectKind::Key, true, true, 4),
        contact(ObjectKind::Bush, false, true, 5),
    ];
    let out = resolve_object_contact(&mut p, &mut objs);
    assert_eq!(p.hp, 5);
    assert_eq!(p.rubies, 0);
    assert_eq!(p.keys_basic, 0);
    assert!(out.collected);
    assert_eq!(out.sounds, vec![PickupSound::Heart, PickupSound::Chest]);
    assert_eq!(
        summary(&objs),
        vec![
            (ObjectKind::Ruby(RubyKind::Red), false, 1, false),
            (ObjectKind::Chest { contains: LootKind::Heart }, true, 2, false),
            (transition, false, 3, false),
            (ObjectKind::Bush, false, 5, false),
            (ObjectKind::Heart, false, 2, true),
        ]
    );
}

#[test]
fn a_heart_picked_up_leaves_the_map() {
    let mut p = Player::new();
    p.hp = 5;
    let mut objs = vec![contact(ObjectKind::Heart, false, true, 0)];
    let out = resolve_object_contact(&mut p, &mut objs);
    assert_eq!(p.hp, 6);
    assert!(objs.is_empty());
    assert!(out.collected);
    assert_eq!(out.sounds, vec![PickupSound::Heart]);
}

#[test]
fn a_ruby_out_of_reach_stays() {
    let mut p = Player::new();
    let mut objs = vec![
        contact(ObjectKind::Ruby(RubyKind::Blue), false, true, 0),
        contact(ObjectKind::Ruby(RubyKind::Red), false, false, 1),
    ];
    let out = resolve_object_contact(&mut p, &mut objs);
    assert!(out.collected);
    assert_eq!(p.rubies, 5);
    assert_eq!(summary(&objs), vec![(ObjectKind::Ruby(RubyKind::Red), false, 1, false)]);
    assert_eq!(out.sounds, vec![PickupSound::Ruby]);
}

#[test]
fn contact_with_a_chest_alone_does_not_flash() {
    let mut p = Player::new();
    let before = p;
    let mut objs = vec![contact(ObjectKind::Chest { contains: LootKind::Key }, false, true, 0)];
    let out = resolve_object_contact(&mut p, &mut objs);
    assert!(!out.collected);
    assert_eq!(out.sounds, vec![PickupSound::Chest]);
    assert_eq!((p.hp, p.rubies, p.keys_basic), (before.hp, before.rubies, before.keys_basic));
    assert_eq!(
        summary(&objs),
        vec![(ObjectKind::Chest { contains: LootKind::Key }, true, 0, false), (ObjectKind::Key, false, 0, true)]
    );
}

#[test]
fn cues() {
    assert_eq!(contact_cue(DeathState::Alive, DeathState::Spinning, false), ContactCue::PlayerDeath);
    assert_eq!(contact_cue(DeathState::Alive, DeathState::Alive, false), ContactCue::PlayerHit);
    assert_eq!(contact_cue(DeathState::Alive, DeathState::Alive, true), ContactCue::Silent);
    assert_eq!(attack_cue(HitOutcome::Killed), AttackCue::EnemyDeath);
    assert_eq!(attack_cue(HitOutcome::Hurt), AttackCue::EnemyHit);
    assert!(survives_contact(&ObjectKind::Heart, false));
    assert!(!survives_contact(&ObjectKind::Heart, true));
    assert!(survives_contact(&ObjectKind::Chest { contains: LootKind::Key }, true));
    assert!(survives_contact(&ObjectKind::HeartPiece, true));
}

#[test]
fn blows_and_drops() {
    let mut p = Player::new();
    assert_eq!(enemy_contact(&mut p, 2), (HitOutcome::Hurt, ContactCue::PlayerHit));
    assert_eq!(p.hp, 4);
    assert_eq!(enemy_contact(&mut p, 2), (HitOutcome::Ignored, ContactCue::Silent));
    p.is_invincible = false;
    assert_eq!(enemy_contact(&mut p, 9), (HitOutcome::Killed, ContactCue::PlayerDeath));

    assert_eq!(ruby_for_roll(0), RubyKind::Green);
    assert_eq!(ruby_for_roll(69), RubyKind::Green);
    assert_eq!(ruby_for_roll(70), RubyKind::Blue);
    assert_eq!(ruby_for_roll(89), RubyKind::Blue);
    assert_eq!(ruby_for_roll(90), RubyKind::Red);
    assert_eq!(ruby_for_roll(99), RubyKind::Red);
    assert!(!should_drop_ruby(0));
    assert!(should_drop_ruby(100));
    assert_eq!(ruby_drop(0), None);
    assert!(ruby_drop(100).is_some());

    let mut e = Enemy::new(EnemyKind::Slime);
    let s = strike_enemy(&mut e, 1);
    assert_eq!(s.outcome, HitOutcome::Hurt);
    assert_eq!(s.cue, AttackCue::EnemyHit);
    assert!(s.drop.is_none());
    let s = strike_enemy(&mut e, 1);
    assert_eq!(s.outcome, HitOutcome::Ignored);
    assert_eq!(s.cue, AttackCue::EnemyHit);
    e.is_invincible = false;
    let s = strike_enemy(&mut e, 5);
    assert_eq!(s.outcome, HitOutcome::Killed);
    assert_eq!(s.cue, AttackCue::EnemyDeath);
    assert!(!e.is_alive);
}

#[test]
fn enemy_sheet() {
    assert_eq!(zelda_like::enemy_type::enemy_sprite_origin(EnemyKind::Slime, 0, 0), (0, 0));
    assert_eq!(zelda_like::enemy_type::enemy_sprite_origin(EnemyKind::Goblin, 3, 2), (44, 196));
    assert_eq!(zelda_like::enemy_type::enemy_sprite_origin(EnemyKind::Knight, 1, 3), (66, 252));
}

#[test]
fn random_rubies_come_in_every_colour() {
    let mut seen = [false; 3];
    for _ in 0..2000 {
        match zelda_like::combat::random_ruby_kind() {
            RubyKind::Green => seen[0] = true,
            RubyKind::Blue => seen[1] = true,
            RubyKind::Red => seen[2] = true,
        }
    }
    assert_eq!(seen, [true, true, true]);
    let drops = (0..2000).filter(|_| zelda_like::combat::should_drop_ruby(50)).count();
    assert!(drops > 0 && drops < 2000);
}

#[test]
fn drop_follows_the_drawn_coin_and_roll() {
    assert_eq!(drop_for_draw(false, 95), None);
    assert_eq!(drop_for_draw(true, 95), Some(RubyKind::Red));
    assert_eq!(drop_for_draw(true, 75), Some(RubyKind::Blue));
    assert_eq!(drop_for_draw(true, 10), Some(RubyKind::Green));
}

#[test]
fn patrol_walks_back_and_forth() {
    assert_eq!(next_waypoint(0, true, 3), (1, true));
    assert_eq!(next_waypoint(1, true, 3), (2, true));
    assert_eq!(next_waypoint(2, true, 3), (1, false));
    assert_eq!(next_waypoint(1, false, 3), (0, false));
    assert_eq!(next_waypoint(0, false, 3), (1, true));
    assert_eq!(next_waypoint(1, true, 2), (0, false));
}
