use zelda_like::enemy_type::EnemyKind;
use zelda_like::map_loader::{KeyKind, LootKind, ObjectKind, SpawnEntry, SpawnKind};
use zelda_like::map_utils::{apply_collected, persistent, save_collected, CollectedObjects, PlacedObject};
use zelda_like::player::Player;
use zelda_like::run::{enemy_spawns, entry_spawn, locked_message, player_spawn, touch_door};
use zelda_like::save::{list_slots, slot_path, SaveData};

fn transition(map: &str) -> ObjectKind {
    ObjectKind::Transition { target_map: map.to_string(), target_entry: "e".to_string() }
}

fn placed(kind: ObjectKind, x: i32, y: i32, collected: bool) -> PlacedObject {
    PlacedObject { kind, x, y, collected }
}

fn sample_objects() -> Vec<PlacedObject> {
    vec![
        placed(ObjectKind::HeartPiece, 10, 20, true),
        placed(ObjectKind::Chest { contains: LootKind::Key }, 30, 40, false),
        placed(transition("cave"), 50, 60, true),
        placed(ObjectKind::Heart, 70, 80, true),
        placed(ObjectKind::Chest { contains: LootKind::Ruby }, 90, 100, true),
    ]
}

fn fresh(objs: &[PlacedObject]) -> Vec<PlacedObject> {
    objs.iter().map(|o| placed(o.kind.clone(), o.x, o.y, false)).collect()
}

fn flags(objs: &[PlacedObject]) -> Vec<bool> {
    objs.iter().map(|o| o.collected).collect()
}

#[test]
fn collected_records() {
    let mut c = CollectedObjects::new();
    assert!(c.get("a").is_none());
    c.insert("a".to_string(), vec![(1, 2)]);
    c.insert("b".to_string(), vec![(3, 4), (5, 6)]);
    c.insert("a".to_string(), vec![(7, 8)]);
    assert_eq!(c.get("a"), Some(&vec![(7, 8)]));
    assert_eq!(c.get("b"), Some(&vec![(3, 4), (5, 6)]));
    assert!(c.get("c").is_none());
    let copy = c.copy();
    assert_eq!(copy.get("a"), Some(&vec![(7, 8)]));
    let mut pairs = c.to_pairs();
    pairs.sort();
    assert_eq!(pairs, vec![("a".to_string(), vec![(7, 8)]), ("b".to_string(), vec![(3, 4), (5, 6)])]);
}

#[test]
fn only_heart_pieces_chests_and_transitions_are_saved() {
    assert!(persistent(&ObjectKind::HeartPiece));
    assert!(persistent(&ObjectKind::Chest { contains: LootKind::Heart }));
    assert!(persistent(&transition("x")));
    assert!(!persistent(&ObjectKind::Heart));
    assert!(!persistent(&ObjectKind::Key));
    assert!(!persistent(&ObjectKind::Bush));

    let mut c = CollectedObjects::new();
    save_collected(&sample_objects(), "donjon", &mut c);
    assert_eq!(c.get("donjon"), Some(&vec![(10, 20), (50, 60), (90, 100)]));
}

#[test]
fn save_then_restore_on_a_fresh_map() {
    let objs = sample_objects();
    let mut c = CollectedObjects::new();
    c.insert("ailleurs".to_string(), vec![(1, 1)]);
    save_collected(&objs, "donjon", &mut c);
    let mut again = fresh(&objs);
    apply_collected(&mut again, "donjon", &c);
    assert_eq!(flags(&again), vec![true, false, true, false, true]);
    assert_eq!(c.get("ailleurs"), Some(&vec![(1, 1)]));

    let mut other_map = fresh(&objs);
    apply_collected(&mut other_map, "ailleurs", &c);
    assert_eq!(flags(&other_map), vec![false, false, false, false, false]);
}

#[test]
fn save_then_apply_changes_nothing() {
    let objs = sample_objects();
    let mut c = CollectedObjects::new();
    save_collected(&objs, "donjon", &mut c);
    let mut same: Vec<PlacedObject> = objs.iter().map(|o| placed(o.kind.clone(), o.x, o.y, o.collected)).collect();
    apply_collected(&mut same, "donjon", &c);
    assert_eq!(flags(&same), flags(&objs));
}

#[test]
fn applying_twice_is_applying_once() {
    let mut c = CollectedObjects::new();
    c.insert("m".to_string(), vec![(30, 40), (70, 80)]);
    let mut once = fresh(&sample_objects());
    apply_collected(&mut once, "m", &c);
    let mut twice = fresh(&sample_objects());
    apply_collected(&mut twice, "m", &c);
    apply_collected(&mut twice, "m", &c);
    assert_eq!(flags(&once), vec![false, true, false, false, false]);
    assert_eq!(flags(&once), flags(&twice));
}

#[test]
fn save_slots() {
    assert_eq!(slot_path(2), "saves/save_2.json");
    assert_eq!(slot_path(10), "saves/save_10.json");
    let mut p = Player::new();
    p.rubies = 12;
    p.keys_gold = 1;
    let mut c = CollectedObjects::new();
    c.insert("m".to_string(), vec![(1, 2)]);
    let d = SaveData::capture(1, &p, "village", &c);
    assert_eq!(d.slot, 1);
    assert_eq!(d.current_map, "village");
    assert_eq!(d.rubies, 12);
    assert_eq!(d.collected_objects.get("m"), Some(&vec![(1, 2)]));
    let slots = list_slots(Ok(Some(d)), Err("fichier illisible".to_string()), Ok(None));
    assert!(slots[0].is_some());
    assert!(slots[1].is_none());
    assert!(slots[2].is_none());
}

#[test]
fn restoring_a_save_gives_the_player_back() {
    let mut p = Player::new();
    p.hp = 3;
    p.max_hp = 8;
    p.rubies = 40;
    p.keys_basic = 2;
    p.keys_boss = 1;
    let d = SaveData::capture(3, &p, "m", &CollectedObjects::new());
    let mut q = Player::new();
    q.heart_pieces = 2;
    d.restore_player(&mut q);
    assert_eq!((q.hp, q.max_hp, q.rubies, q.keys_basic, q.keys_boss), (3, 8, 40, 2, 1));
    assert_eq!(q.heart_pieces, 2);
    let mut same = p;
    d.restore_player(&mut same);
    assert_eq!((same.hp, same.max_hp, same.rubies, same.keys_basic), (p.hp, p.max_hp, p.rubies, p.keys_basic));
}

#[test]
fn doors() {
    let mut p = Player::new();
    let mut opened = false;
    assert!(touch_door(&mut p, &mut opened, None));
    assert!(opened);

    let mut opened = false;
    assert!(!touch_door(&mut p, &mut opened, Some(KeyKind::Silver)));
    assert!(!opened);
    p.keys_silver = 2;
    assert!(touch_door(&mut p, &mut opened, Some(KeyKind::Silver)));
    assert!(opened);
    assert_eq!(p.keys_silver, 1);
    assert!(touch_door(&mut p, &mut opened, Some(KeyKind::Silver)));
    assert_eq!(p.keys_silver, 1);

    assert_eq!(locked_message(KeyKind::Basic), "Cette porte est verrouillée.\nIl te faut une clé.");
    assert_eq!(locked_message(KeyKind::Silver), "Cette porte requiert une clé d'argent.");
    assert_eq!(locked_message(KeyKind::Gold), "Cette porte requiert une clé d'or.");
    assert_eq!(locked_message(KeyKind::Boss), "Cette porte mène au boss.\nIl te faut la clé du donjon.");
}

fn spawn(name: &str, kind: SpawnKind) -> SpawnEntry {
    SpawnEntry { x: Some("0".to_string()), y: None, kind, name: name.to_string() }
}

#[test]
fn spawn_points() {
    let spawns = vec![
        spawn("s1", SpawnKind::Enemy(EnemyKind::Slime)),
        spawn("start", SpawnKind::Player),
        spawn("porte", SpawnKind::Player),
        spawn("k", SpawnKind::Enemy(EnemyKind::Knight)),
    ];
    assert_eq!(player_spawn(&spawns), Some(1));
    assert_eq!(entry_spawn(&spawns, "porte"), Some(2));
    assert_eq!(entry_spawn(&spawns, "k"), Some(3));
    assert_eq!(entry_spawn(&spawns, "nulle part"), Some(1));
    assert_eq!(enemy_spawns(&spawns), vec![(0, EnemyKind::Slime), (3, EnemyKind::Knight)]);
    let none = vec![spawn("s", SpawnKind::Enemy(EnemyKind::Goblin))];
    assert_eq!(player_spawn(&none), None);
    assert_eq!(entry_spawn(&none, "x"), None);
}
