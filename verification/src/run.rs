use vstd::prelude::*;

use crate::enemy_type::EnemyKind;
use crate::map_loader::{KeyKind, SpawnEntry, SpawnKind};
use crate::player::{key_count, key_used, Player};

verus! {

// ------------------------------------------------------------------
// Doors
// ------------------------------------------------------------------

/// The message shown at a door that needs a key of kind `k` which the player lacks.
pub open spec fn spec_locked_message(k: KeyKind) -> Seq<char> {
    match k {
        KeyKind::Basic => "Cette porte est verrouillée.\nIl te faut une clé."@,
        KeyKind::Silver => "Cette porte requiert une clé d'argent."@,
        KeyKind::Gold => "Cette porte requiert une clé d'or."@,
        KeyKind::Boss => "Cette porte mène au boss.\nIl te faut la clé du donjon."@,
    }
}

/// The message shown at a door that needs a key of kind `k` which the player lacks.
pub fn locked_message(k: KeyKind) -> (m: &'static str)
    ensures
        m@ == spec_locked_message(k),
{
    match k {
        KeyKind::Basic => "Cette porte est verrouillée.\nIl te faut une clé.",
        KeyKind::Silver => "Cette porte requiert une clé d'argent.",
        KeyKind::Gold => "Cette porte requiert une clé d'or.",
        KeyKind::Boss => "Cette porte mène au boss.\nIl te faut la clé du donjon.",
    }
}

/// Whether a door lets the player through: an unlocked door always does; a door locked with
/// a key of kind `k` does once it has been opened, or when the player holds such a key.
pub open spec fn door_opens(p: Player, opened: bool, locked: Option<KeyKind>) -> bool {
    match locked {
        None => true,
        Some(k) => opened || key_count(p, k) > 0,
    }
}

/// The player after touching a door: opening a locked door for the first time uses up one
/// key of its kind; nothing else changes.
pub open spec fn after_door(p: Player, opened: bool, locked: Option<KeyKind>) -> Player {
    match locked {
        Some(k) => if !opened && key_count(p, k) > 0 {
            key_used(p, k)
        } else {
            p
        },
        None => p,
    }
}

/// The player touches a door (a transition object); `opened` tells whether the door is
/// already open (the object is collected) and `locked` the kind of key it needs, if any.
/// Returns whether the player goes through (the transition starts); when not, the door stays
/// shut and [`locked_message`] tells why.
pub fn touch_door(player: &mut Player, opened: &mut bool, locked: Option<KeyKind>) -> (opens: bool)
    ensures
        opens == door_opens(*old(player), *old(opened), locked),
        *final(player) == after_door(*old(player), *old(opened), locked),
        *final(opened) == (*old(opened) || opens),
{
    match locked {
        None => {
            *opened = true;
            true
        },
        Some(k) => {
            if *opened || player.has_key(k) {
                if !*opened {
                    player.use_key(k);
                    *opened = true;
                }
                true
            } else {
                false
            }
        },
    }
}

/// Law: a key opens a door once and for all. The first opening of a locked door uses up
/// exactly one key of its kind and no other key; from then on the door lets the player
/// through without using any key.
pub proof fn law_door_key_used_once(p: Player, opened: bool, locked: Option<KeyKind>, other: KeyKind)
    ensures
        door_opens(p, opened, locked) ==> door_opens(after_door(p, opened, locked), true, locked)
            && after_door(after_door(p, opened, locked), true, locked) == after_door(p, opened, locked),
        (locked matches Some(k) && !opened && key_count(p, k) > 0) ==> key_count(
            after_door(p, opened, locked),
            locked.unwrap(),
        ) == key_count(p, locked.unwrap()) - 1,
        (locked matches Some(k) && other != k) ==> key_count(after_door(p, opened, locked), other)
            == key_count(p, other),
        !door_opens(p, opened, locked) ==> after_door(p, opened, locked) == p,
{
}

// ------------------------------------------------------------------
// Spawn points
// ------------------------------------------------------------------

/// `i` is the first spawn point named `name`.
pub open spec fn is_first_named(s: Seq<SpawnEntry>, name: Seq<char>, i: int) -> bool {
    &&& 0 <= i < s.len()
    &&& s[i].name@ == name
    &&& forall|j: int| 0 <= j < i ==> (#[trigger] s[j]).name@ != name
}

/// Some spawn point is named `name`.
pub open spec fn has_named(s: Seq<SpawnEntry>, name: Seq<char>) -> bool {
    exists|j: int| 0 <= j < s.len() && (#[trigger] s[j]).name@ == name
}

/// `i` is the first spawn point of the player.
pub open spec fn is_first_player(s: Seq<SpawnEntry>, i: int) -> bool {
    &&& 0 <= i < s.len()
    &&& s[i].kind == SpawnKind::Player
    &&& forall|j: int| 0 <= j < i ==> (#[trigger] s[j]).kind != SpawnKind::Player
}

/// Some spawn point is the player's.
pub open spec fn has_player(s: Seq<SpawnEntry>) -> bool {
    exists|j: int| 0 <= j < s.len() && (#[trigger] s[j]).kind == SpawnKind::Player
}

/// The first spawn point of the player, where a game starts.
pub fn player_spawn(spawns: &[SpawnEntry]) -> (r: Option<usize>)
    ensures
        match r {
            Some(i) => is_first_player(spawns@, i as int),
            None => !has_player(spawns@),
        },
{
    let mut i: usize = 0;
    while i < spawns.len()
        invariant
            0 <= i <= spawns@.len(),
            forall|j: int| 0 <= j < i ==> (#[trigger] spawns@[j]).kind != SpawnKind::Player,
        decreases spawns.len() - i,
    {
        if spawns[i].kind == SpawnKind::Player {
            return Some(i);
        }
        i = i + 1;
    }
    None
}

/// Where the player enters a map through a transition towards `target_entry`: the first spawn
/// point of that name, or else the first spawn point of the player.
pub fn entry_spawn(spawns: &[SpawnEntry], target_entry: &str) -> (r: Option<usize>)
    ensures
        has_named(spawns@, target_entry@) ==> (r matches Some(i) && is_first_named(
            spawns@,
            target_entry@,
            i as int,
        )),
        !has_named(spawns@, target_entry@) ==> match r {
            Some(i) => is_first_player(spawns@, i as int),
            None => !has_player(spawns@),
        },
{
    let mut i: usize = 0;
    while i < spawns.len()
        invariant
            0 <= i <= spawns@.len(),
            forall|j: int| 0 <= j < i ==> (#[trigger] spawns@[j]).name@ != target_entry@,
        decreases spawns.len() - i,
    {
        if crate::text::text_eq(spawns[i].name.as_str(), target_entry) {
            return Some(i);
        }
        i = i + 1;
    }
    player_spawn(spawns)
}

/// The enemies that spawn points of kinds `s` place, in order: the index of each enemy spawn
/// point and the kind of its enemy.
pub open spec fn enemy_spawns_of(s: Seq<SpawnKind>) -> Seq<(int, EnemyKind)>
    decreases s.len(),
{
    if s.len() == 0 {
        Seq::empty()
    } else {
        let before = enemy_spawns_of(s.drop_last());
        match s.last() {
            SpawnKind::Enemy(k) => before.push(((s.len() - 1) as int, k)),
            SpawnKind::Player => before,
        }
    }
}

pub open spec fn spawn_kinds(s: Seq<SpawnEntry>) -> Seq<SpawnKind> {
    s.map_values(|e: SpawnEntry| e.kind)
}

pub open spec fn indexed_view(r: Seq<(usize, EnemyKind)>) -> Seq<(int, EnemyKind)> {
    r.map_values(|e: (usize, EnemyKind)| (e.0 as int, e.1))
}

/// The enemies that the spawn points of a map place: for each enemy spawn point, in order,
/// its index and the kind of its enemy.
pub fn enemy_spawns(spawns: &[SpawnEntry]) -> (r: Vec<(usize, EnemyKind)>)
    ensures
        indexed_view(r@) == enemy_spawns_of(spawn_kinds(spawns@)),
{
    let ghost kinds = spawn_kinds(spawns@);
    let mut r: Vec<(usize, EnemyKind)> = Vec::new();
    let mut i: usize = 0;
    assert(kinds.take(0) == Seq::<SpawnKind>::empty());
    assert(indexed_view(r@) =~= Seq::<(int, EnemyKind)>::empty());
    while i < spawns.len()
        invariant
            0 <= i <= spawns@.len(),
            kinds == spawn_kinds(spawns@),
            indexed_view(r@) == enemy_spawns_of(kinds.take(i as int)),
        decreases spawns.len() - i,
    {
        let ghost cur = kinds.take(i + 1);
        assert(cur.drop_last() == kinds.take(i as int));
        assert(cur.last() == spawns@[i as int].kind);
        assert(cur.len() - 1 == i);
        match spawns[i].kind {
            SpawnKind::Enemy(k) => {
                let ghost before = indexed_view(r@);
                r.push((i, k));
                assert(indexed_view(r@) =~= before.push((i as int, k)));
            },
            SpawnKind::Player => {},
        }
        i = i + 1;
    }
    assert(kinds.take(kinds.len() as int) == kinds);
    r
}

} // verus!
