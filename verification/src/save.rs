use vstd::prelude::*;

use crate::map_utils::CollectedObjects;
use crate::player::Player;
use crate::text::{decimal, push_decimal, push_str};

verus! {

/// What a save slot holds.
pub struct SaveData {
    pub slot: u8,
    pub hp: i32,
    pub max_hp: i32,
    pub rubies: i32,
    pub keys_basic: u32,
    pub keys_silver: u32,
    pub keys_gold: u32,
    pub keys_boss: u32,
    pub current_map: String,
    pub collected_objects: CollectedObjects,
}

/// The file of a save slot: `saves/save_{slot}.json`.
pub open spec fn spec_slot_path(slot: u8) -> Seq<char> {
    "saves/save_"@ + decimal(slot as nat) + ".json"@
}

/// The file of a save slot.
pub fn slot_path(slot: u8) -> (p: String)
    ensures
        p@ == spec_slot_path(slot),
{
    let mut p = String::from_str("saves/save_");
    push_decimal(&mut p, slot as u64);
    push_str(&mut p, ".json");
    p
}

/// A slot that fails to load shows as empty.
pub open spec fn slot_shown(load: Result<Option<SaveData>, String>) -> Option<SaveData> {
    match load {
        Ok(d) => d,
        Err(_) => None,
    }
}

/// The contents of slots 1 to 3 from their three loads: a slot that fails to load shows as
/// empty.
pub fn list_slots(
    slot1: Result<Option<SaveData>, String>,
    slot2: Result<Option<SaveData>, String>,
    slot3: Result<Option<SaveData>, String>,
) -> (slots: [Option<SaveData>; 3])
    ensures
        slots@ == seq![slot_shown(slot1), slot_shown(slot2), slot_shown(slot3)],
{
    let a = match slot1 {
        Ok(d) => d,
        Err(_) => None,
    };
    let b = match slot2 {
        Ok(d) => d,
        Err(_) => None,
    };
    let c = match slot3 {
        Ok(d) => d,
        Err(_) => None,
    };
    let slots = [a, b, c];
    assert(slots@ =~= seq![slot_shown(slot1), slot_shown(slot2), slot_shown(slot3)]);
    slots
}

/// `d` holds the life, purse and keys of `p`.
pub open spec fn holds_player(d: SaveData, p: Player) -> bool {
    &&& d.hp == p.hp
    &&& d.max_hp == p.max_hp
    &&& d.rubies == p.rubies
    &&& d.keys_basic == p.keys_basic
    &&& d.keys_silver == p.keys_silver
    &&& d.keys_gold == p.keys_gold
    &&& d.keys_boss == p.keys_boss
}

/// `p` given the life, purse and keys saved in `d`; the rest of `p` is kept.
pub open spec fn restored_player(d: SaveData, p: Player) -> Player {
    Player {
        hp: d.hp,
        max_hp: d.max_hp,
        rubies: d.rubies,
        keys_basic: d.keys_basic,
        keys_silver: d.keys_silver,
        keys_gold: d.keys_gold,
        keys_boss: d.keys_boss,
        ..p
    }
}

impl SaveData {
    /// What is saved of a game: the slot, the player's life, purse and keys, the map being
    /// played and the objects collected.
    pub fn capture(slot: u8, player: &Player, current_map: &str, collected: &CollectedObjects) -> (d: SaveData)
        ensures
            d.slot == slot,
            holds_player(d, *player),
            d.current_map@ == current_map@,
            d.collected_objects@ == collected@,
    {
        SaveData {
            slot,
            hp: player.hp,
            max_hp: player.max_hp,
            rubies: player.rubies,
            keys_basic: player.keys_basic,
            keys_silver: player.keys_silver,
            keys_gold: player.keys_gold,
            keys_boss: player.keys_boss,
            current_map: String::from_str(current_map),
            collected_objects: collected.copy(),
        }
    }

    /// Gives the player the saved life, purse and keys; the rest of the player is kept.
    pub fn restore_player(&self, player: &mut Player)
        ensures
            *final(player) == restored_player(*self, *old(player)),
    {
        player.hp = self.hp;
        player.max_hp = self.max_hp;
        player.rubies = self.rubies;
        player.keys_basic = self.keys_basic;
        player.keys_silver = self.keys_silver;
        player.keys_gold = self.keys_gold;
        player.keys_boss = self.keys_boss;
    }
}

/// Law: loading what was saved of a player gives that player back, and saving right after a
/// load saves what was loaded.
pub proof fn law_restore_what_was_saved(d: SaveData, p: Player, q: Player)
    ensures
        holds_player(d, p) ==> restored_player(d, p) == p,
        holds_player(d, restored_player(d, q)),
{
}

} // verus!
