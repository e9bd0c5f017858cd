use vstd::prelude::*;

use crate::hud::half_toward_zero;
use crate::player::Player;

verus! {

/// Width of the inventory panel.
pub const INV_W: u32 = 400;

/// Height of the inventory panel.
pub const INV_H: u32 = 300;

/// Left edge of the inventory panel (centred in an 800 × 600 window).
pub const INV_X: i32 = 200;

/// Top edge of the inventory panel.
pub const INV_Y: i32 = 150;

/// Inner margin of the inventory panel.
pub const PAD: i32 = 16;

/// Size at which key icons are drawn.
pub const ICON: u32 = 32;

/// Size of an item slot (slots are 4 pixels apart).
pub const SLOT_SIZE: i32 = 36;

/// Size at which a heart is drawn.
pub const HEART_DRAW: u32 = 20;

/// Size at which the heart-piece picture is drawn.
pub const PIECE_DRAW: u32 = 48;

/// A heart of the inventory: where it is drawn and its column in the hearts spritesheet.
#[derive(Debug, Clone, Copy, PartialEq, Eq, Structural)]
pub struct HeartCell {
    pub x: i32,
    pub y: i32,
    pub src_col: i32,
}

/// A key of the inventory: where it is drawn, and its column in the objects spritesheet
/// when the player holds one (an empty frame is drawn otherwise).
#[derive(Debug, Clone, Copy, PartialEq, Eq, Structural)]
pub struct KeySlot {
    pub x: i32,
    pub y: i32,
    pub sprite_col: Option<i32>,
}

/// Where the inventory screen draws what.
pub struct InventoryLayout {
    /// The empty item slots, a grid of 4 columns and 2 rows.
    pub item_slots: Vec<(i32, i32)>,
    /// One heart per two hit points of the maximum.
    pub hearts: Vec<HeartCell>,
    /// The column of the heart-piece picture (0 to 3 pieces).
    pub piece_col: i32,
    pub piece_x: i32,
    pub piece_y: i32,
    /// The silver, gold and boss keys, in this order.
    pub keys: Vec<KeySlot>,
}

/// The number of hearts shown for `max_hp` hit points (two per heart, rounded down).
pub open spec fn inv_full_hearts(max_hp: i32) -> int {
    half_toward_zero(max_hp as int)
}

/// The column of heart `i` for `hp` hit points: full, half or empty.
pub open spec fn inv_heart_col(hp: i32, i: int) -> i32 {
    if hp >= (i + 1) * 2 {
        0
    } else if hp >= i * 2 + 1 {
        1
    } else {
        2
    }
}

/// Heart `i` of the inventory, five to a row.
pub open spec fn inv_heart(hp: i32, i: int) -> HeartCell {
    HeartCell { x: (416 + (i % 5) * 24) as i32, y: (166 + (i / 5) * 24) as i32, src_col: inv_heart_col(hp, i) }
}

/// The number of rows of hearts (at least one).
pub open spec fn inv_heart_rows(max_hp: i32) -> int {
    if inv_full_hearts(max_hp) <= 0 {
        1
    } else {
        (inv_full_hearts(max_hp) + 4) / 5
    }
}

/// The top of the heart-piece picture: 48 pixels below the hearts, but no lower than 286.
pub open spec fn inv_piece_y(max_hp: i32) -> int {
    let y = 166 + 24 * inv_heart_rows(max_hp) - 4 + 48;
    if y <= 286 {
        y
    } else {
        286
    }
}

/// Item slot `k` (row `k / 4`, column `k % 4`).
pub open spec fn inv_item_slot(k: int) -> (i32, i32) {
    ((216 + (k % 4) * 40) as i32, (166 + (k / 4) * 40) as i32)
}

/// The key slot for `count` keys in column `idx`, whose icon is column `col` of the objects
/// spritesheet.
pub open spec fn inv_key_slot(idx: int, count: u32, col: i32) -> KeySlot {
    KeySlot { x: (261 + idx * 122) as i32, y: 366, sprite_col: if count > 0 { Some(col) } else { None } }
}

/// The layout fits in `i32`: the hearts and the heart piece are placed without overflow.
pub open spec fn inventory_fits(p: Player) -> bool {
    24 * inv_heart_rows(p.max_hp) + 210 <= i32::MAX
}

/// Lays out the inventory screen for `player`: the item slots, one heart per two hit points
/// of the maximum (full, half or empty), the heart-piece picture and the three special keys.
pub fn inventory_layout(player: &Player) -> (l: InventoryLayout)
    requires
        inventory_fits(*player),
    ensures
        l.item_slots@.len() == 8,
        forall|k: int| 0 <= k < 8 ==> #[trigger] l.item_slots@[k] == inv_item_slot(k),
        l.hearts@.len() == (if inv_full_hearts(player.max_hp) > 0 {
            inv_full_hearts(player.max_hp)
        } else {
            0
        }),
        forall|i: int| 0 <= i < l.hearts@.len() ==> #[trigger] l.hearts@[i] == inv_heart(player.hp, i),
        l.piece_col == (if player.heart_pieces < 3 {
            player.heart_pieces as i32
        } else {
            3
        }),
        l.piece_x == 476,
        l.piece_y == inv_piece_y(player.max_hp),
        l.keys@ == seq![
            inv_key_slot(0, player.keys_silver, 10),
            inv_key_slot(1, player.keys_gold, 11),
            inv_key_slot(2, player.keys_boss, 12),
        ],
{
    let mut item_slots: Vec<(i32, i32)> = Vec::new();
    let mut row: i32 = 0;
    while row < 2
        invariant
            0 <= row <= 2,
            item_slots@.len() == row * 4,
            forall|k: int| 0 <= k < item_slots@.len() ==> #[trigger] item_slots@[k] == inv_item_slot(k),
        decreases 2 - row,
    {
        let mut col: i32 = 0;
        while col < 4
            invariant
                0 <= row < 2,
                0 <= col <= 4,
                item_slots@.len() == row * 4 + col,
                forall|k: int| 0 <= k < item_slots@.len() ==> #[trigger] item_slots@[k] == inv_item_slot(k),
            decreases 4 - col,
        {
            let sx = 216 + col * 40;
            let sy = 166 + row * 40;
            let ghost k = row * 4 + col;
            assert(k % 4 == col && k / 4 == row);
            item_slots.push((sx, sy));
            col = col + 1;
        }
        row = row + 1;
    }

    let full_hearts: i32 = player.max_hp / 2;
    let mut hearts: Vec<HeartCell> = Vec::new();
    let mut i: i32 = 0;
    while i < full_hearts
        invariant
            inventory_fits(*player),
            full_hearts == inv_full_hearts(player.max_hp),
            0 <= i,
            (full_hearts >= 0 && i <= full_hearts) || (full_hearts < 0 && i == 0),
            hearts@.len() == i,
            forall|j: int| 0 <= j < hearts@.len() ==> #[trigger] hearts@[j] == inv_heart(player.hp, j),
        decreases full_hearts - i,
    {
        assert(i / 5 < inv_heart_rows(player.max_hp));
        let hx = 416 + (i % 5) * 24;
        let hy = 166 + (i / 5) * 24;
        let filled = player.hp >= (i + 1) * 2;
        let half = !filled && player.hp >= i * 2 + 1;
        let src_col: i32 = if filled {
            0
        } else if half {
            1
        } else {
            2
        };
        hearts.push(HeartCell { x: hx, y: hy, src_col });
        i = i + 1;
    }

    let piece_col: i32 = if player.heart_pieces < 3 {
        player.heart_pieces as i32
    } else {
        3
    };
    let rows_raw: i32 = (full_hearts + 4) / 5;
    let heart_rows: i32 = if rows_raw < 1 {
        1
    } else {
        rows_raw
    };
    assert(heart_rows == inv_heart_rows(player.max_hp));
    let hearts_block_h = heart_rows * 20 + (heart_rows - 1) * 4;
    let dest_y = 166 + hearts_block_h + 48;
    let max_y: i32 = 286;
    let piece_y = if dest_y <= max_y {
        dest_y
    } else {
        max_y
    };

    let mut keys: Vec<KeySlot> = Vec::new();
    keys.push(KeySlot { x: 261, y: 366, sprite_col: if player.keys_silver > 0 { Some(10) } else { None } });
    keys.push(KeySlot { x: 383, y: 366, sprite_col: if player.keys_gold > 0 { Some(11) } else { None } });
    keys.push(KeySlot { x: 505, y: 366, sprite_col: if player.keys_boss > 0 { Some(12) } else { None } });
    assert(keys@ =~= seq![
        inv_key_slot(0, player.keys_silver, 10),
        inv_key_slot(1, player.keys_gold, 11),
        inv_key_slot(2, player.keys_boss, 12),
    ]);

    InventoryLayout { item_slots, hearts, piece_col, piece_x: 476, piece_y, keys }
}

} // verus!
