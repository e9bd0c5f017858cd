use vstd::prelude::*;

verus! {

/// Column of a full heart in the hearts spritesheet.
pub const HEART_FULL: i32 = 0;

/// Column of a half heart.
pub const HEART_HALF: i32 = 1;

/// Column of an empty heart.
pub const HEART_EMPTY: i32 = 2;

/// Integer halving that rounds towards zero, as `/ 2` does on `i32`.
pub open spec fn half_toward_zero(x: int) -> int {
    if x >= 0 {
        x / 2
    } else {
        -((-x) / 2)
    }
}

/// The number of hearts drawn for `max_hp` hit points (two per heart, rounded up).
pub fn total_hearts(max_hp: i32) -> (n: i32)
    requires
        max_hp < i32::MAX,
    ensures
        n == half_toward_zero(max_hp + 1),
{
    (max_hp + 1) / 2
}

/// The column of heart number `i` (from 0) for `hp` hit points: full while two hit points
/// remain for it, half for one, empty otherwise.
pub fn heart_sprite_col(hp: i32, i: i32) -> (c: i32)
    requires
        i32::MIN <= i * 2 <= i32::MAX,
        i32::MIN <= hp - i * 2 <= i32::MAX,
    ensures
        c == (if hp - i * 2 >= 2 {
            HEART_FULL
        } else if hp - i * 2 == 1 {
            HEART_HALF
        } else {
            HEART_EMPTY
        }),
{
    let pv_left = hp - i * 2;
    if pv_left >= 2 {
        HEART_FULL
    } else if pv_left == 1 {
        HEART_HALF
    } else {
        HEART_EMPTY
    }
}

/// Law: the hearts show the hit points. For `hp` hit points, heart `i` (from 0) is full
/// exactly when `i` is under `hp / 2`, half exactly when it is the heart right after them and
/// `hp` is odd, and empty otherwise.
pub proof fn law_hearts_show_hit_points(hp: int, i: int)
    requires
        hp >= 0,
        i >= 0,
    ensures
        (hp - i * 2 >= 2) == (i < hp / 2),
        (hp - i * 2 == 1) == (i == hp / 2 && hp % 2 == 1),
{
}

/// Which pre-drawn counter shows `count`: counts are shown from 0 to 99.
pub fn counter_index(count: i32) -> (i: usize)
    ensures
        i == (if count < 0 {
            0
        } else if count > 99 {
            99
        } else {
            count
        }),
{
    if count < 0 {
        0
    } else if count > 99 {
        99
    } else {
        count as usize
    }
}

/// Where the HUD panel draws what, for a "- LIFE -" label of `label_w` × `label_h` pixels.
pub struct HudLayout {
    pub panel_w: u32,
    pub panel_h: u32,
    pub label_x: i32,
    pub label_y: i32,
    /// The hearts, left to right: the x of each and its column in the hearts spritesheet.
    pub hearts: Vec<(i32, i32)>,
    pub hearts_y: i32,
    /// The left edge of the ruby and key counters.
    pub counter_x: i32,
    pub rubies_y: i32,
    pub keys_y: i32,
}

/// The number of hearts of the HUD for `max_hp` hit points.
pub open spec fn hud_total_hearts(max_hp: i32) -> int {
    half_toward_zero(max_hp + 1)
}

/// The width of the row of hearts: 14 pixels per heart, 2 between hearts.
pub open spec fn hud_hearts_w(max_hp: i32) -> int {
    hud_total_hearts(max_hp) * 16 - 2
}

/// The width of the panel's content: the wider of the label and the row of hearts (the
/// width of the row taken as a `u32`).
pub open spec fn hud_content_w(label_w: u32, max_hp: i32) -> int {
    let hw = (hud_hearts_w(max_hp) as i32) as u32;
    if label_w >= hw {
        label_w as int
    } else {
        hw as int
    }
}

/// The left edge of the row of hearts, which is centred in the content.
pub open spec fn hud_hearts_x(label_w: u32, max_hp: i32) -> int {
    16 + half_toward_zero((hud_content_w(label_w, max_hp) as i32) - hud_hearts_w(max_hp))
}

/// The layout arithmetic of the HUD stays within the integer types it uses.
pub open spec fn hud_fits(label_w: u32, label_h: u32, hp: i32, max_hp: i32) -> bool {
    let total = hud_total_hearts(max_hp);
    let hw = hud_hearts_w(max_hp);
    let cw = hud_content_w(label_w, max_hp);
    &&& max_hp < i32::MAX
    &&& i32::MIN + 2 <= total * 16 <= i32::MAX
    &&& cw + 16 <= u32::MAX
    &&& label_h + 78 <= u32::MAX
    &&& i32::MIN <= (cw as i32) - (label_w as i32) <= i32::MAX
    &&& i32::MIN <= (cw as i32) - hw <= i32::MAX
    &&& 18 + (label_h as i32) + 40 <= i32::MAX
    &&& total > 0 ==> hud_hearts_x(label_w, max_hp) + (total - 1) * 16 <= i32::MAX
    &&& total > 0 ==> i32::MIN <= hp - (total - 1) * 2
}

/// Lays out the HUD panel: the label centred at the top, the row of hearts centred below it
/// (each full, half or empty for `hp`), then the ruby and key counters.
pub fn hud_layout(label_w: u32, label_h: u32, hp: i32, max_hp: i32) -> (l: HudLayout)
    requires
        hud_fits(label_w, label_h, hp, max_hp),
    ensures
        l.panel_w == hud_content_w(label_w, max_hp) + 16,
        l.panel_h == label_h + 78,
        l.label_x == 16 + half_toward_zero((hud_content_w(label_w, max_hp) as i32) - (label_w as i32)),
        l.label_y == 12,
        l.hearts_y == 18 + (label_h as i32),
        l.hearts@.len() == (if hud_total_hearts(max_hp) > 0 {
            hud_total_hearts(max_hp)
        } else {
            0
        }),
        forall|i: int|
            0 <= i < l.hearts@.len() ==> (#[trigger] l.hearts@[i]).0 == hud_hearts_x(label_w, max_hp)
                + i * 16 && l.hearts@[i].1 == (if hp - i * 2 >= 2 {
                HEART_FULL
            } else if hp - i * 2 == 1 {
                HEART_HALF
            } else {
                HEART_EMPTY
            }),
        l.counter_x == 16,
        l.rubies_y == l.hearts_y + 20,
        l.keys_y == l.rubies_y + 20,
{
    let total = total_hearts(max_hp);
    let hearts_total_w: i32 = total * 16 - 2;
    let hw_u: u32 = #[verifier::truncate] (hearts_total_w as u32);
    let content_w: u32 = if label_w >= hw_u {
        label_w
    } else {
        hw_u
    };
    let panel_h = label_h + 14 + 20 + 20 + 24;
    let panel_w = content_w + 16;
    let cw_i: i32 = #[verifier::truncate] (content_w as i32);
    let lw_i: i32 = #[verifier::truncate] (label_w as i32);
    let label_x = 16 + (cw_i - lw_i) / 2;
    let label_y: i32 = 12;
    let hearts_x = 16 + (cw_i - hearts_total_w) / 2;
    assert(hearts_x == hud_hearts_x(label_w, max_hp));
    let lh_i: i32 = #[verifier::truncate] (label_h as i32);
    let hearts_y = label_y + lh_i + 6;
    let mut hearts: Vec<(i32, i32)> = Vec::new();
    let mut i: i32 = 0;
    while i < total
        invariant
            hud_fits(label_w, label_h, hp, max_hp),
            total == hud_total_hearts(max_hp),
            hearts_total_w == hud_hearts_w(max_hp),
            hearts_x == hud_hearts_x(label_w, max_hp),
            0 <= i,
            (total >= 0 && i <= total) || (total < 0 && i == 0),
            hearts@.len() == i,
            forall|j: int|
                0 <= j < hearts@.len() ==> (#[trigger] hearts@[j]).0 == hearts_x + j * 16 && hearts@[j].1 == (
                if hp - j * 2 >= 2 {
                    HEART_FULL
                } else if hp - j * 2 == 1 {
                    HEART_HALF
                } else {
                    HEART_EMPTY
                }),
        decreases total - i,
    {
        let cx = hearts_x + i * 16;
        let col = heart_sprite_col(hp, i);
        hearts.push((cx, col));
        i = i + 1;
    }
    let rubies_y = hearts_y + 14 + 6;
    let keys_y = rubies_y + 20;
    HudLayout { panel_w, panel_h, label_x, label_y, hearts, hearts_y, counter_x: 16, rubies_y, keys_y }
}

/// Where a counter draws its number of `text_h` pixels high, for a counter at `(x, y)`: just
/// right of its 16-pixel icon, centred on it.
pub fn counter_text_origin(x: i32, y: i32, text_h: u32) -> (r: (i32, i32))
    requires
        x + 19 <= i32::MAX,
        i32::MIN <= 16 - (text_h as i32) <= i32::MAX,
        i32::MIN <= y + half_toward_zero(16 - (text_h as i32)) <= i32::MAX,
    ensures
        r.0 == x + 19,
        r.1 == y + half_toward_zero(16 - (text_h as i32)),
{
    let th_i: i32 = #[verifier::truncate] (text_h as i32);
    (x + 16 + 3, y + (16 - th_i) / 2)
}

} // verus!
