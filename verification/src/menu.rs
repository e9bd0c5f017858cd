use vstd::prelude::*;

use crate::game::AppState;
use crate::save::SaveData;
use crate::text::{decimal, push_decimal, push_signed_decimal, push_str, signed_decimal};

verus! {

/// The keys that the menus react to.
#[derive(Debug, Clone, Copy, PartialEq, Eq, Structural)]
pub enum MenuKey {
    /// Up arrow or W.
    Up,
    /// Down arrow or S.
    Down,
    /// Return or Space.
    Confirm,
    /// Escape.
    Back,
    /// Delete or Backspace.
    Delete,
    /// O.
    Yes,
    /// N.
    No,
    /// The window is closed.
    Close,
    Other,
}

/// What the slot menu leads to.
pub enum MenuResult {
    /// A new game in the slot.
    NewGame(u8),
    /// The game saved in the slot.
    Continue(u8, SaveData),
    Quit,
}

/// One line up (none above the first).
pub open spec fn spec_menu_up(selected: usize) -> usize {
    if selected > 0 {
        (selected - 1) as usize
    } else {
        0
    }
}

/// One line down (none below the last of `count`).
pub open spec fn spec_menu_down(selected: usize, count: usize) -> usize {
    if selected + 1 < count {
        (selected + 1) as usize
    } else {
        selected
    }
}

/// Law: moving up or down keeps the selection on a line of the menu.
pub proof fn law_selection_stays_on_menu(selected: usize, count: usize)
    requires
        selected < count,
    ensures
        spec_menu_up(selected) < count,
        spec_menu_down(selected, count) < count,
        spec_menu_up(selected) <= selected <= spec_menu_down(selected, count),
{
}

pub fn menu_up(selected: usize) -> (s: usize)
    ensures
        s == spec_menu_up(selected),
{
    if selected > 0 {
        selected - 1
    } else {
        0
    }
}

pub fn menu_down(selected: usize, count: usize) -> (s: usize)
    ensures
        s == spec_menu_down(selected, count),
{
    if selected < usize::MAX && selected + 1 < count {
        selected + 1
    } else {
        selected
    }
}

/// The number of lines of the main menu ("Jouer", "Quitter").
pub const MAIN_MENU_ITEMS: usize = 2;

/// What a key does in a menu: move to a line, or leave with a result.
pub enum MenuStep<T> {
    Stay(usize),
    Done(T),
}

/// A key in the main menu: Escape or closing quits, Return picks the line (the first
/// plays), the arrows move.
pub open spec fn spec_main_menu_step(selected: usize, key: MenuKey) -> MenuStep<AppState> {
    match key {
        MenuKey::Close | MenuKey::Back => MenuStep::Done(AppState::Quit),
        MenuKey::Up => MenuStep::Stay(spec_menu_up(selected)),
        MenuKey::Down => MenuStep::Stay(spec_menu_down(selected, MAIN_MENU_ITEMS)),
        MenuKey::Confirm => MenuStep::Done(
            if selected == 0 {
                AppState::Play
            } else {
                AppState::Quit
            },
        ),
        _ => MenuStep::Stay(selected),
    }
}

pub fn main_menu_step(selected: usize, key: MenuKey) -> (r: MenuStep<AppState>)
    ensures
        r == spec_main_menu_step(selected, key),
{
    match key {
        MenuKey::Close | MenuKey::Back => MenuStep::Done(AppState::Quit),
        MenuKey::Up => MenuStep::Stay(menu_up(selected)),
        MenuKey::Down => MenuStep::Stay(menu_down(selected, MAIN_MENU_ITEMS)),
        MenuKey::Confirm => MenuStep::Done(
            if selected == 0 {
                AppState::Play
            } else {
                AppState::Quit
            },
        ),
        _ => MenuStep::Stay(selected),
    }
}

/// The number of lines of the slot menu: "Nouvelle partie", the three slots, "Quitter".
pub const SLOT_MENU_ITEMS: usize = 5;

/// The slot menu: the line selected, and what the keys of the current frame asked for.
pub struct SlotMenu {
    pub selected: usize,
    /// The line on which Return was last pressed during the frame.
    pub action: Option<usize>,
    /// The filled slot whose deletion was asked during the frame.
    pub delete_slot: Option<u8>,
}

impl SlotMenu {
    pub fn new() -> (m: SlotMenu)
        ensures
            m.selected == 0,
            m.action is None,
            m.delete_slot is None,
    {
        SlotMenu { selected: 0, action: None, delete_slot: None }
    }

    /// A new frame: what the keys asked for is forgotten, the selection stays.
    pub fn new_frame(&mut self)
        ensures
            final(self).selected == old(self).selected,
            final(self).action is None,
            final(self).delete_slot is None,
    {
        self.action = None;
        self.delete_slot = None;
    }

    /// A key of the frame; `filled[i]` tells whether slot `i + 1` holds a save. Returns whether
    /// the menu is left at once (Escape or closing).
    pub fn key(&mut self, key: MenuKey, filled: &[bool; 3]) -> (quit: bool)
        ensures
            quit == (key == MenuKey::Close || key == MenuKey::Back),
            final(self).selected == (if key == MenuKey::Up {
                spec_menu_up(old(self).selected)
            } else if key == MenuKey::Down {
                spec_menu_down(old(self).selected, SLOT_MENU_ITEMS)
            } else {
                old(self).selected
            }),
            final(self).action == (if key == MenuKey::Confirm {
                Some(old(self).selected)
            } else {
                old(self).action
            }),
            final(self).delete_slot == (if key == MenuKey::Delete && 1 <= old(self).selected <= 3
                && filled@[old(self).selected - 1] {
                Some(old(self).selected as u8)
            } else {
                old(self).delete_slot
            }),
    {
        match key {
            MenuKey::Close | MenuKey::Back => true,
            MenuKey::Up => {
                self.selected = menu_up(self.selected);
                false
            },
            MenuKey::Down => {
                self.selected = menu_down(self.selected, SLOT_MENU_ITEMS);
                false
            },
            MenuKey::Confirm => {
                self.action = Some(self.selected);
                false
            },
            MenuKey::Delete => {
                if self.selected >= 1 && self.selected <= 3 && filled[self.selected - 1] {
                    self.delete_slot = Some(self.selected as u8);
                }
                false
            },
            _ => false,
        }
    }
}

/// What picking a line of the slot menu leads to.
#[derive(Debug, Clone, Copy, PartialEq, Eq, Structural)]
pub enum SlotChoice {
    /// A new game in the slot.
    NewGame(u8),
    /// The game saved in the slot.
    Continue(u8),
    /// Every slot is taken: ask which one to overwrite.
    ChooseOverwrite,
    Quit,
}

/// The first empty slot (1 to 3), if any.
pub open spec fn first_free(filled: Seq<bool>) -> Option<u8> {
    if !filled[0] {
        Some(1)
    } else if !filled[1] {
        Some(2)
    } else if !filled[2] {
        Some(3)
    } else {
        None
    }
}

/// Picking line `line`: "Nouvelle partie" takes the first empty slot (or asks which to
/// overwrite), a slot line continues its game or starts one there, the last line quits.
pub fn slot_choice(line: usize, filled: &[bool; 3]) -> (c: SlotChoice)
    ensures
        line == 0 ==> c == (match first_free(filled@) {
            Some(s) => SlotChoice::NewGame(s),
            None => SlotChoice::ChooseOverwrite,
        }),
        1 <= line <= 3 ==> c == (if filled@[line - 1] {
            SlotChoice::Continue(line as u8)
        } else {
            SlotChoice::NewGame(line as u8)
        }),
        line > 3 ==> c == SlotChoice::Quit,
{
    if line == 0 {
        if !filled[0] {
            SlotChoice::NewGame(1)
        } else if !filled[1] {
            SlotChoice::NewGame(2)
        } else if !filled[2] {
            SlotChoice::NewGame(3)
        } else {
            SlotChoice::ChooseOverwrite
        }
    } else if line <= 3 {
        if filled[line - 1] {
            SlotChoice::Continue(line as u8)
        } else {
            SlotChoice::NewGame(line as u8)
        }
    } else {
        SlotChoice::Quit
    }
}

/// The number of lines of the overwrite menu: the three slots and "Annuler".
pub const OVERWRITE_MENU_ITEMS: usize = 4;

/// A key in the overwrite menu: Escape or closing cancels, Return picks a slot (or cancels
/// on the last line), the arrows move.
pub open spec fn spec_overwrite_step(selected: usize, key: MenuKey) -> MenuStep<Option<u8>> {
    match key {
        MenuKey::Close | MenuKey::Back => MenuStep::Done(None),
        MenuKey::Up => MenuStep::Stay(spec_menu_up(selected)),
        MenuKey::Down => MenuStep::Stay(spec_menu_down(selected, OVERWRITE_MENU_ITEMS)),
        MenuKey::Confirm => MenuStep::Done(
            if selected <= 2 {
                Some((selected + 1) as u8)
            } else {
                None
            },
        ),
        _ => MenuStep::Stay(selected),
    }
}

pub fn overwrite_step(selected: usize, key: MenuKey) -> (r: MenuStep<Option<u8>>)
    ensures
        r == spec_overwrite_step(selected, key),
{
    match key {
        MenuKey::Close | MenuKey::Back => MenuStep::Done(None),
        MenuKey::Up => MenuStep::Stay(menu_up(selected)),
        MenuKey::Down => MenuStep::Stay(menu_down(selected, OVERWRITE_MENU_ITEMS)),
        MenuKey::Confirm => MenuStep::Done(
            if selected <= 2 {
                Some(selected as u8 + 1)
            } else {
                None
            },
        ),
        _ => MenuStep::Stay(selected),
    }
}

/// The answer to the deletion question after a key, given the answer so far in the frame:
/// O answers yes, N or Escape no (the last answer of the frame counts), closing the window
/// answers no at once.
pub enum ConfirmStep {
    /// The question is left at once with this answer.
    Done(bool),
    /// The answer so far (`None`: none yet).
    Answer(Option<bool>),
}

pub open spec fn spec_confirm_step(answer: Option<bool>, key: MenuKey) -> ConfirmStep {
    match key {
        MenuKey::Close => ConfirmStep::Done(false),
        MenuKey::Yes => ConfirmStep::Answer(Some(true)),
        MenuKey::No | MenuKey::Back => ConfirmStep::Answer(Some(false)),
        _ => ConfirmStep::Answer(answer),
    }
}

pub fn confirm_delete_step(answer: Option<bool>, key: MenuKey) -> (r: ConfirmStep)
    ensures
        r == spec_confirm_step(answer, key),
{
    match key {
        MenuKey::Close => ConfirmStep::Done(false),
        MenuKey::Yes => ConfirmStep::Answer(Some(true)),
        MenuKey::No | MenuKey::Back => ConfirmStep::Answer(Some(false)),
        _ => ConfirmStep::Answer(answer),
    }
}

/// The line under a slot of the slot menus: `Map: {map}   Rubis: {rubies}`, or `(vide)` for an
/// empty slot.
pub open spec fn spec_slot_info(slot: Option<(Seq<char>, i32)>) -> Seq<char> {
    match slot {
        Some((map, rubies)) => "Map: "@ + map + "   Rubis: "@ + signed_decimal(rubies as int),
        None => "(vide)"@,
    }
}

/// The map and purse of what a slot holds.
pub open spec fn slot_summary(slot: Option<SaveData>) -> Option<(Seq<char>, i32)> {
    match slot {
        Some(d) => Some((d.current_map@, d.rubies)),
        None => None,
    }
}

/// The line under a slot of the slot menus.
pub fn slot_info(slot: &Option<SaveData>) -> (s: String)
    ensures
        s@ == spec_slot_info(slot_summary(*slot)),
{
    match slot {
        Some(d) => {
            let mut s = String::from_str("Map: ");
            push_str(&mut s, d.current_map.as_str());
            push_str(&mut s, "   Rubis: ");
            push_signed_decimal(&mut s, d.rubies);
            s
        },
        None => String::from_str("(vide)"),
    }
}

/// The question asked before a slot is deleted: `Effacer le slot {slot} ?`.
pub fn delete_question(slot: u8) -> (s: String)
    ensures
        s@ == "Effacer le slot "@ + decimal(slot as nat) + " ?"@,
{
    let mut s = String::from_str("Effacer le slot ");
    push_decimal(&mut s, slot as u64);
    push_str(&mut s, " ?");
    s
}

/// The width of row `row` of the triangle that points at the selected line of a menu, for a
/// triangle `height` pixels high and `width` wide: it widens down to the middle row, then
/// narrows, and is never under one pixel.
pub open spec fn spec_cursor_row_width(row: int, height: int, width: int) -> int {
    let half = height / 2;
    let w = if row <= half {
        row * width / half
    } else {
        (height - row) * width / half
    };
    if w >= 1 {
        w
    } else {
        1
    }
}

pub fn cursor_row_width(row: i32, height: i32, width: i32) -> (w: i32)
    requires
        0 <= row < height,
        2 <= height,
        i32::MIN <= height * width <= i32::MAX,
    ensures
        w == spec_cursor_row_width(row as int, height as int, width as int),
{
    let half = height / 2;
    if width < 0 {
        assert(height * width <= row * width <= 0) by (nonlinear_arith)
            requires
                0 <= row < height,
                width < 0,
        ;
        assert(height * width <= (height - row) * width <= 0) by (nonlinear_arith)
            requires
                0 <= row < height,
                width < 0,
        ;
        assert(spec_cursor_row_width(row as int, height as int, width as int) == 1) by (nonlinear_arith)
            requires
                0 <= row < height,
                2 <= height,
                width < 0,
        {
            let h = height / 2;
            assert(h >= 1);
            assert(row * width <= 0);
            assert((height - row) * width <= 0);
            assert(row * width / h <= 0);
            assert((height - row) * width / h <= 0);
        }
        return 1;
    }
    assert(0 <= row * width <= height * width) by (nonlinear_arith)
        requires
            0 <= row < height,
            0 <= width,
    ;
    assert(0 <= (height - row) * width <= height * width) by (nonlinear_arith)
        requires
            0 <= row < height,
            0 <= width,
    ;
    let w = if row <= half {
        row * width / half
    } else {
        (height - row) * width / half
    };
    if w >= 1 {
        w
    } else {
        1
    }
}

} // verus!
