use zelda_like::map_utils::CollectedObjects;
use zelda_like::menu::{cursor_row_width, delete_question, slot_info};
use zelda_like::save::SaveData;
use zelda_like::text::push_signed_decimal;
use zelda_like::game::{AppState, DialogueState, CLOSE_COOLDOWN};
use zelda_like::hud::{counter_index, counter_text_origin, heart_sprite_col, hud_layout, total_hearts, HEART_EMPTY, HEART_FULL, HEART_HALF};
use zelda_like::inventory::{inventory_layout, HeartCell, KeySlot};
use zelda_like::map_loader::{LootKind, ObjectKind, RubyKind};
use zelda_like::menu::{
    confirm_delete_step, main_menu_step, menu_down, menu_up, overwrite_step, slot_choice, ConfirmStep, MenuKey,
    MenuStep, SlotChoice, SlotMenu,
};
use zelda_like::npc::{sprite_row, NpcKind};
use zelda_like::objects::{drawn_sprite_col, sprite_col};
use zelda_like::pause::{pause_result, PauseMenu, PauseResult};
use zelda_like::player::Player;
use zelda_like::transition::{TransitionPhase, TransitionState};
use zelda_like::utils::split_dialogue;

#[test]
fn dialogue_pages() {
    assert_eq!(split_dialogue("Bonjour !"), vec!["Bonjour !".to_string()]);
    assert_eq!(split_dialogue("A\\n\\nB"), vec!["A".to_string(), "B".to_string()]);
    assert_eq!(split_dialogue("  A \n\n\n\n  B\nC  "), vec!["A".to_string(), "B\nC".to_string()]);
    assert_eq!(split_dialogue("Ligne 1\\nLigne 2"), vec!["Ligne 1\nLigne 2".to_string()]);
    assert!(split_dialogue("").is_empty());
    assert!(split_dialogue("  \n\n \t ").is_empty());
}

#[test]
fn dialogue_pages_are_clean() {
    for text in ["  a \n\n\n b \\n\\n c", "\\n\\n\\n", " x\ty \n\n\n\n\n z "] {
        for page in split_dialogue(text) {
            assert!(!page.is_empty());
            assert_eq!(page.trim(), page);
        }
    }
}

#[test]
fn dialogue_pages_are_stable() {
    for text in ["  a \n\n\n b \\n\n c\\", "Un\\\nDeux\n\n\nTrois", " x\ty \n\n\n\n\n z "] {
        let pages = split_dialogue(text);
        for page in &pages {
            assert!(!page.contains("\n\n"));
            assert!(!page.contains("\\n"));
            assert_eq!(split_dialogue(page), vec![page.clone()]);
        }
        assert_eq!(split_dialogue(&pages.join("\n\n")), pages);
    }
    assert_eq!(
        split_dialogue("Un\\\nDeux\n\n\nTrois"),
        vec!["Un\\\nDeux".to_string(), "Trois".to_string()]
    );
}

#[test]
fn dialogue_goes_page_by_page() {
    let mut d = DialogueState::new();
    assert!(!d.is_active());
    assert!(d.can_open());
    d.open("Premier\n\nSecond");
    assert!(d.is_active());
    assert_eq!(d.pages.len(), 2);
    assert_eq!(d.current_page, 0);
    assert!(!d.advance());
    assert_eq!(d.current_page, 1);
    assert!(d.advance());
    assert!(!d.is_active());
    assert_eq!(d.close_cooldown, CLOSE_COOLDOWN);
    assert!(!d.can_open());
}

#[test]
fn dialogue_reopens_after_the_cooldown() {
    let mut d = DialogueState::new();
    d.open("x");
    d.close();
    assert_eq!(d.pages.len(), 0);
    for _ in 0..29 {
        d.tick_cooldown();
        assert!(!d.can_open());
    }
    d.tick_cooldown();
    assert!(d.can_open());
    d.tick_cooldown();
    assert_eq!(d.close_cooldown, 0);
}

#[test]
fn transitions() {
    let mut t = TransitionState::new();
    assert_eq!(t.phase(), TransitionPhase::Idle);
    assert!(!t.is_active());
    assert_eq!(t.phase_done(false), None);
    assert!(t.start("cave".to_string(), "porte".to_string()));
    assert_eq!(t.phase(), TransitionPhase::FadeOut);
    assert!(!t.start("autre".to_string(), "x".to_string()));
    assert_eq!(t.phase_done(false), Some(("cave".to_string(), "porte".to_string())));
    assert_eq!(t.phase(), TransitionPhase::FadeIn);
    assert_eq!(t.phase_done(false), None);
    assert_eq!(t.phase(), TransitionPhase::Idle);

    assert!(t.start("b".to_string(), "c".to_string()));
    assert_eq!(t.phase_done(true), Some(("b".to_string(), "c".to_string())));
    assert_eq!(t.phase(), TransitionPhase::BlackPause);
    assert_eq!(t.phase_done(true), None);
    assert_eq!(t.phase(), TransitionPhase::FadeIn);
    assert_eq!(t.phase_done(true), None);
    assert_eq!(t.phase(), TransitionPhase::Idle);
    assert_eq!(t.phase_done(true), None);
}

#[test]
fn menus() {
    assert_eq!(menu_up(0), 0);
    assert_eq!(menu_up(3), 2);
    assert_eq!(menu_down(1, 2), 1);
    assert_eq!(menu_down(0, 2), 1);
    assert_eq!(menu_down(usize::MAX, 2), usize::MAX);
    assert!(matches!(main_menu_step(0, MenuKey::Confirm), MenuStep::Done(AppState::Play)));
    assert!(matches!(main_menu_step(1, MenuKey::Confirm), MenuStep::Done(AppState::Quit)));
    assert!(matches!(main_menu_step(0, MenuKey::Back), MenuStep::Done(AppState::Quit)));
    assert!(matches!(main_menu_step(0, MenuKey::Down), MenuStep::Stay(1)));
    assert!(matches!(main_menu_step(1, MenuKey::Down), MenuStep::Stay(1)));
    assert!(matches!(main_menu_step(1, MenuKey::Other), MenuStep::Stay(1)));
    assert!(matches!(overwrite_step(2, MenuKey::Confirm), MenuStep::Done(Some(3))));
    assert!(matches!(overwrite_step(3, MenuKey::Confirm), MenuStep::Done(None)));
    assert!(matches!(overwrite_step(3, MenuKey::Down), MenuStep::Stay(3)));
    assert!(matches!(overwrite_step(1, MenuKey::Close), MenuStep::Done(None)));
    assert!(matches!(confirm_delete_step(None, MenuKey::Yes), ConfirmStep::Answer(Some(true))));
    assert!(matches!(confirm_delete_step(Some(true), MenuKey::Back), ConfirmStep::Answer(Some(false))));
    assert!(matches!(confirm_delete_step(Some(true), MenuKey::Up), ConfirmStep::Answer(Some(true))));
    assert!(matches!(confirm_delete_step(None, MenuKey::Close), ConfirmStep::Done(false)));
}

#[test]
fn slot_menu() {
    let filled = [true, false, true];
    let mut m = SlotMenu::new();
    assert!(!m.key(MenuKey::Up, &filled));
    assert_eq!(m.selected, 0);
    for _ in 0..10 {
        m.key(MenuKey::Down, &filled);
        assert!(m.selected < 5);
    }
    assert_eq!(m.selected, 4);
    m.key(MenuKey::Up, &filled);
    m.key(MenuKey::Up, &filled);
    m.key(MenuKey::Up, &filled);
    assert_eq!(m.selected, 1);
    m.key(MenuKey::Delete, &filled);
    assert_eq!(m.delete_slot, Some(1));
    m.new_frame();
    assert_eq!(m.delete_slot, None);
    m.key(MenuKey::Down, &filled);
    m.key(MenuKey::Delete, &filled);
    assert_eq!(m.delete_slot, None);
    m.key(MenuKey::Confirm, &filled);
    assert_eq!(m.action, Some(2));
    assert!(m.key(MenuKey::Close, &filled));

    assert_eq!(slot_choice(0, &[true, false, true]), SlotChoice::NewGame(2));
    assert_eq!(slot_choice(0, &[true, true, true]), SlotChoice::ChooseOverwrite);
    assert_eq!(slot_choice(1, &[true, false, true]), SlotChoice::Continue(1));
    assert_eq!(slot_choice(2, &[true, false, true]), SlotChoice::NewGame(2));
    assert_eq!(slot_choice(4, &[true, false, true]), SlotChoice::Quit);
}

#[test]
fn pause_menu() {
    assert_eq!(pause_result(0), PauseResult::Resume);
    assert_eq!(pause_result(1), PauseResult::SaveAndResume);
    assert_eq!(pause_result(2), PauseResult::MainMenu);
    assert_eq!(pause_result(3), PauseResult::Quit);
    let mut m = PauseMenu::new();
    assert_eq!(m.key(MenuKey::Down), None);
    assert_eq!(m.key(MenuKey::Confirm), None);
    assert_eq!(m.end_frame(), Some(PauseResult::SaveAndResume));
    assert_eq!(m.end_frame(), None);
    for _ in 0..6 {
        m.key(MenuKey::Down);
    }
    assert_eq!(m.selected, 3);
    assert_eq!(m.key(MenuKey::Back), Some(PauseResult::Resume));
    assert_eq!(m.key(MenuKey::Close), Some(PauseResult::Quit));
}

#[test]
fn hud_hearts() {
    assert_eq!(total_hearts(6), 3);
    assert_eq!(total_hearts(7), 4);
    assert_eq!(heart_sprite_col(5, 0), HEART_FULL);
    assert_eq!(heart_sprite_col(5, 2), HEART_HALF);
    assert_eq!(heart_sprite_col(5, 3), HEART_EMPTY);
    assert_eq!(counter_index(-3), 0);
    assert_eq!(counter_index(42), 42);
    assert_eq!(counter_index(150), 99);
}

#[test]
fn hud_panel_layout() {
    let l = hud_layout(40, 8, 5, 6);
    assert_eq!(l.panel_w, 62);
    assert_eq!(l.panel_h, 86);
    assert_eq!(l.label_x, 19);
    assert_eq!(l.label_y, 12);
    assert_eq!(l.hearts, vec![(16, HEART_FULL), (32, HEART_FULL), (48, HEART_HALF)]);
    assert_eq!(l.hearts_y, 26);
    assert_eq!(l.counter_x, 16);
    assert_eq!(l.rubies_y, 46);
    assert_eq!(l.keys_y, 66);

    let wide = hud_layout(60, 8, 0, 2);
    assert_eq!(wide.panel_w, 76);
    assert_eq!(wide.label_x, 16);
    assert_eq!(wide.hearts, vec![(39, HEART_EMPTY)]);
    assert_eq!(counter_text_origin(16, 46, 8), (35, 50));
}

#[test]
fn inventory_screen_layout() {
    let mut p = Player::new();
    p.hp = 3;
    p.heart_pieces = 5;
    p.keys_silver = 1;
    let l = inventory_layout(&p);
    assert_eq!(l.item_slots.len(), 8);
    assert_eq!(l.item_slots[0], (216, 166));
    assert_eq!(l.item_slots[5], (256, 206));
    assert_eq!(
        l.hearts,
        vec![
            HeartCell { x: 416, y: 166, src_col: 0 },
            HeartCell { x: 440, y: 166, src_col: 1 },
            HeartCell { x: 464, y: 166, src_col: 2 },
        ]
    );
    assert_eq!(l.piece_col, 3);
    assert_eq!(l.piece_x, 476);
    assert_eq!(l.piece_y, 234);
    assert_eq!(
        l.keys,
        vec![
            KeySlot { x: 261, y: 366, sprite_col: Some(10) },
            KeySlot { x: 383, y: 366, sprite_col: None },
            KeySlot { x: 505, y: 366, sprite_col: None },
        ]
    );

    p.max_hp = 24;
    p.hp = 24;
    let l = inventory_layout(&p);
    assert_eq!(l.hearts.len(), 12);
    assert_eq!(l.hearts[5], HeartCell { x: 416, y: 190, src_col: 0 });
    assert_eq!(l.piece_y, 282);
    p.max_hp = 40;
    assert_eq!(inventory_layout(&p).piece_y, 286);
    p.max_hp = 1;
    p.heart_pieces = 2;
    let l = inventory_layout(&p);
    assert!(l.hearts.is_empty());
    assert_eq!(l.piece_col, 2);
}

#[test]
fn sprites() {
    assert_eq!(sprite_col(&ObjectKind::Heart), Some(0));
    assert_eq!(sprite_col(&ObjectKind::Ruby(RubyKind::Blue)), Some(1));
    assert_eq!(sprite_col(&ObjectKind::Key), Some(2));
    assert_eq!(sprite_col(&ObjectKind::Chest { contains: LootKind::Heart }), Some(3));
    assert_eq!(sprite_col(&ObjectKind::Bush), None);
    assert_eq!(drawn_sprite_col(&ObjectKind::Chest { contains: LootKind::Heart }, true), Some(4));
    assert_eq!(drawn_sprite_col(&ObjectKind::Chest { contains: LootKind::Heart }, false), Some(3));
    assert_eq!(drawn_sprite_col(&ObjectKind::Key, true), Some(2));
    assert_eq!(sprite_row(NpcKind::Villager), 0);
    assert_eq!(sprite_row(NpcKind::Animal), 1);
    assert_eq!(sprite_row(NpcKind::Guy), 2);
    assert_eq!(sprite_row(NpcKind::Girl), 3);
}

#[test]
fn slot_texts() {

    let mut p = Player::new();
    p.rubies = 42;
    let d = SaveData::capture(1, &p, "village", &CollectedObjects::new());
    assert_eq!(slot_info(&Some(d)), "Map: village   Rubis: 42");
    p.rubies = -3;
    let d = SaveData::capture(1, &p, "x", &CollectedObjects::new());
    assert_eq!(slot_info(&Some(d)), "Map: x   Rubis: -3");
    assert_eq!(slot_info(&None), "(vide)");
    assert_eq!(delete_question(2), "Effacer le slot 2 ?");
    assert_eq!(cursor_row_width(0, 20, 10), 1);
    assert_eq!(cursor_row_width(5, 20, 10), 5);
    assert_eq!(cursor_row_width(10, 20, 10), 10);
    assert_eq!(cursor_row_width(15, 20, 10), 5);
    assert_eq!(cursor_row_width(19, 20, 10), 1);
    assert_eq!(cursor_row_width(15, 20, 8), 4);
    assert_eq!(cursor_row_width(0, 2, 8), 1);
    assert_eq!(cursor_row_width(1, 2, 8), 8);
    assert_eq!(cursor_row_width(5, 20, -3), 1);
    assert_eq!(cursor_row_width(15, 20, -8), 1);
}

#[test]
fn signed_numbers() {
    let mut s = String::from("n=");
    push_signed_decimal(&mut s, -2147483648);
    assert_eq!(s, "n=-2147483648");
    let mut s = String::new();
    push_signed_decimal(&mut s, 0);
    assert_eq!(s, "0");
}
