use astra::text_keys::apply_key_to_caret;
use astra::caret::CaretState;
use astra::{
    key_effects, plan_key, EditCommand, KeyAction, Motion, TextEditResult, TextKey, TextModifiers,
};

fn mods(shift: bool, ctrl: bool, meta: bool) -> TextModifiers {
    TextModifiers { shift, ctrl, alt: false, meta }
}

#[test]
fn action_mod_follows_platform() {
    let m = mods(false, true, false);
    assert!(m.action_mod(false));
    assert!(!m.action_mod(true));
    let m = mods(false, false, true);
    assert!(m.action_mod(true));
    assert!(!m.action_mod(false));
}

#[test]
fn composing_ignores_every_key() {
    let a = plan_key(TextKey::Escape, mods(false, false, false), false, true);
    assert_eq!(a, KeyAction::Ignore);
    let e = key_effects(&a, Some("x".to_string()));
    assert_eq!(e.result, TextEditResult::NotHandled);
    assert!(!e.update_layout);
}

#[test]
fn escape_copy_cut_plans() {
    let m = mods(false, false, false);
    assert_eq!(plan_key(TextKey::Escape, m, false, false), KeyAction::ExitEdit);
    assert_eq!(plan_key(TextKey::Copy, m, false, false), KeyAction::CopySelection);
    assert_eq!(plan_key(TextKey::Cut, m, false, false), KeyAction::CutSelection);
}

#[test]
fn deletion_by_character_or_word() {
    assert_eq!(
        plan_key(TextKey::Backspace, mods(false, false, false), false, false),
        KeyAction::Edit(EditCommand::Backdelete { word: false })
    );
    assert_eq!(
        plan_key(TextKey::Backspace, mods(false, true, false), false, false),
        KeyAction::Edit(EditCommand::Backdelete { word: true })
    );
    assert_eq!(
        plan_key(TextKey::Delete, mods(false, false, true), true, false),
        KeyAction::Edit(EditCommand::Delete { word: true })
    );
    assert_eq!(
        plan_key(TextKey::Delete, mods(false, true, false), true, false),
        KeyAction::Edit(EditCommand::Delete { word: false })
    );
}

#[test]
fn enter_and_paste_insert_text() {
    let m = mods(false, false, false);
    assert_eq!(
        plan_key(TextKey::Enter, m, false, false),
        KeyAction::Edit(EditCommand::Insert("\n".to_string()))
    );
    assert_eq!(
        plan_key(TextKey::Paste("clip".to_string()), mods(false, true, false), false, false),
        KeyAction::Edit(EditCommand::Insert("clip".to_string()))
    );
}

#[test]
fn navigation_keys() {
    let cases = [
        (TextKey::Left, false, false, Motion::Left, false),
        (TextKey::Left, true, true, Motion::WordLeft, true),
        (TextKey::Right, true, false, Motion::WordRight, false),
        (TextKey::Right, false, true, Motion::Right, true),
        (TextKey::Up, true, true, Motion::Up, true),
        (TextKey::Down, false, false, Motion::Down, false),
        (TextKey::Home, false, false, Motion::LineStart, false),
        (TextKey::Home, true, true, Motion::TextStart, true),
        (TextKey::End, false, true, Motion::LineEnd, true),
        (TextKey::End, true, false, Motion::TextEnd, false),
    ];
    for (key, ctrl, shift, motion, extend) in cases {
        assert_eq!(
            plan_key(key, mods(shift, ctrl, false), false, false),
            KeyAction::Edit(EditCommand::Navigate { motion, extend })
        );
    }
}

#[test]
fn characters_and_select_all() {
    assert_eq!(
        plan_key(TextKey::Character("q".to_string()), mods(false, false, false), false, false),
        KeyAction::Edit(EditCommand::Insert("q".to_string()))
    );
    assert_eq!(
        plan_key(TextKey::Character("a".to_string()), mods(false, true, false), false, false),
        KeyAction::Edit(EditCommand::SelectAll)
    );
    assert_eq!(
        plan_key(TextKey::Character("A".to_string()), mods(true, false, true), true, false),
        KeyAction::Edit(EditCommand::CollapseSelection)
    );
    assert_eq!(
        plan_key(TextKey::Character("z".to_string()), mods(false, true, false), false, false),
        KeyAction::Edit(EditCommand::Nothing)
    );
    assert_eq!(
        plan_key(TextKey::Character("ab".to_string()), mods(false, true, false), false, false),
        KeyAction::Edit(EditCommand::Nothing)
    );
    // Ctrl on macOS is not the command key: the letter is typed.
    assert_eq!(
        plan_key(TextKey::Character("a".to_string()), mods(false, true, false), true, false),
        KeyAction::Edit(EditCommand::Insert("a".to_string()))
    );
}

#[test]
fn copy_and_cut_effects() {
    let e = key_effects(&KeyAction::CopySelection, Some("sel".to_string()));
    assert_eq!(e.result, TextEditResult::Copy("sel".to_string()));
    assert!(!e.delete_selection && !e.update_layout);
    let e = key_effects(&KeyAction::CopySelection, None);
    assert_eq!(e.result, TextEditResult::Handled);
    let e = key_effects(&KeyAction::CutSelection, Some("sel".to_string()));
    assert_eq!(e.result, TextEditResult::Copy("sel".to_string()));
    assert!(e.delete_selection && e.update_layout);
    let e = key_effects(&KeyAction::CutSelection, None);
    assert_eq!(e.result, TextEditResult::Handled);
    assert!(!e.delete_selection && !e.update_layout);
    let e = key_effects(&KeyAction::ExitEdit, None);
    assert_eq!(e.result, TextEditResult::ExitEdit);
    let e = key_effects(&KeyAction::Edit(EditCommand::SelectAll), None);
    assert_eq!(e.result, TextEditResult::Handled);
    assert!(e.update_layout);
}

#[test]
fn caret_starts_visible_and_still() {
    let c = CaretState::new();
    assert!(c.is_cursor_visible());
    assert!(!c.is_blinking());
    assert!(!c.is_dragging());
    assert_eq!(c.next_blink_offset(123), None);
}

#[test]
fn caret_blinks_with_half_second_period() {
    let mut c = CaretState::new();
    c.cursor_reset();
    c.cursor_blink(0);
    assert!(c.is_cursor_visible());
    c.cursor_blink(499);
    assert!(c.is_cursor_visible());
    c.cursor_blink(500);
    assert!(!c.is_cursor_visible());
    c.cursor_blink(1000);
    assert!(c.is_cursor_visible());
    c.disable_blink();
    c.cursor_blink(0);
    assert!(!c.is_cursor_visible());
}

#[test]
fn caret_next_blink_offsets() {
    let mut c = CaretState::new();
    c.cursor_reset();
    assert_eq!(c.next_blink_offset(0), Some(500_000_000));
    assert_eq!(c.next_blink_offset(499_999_999), Some(500_000_000));
    assert_eq!(c.next_blink_offset(500_000_000), Some(1_000_000_000));
    assert_eq!(c.next_blink_offset(1_234_567_890), Some(1_500_000_000));
}

#[test]
fn caret_drag_only_between_press_and_release() {
    let mut c = CaretState::new();
    assert!(!c.mouse_drag());
    c.mouse_down();
    assert!(c.is_dragging());
    assert!(c.mouse_drag());
    c.mouse_up();
    assert!(!c.mouse_drag());
    assert!(!c.is_dragging());
}

#[test]
fn caret_reset_follows_key_handling() {
    // While composing, the key is ignored and the caret is left alone.
    let mut caret = CaretState::new();
    caret.cursor_blink(700);
    assert!(!caret.is_cursor_visible());
    let a = plan_key(TextKey::Left, mods(false, false, false), false, true);
    let e = key_effects(&a, None);
    assert!(!e.reset_caret);
    apply_key_to_caret(&mut caret, &e);
    assert!(!caret.is_cursor_visible());
    assert!(!caret.is_blinking());

    // Escape and navigation keys show the caret again and restart its blink.
    for key in [TextKey::Escape, TextKey::Left, TextKey::Home, TextKey::Down] {
        let mut caret = CaretState::new();
        caret.cursor_blink(700);
        let a = plan_key(key, mods(false, false, false), false, false);
        let e = key_effects(&a, None);
        assert!(e.reset_caret);
        apply_key_to_caret(&mut caret, &e);
        assert!(caret.is_cursor_visible());
        assert!(caret.is_blinking());
    }
}
