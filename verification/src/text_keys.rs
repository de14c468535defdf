use vstd::prelude::*;
use vstd::string::StrSliceExecFns;
use vstd::string::StringExecFns;

use crate::caret::{CaretState, BLINK_PERIOD_MS};

verus! {

/// A key press (or clipboard event) delivered to the text editor.
#[derive(Debug, Clone, PartialEq)]
pub enum TextKey {
    Character(String),
    Backspace,
    Delete,
    Enter,
    Left,
    Right,
    Up,
    Down,
    Home,
    End,
    Escape,
    Copy,
    Cut,
    Paste(String),
}

/// The modifier keys held during a key press.
#[derive(Debug, Clone, Copy)]
pub struct TextModifiers {
    pub shift: bool,
    pub ctrl: bool,
    pub alt: bool,
    pub meta: bool,
}

impl Default for TextModifiers {
    fn default() -> (m: Self)
        ensures
            !m.shift && !m.ctrl && !m.alt && !m.meta,
    {
        TextModifiers { shift: false, ctrl: false, alt: false, meta: false }
    }
}

/// Whether the platform's command modifier is held: Meta where the platform
/// uses it for editing shortcuts (macOS), Ctrl elsewhere.
pub open spec fn action_modifier_held(m: TextModifiers, action_key_is_meta: bool) -> bool {
    if action_key_is_meta {
        m.meta
    } else {
        m.ctrl
    }
}

impl TextModifiers {
    /// Whether the platform's command modifier is held; `action_key_is_meta`
    /// tells whether the platform uses Meta (rather than Ctrl) for it.
    pub fn action_mod(&self, action_key_is_meta: bool) -> (held: bool)
        ensures
            held == action_modifier_held(*self, action_key_is_meta),
    {
        if action_key_is_meta {
            self.meta
        } else {
            self.ctrl
        }
    }
}

/// What the editor reports back after handling a key.
#[derive(Debug, Clone, PartialEq)]
pub enum TextEditResult {
    Handled,
    ExitEdit,
    NotHandled,
    Copy(String),
}

/// A caret movement.
#[derive(Debug, Clone, Copy, PartialEq, Eq, Structural)]
pub enum Motion {
    Left,
    WordLeft,
    Right,
    WordRight,
    Up,
    Down,
    LineStart,
    TextStart,
    LineEnd,
    TextEnd,
}

/// The edit that a key press asks the text layout engine to perform.
#[derive(Debug, Clone, PartialEq)]
pub enum EditCommand {
    /// Delete backwards: one character, or one word.
    Backdelete { word: bool },
    /// Delete forwards: one character, or one word.
    Delete { word: bool },
    /// Replace the selection (or insert at the caret) with the text.
    Insert(String),
    /// Move the caret; with `extend`, move only the active end of the selection.
    Navigate { motion: Motion, extend: bool },
    SelectAll,
    CollapseSelection,
    /// Change nothing.
    Nothing,
}

/// How the editor reacts to a key press.
#[derive(Debug, Clone, PartialEq)]
pub enum KeyAction {
    /// An input-method composition is in progress: the key is not the editor's.
    Ignore,
    /// Leave editing mode.
    ExitEdit,
    /// Put the selection on the clipboard.
    CopySelection,
    /// Put the selection on the clipboard and delete it.
    CutSelection,
    /// Perform the edit, then re-measure the layout.
    Edit(EditCommand),
}

/// The movement that an arrow, Home or End key asks for; with the command
/// modifier, Left and Right move by word and Home and End go to the ends of
/// the whole text.
pub open spec fn motion_of(key: TextKey, action: bool) -> Option<Motion> {
    match key {
        TextKey::Left => Some(if action { Motion::WordLeft } else { Motion::Left }),
        TextKey::Right => Some(if action { Motion::WordRight } else { Motion::Right }),
        TextKey::Up => Some(Motion::Up),
        TextKey::Down => Some(Motion::Down),
        TextKey::Home => Some(if action { Motion::TextStart } else { Motion::LineStart }),
        TextKey::End => Some(if action { Motion::TextEnd } else { Motion::LineEnd }),
        _ => None,
    }
}

/// Whether a typed text is the letter A, either case.
pub open spec fn is_letter_a(s: Seq<char>) -> bool {
    s == "a"@ || s == "A"@
}

/// Whether `a` is the reaction to a key press.
///
/// While composing, nothing. Escape leaves, Copy and Cut go to the clipboard.
/// Backspace and Delete remove a character, or a word with the command
/// modifier; Enter inserts a line break; Paste inserts its text. Navigation
/// keys move the caret, extending the selection while Shift is held.
/// A typed character is inserted unless the command modifier is held; with
/// it, A selects all (Shift+A collapses the selection) and other text does
/// nothing.
pub open spec fn is_planned_action(
    a: KeyAction,
    key: TextKey,
    mods: TextModifiers,
    action_key_is_meta: bool,
    composing: bool,
) -> bool {
    let action = action_modifier_held(mods, action_key_is_meta);
    if composing {
        a == KeyAction::Ignore
    } else {
        match key {
            TextKey::Escape => a == KeyAction::ExitEdit,
            TextKey::Copy => a == KeyAction::CopySelection,
            TextKey::Cut => a == KeyAction::CutSelection,
            TextKey::Backspace => a == KeyAction::Edit(EditCommand::Backdelete { word: action }),
            TextKey::Delete => a == KeyAction::Edit(EditCommand::Delete { word: action }),
            TextKey::Enter => a matches KeyAction::Edit(EditCommand::Insert(s)) && s@ == "\n"@,
            TextKey::Paste(t) => a matches KeyAction::Edit(EditCommand::Insert(s)) && s@ == t@,
            TextKey::Character(c) => if action && is_letter_a(c@) {
                a == KeyAction::Edit(
                    if mods.shift {
                        EditCommand::CollapseSelection
                    } else {
                        EditCommand::SelectAll
                    },
                )
            } else if !action {
                a matches KeyAction::Edit(EditCommand::Insert(s)) && s@ == c@
            } else {
                a == KeyAction::Edit(EditCommand::Nothing)
            },
            _ => motion_of(key, action) matches Some(m) && a == KeyAction::Edit(
                EditCommand::Navigate { motion: m, extend: mods.shift },
            ),
        }
    }
}

fn is_a_key(c: &String) -> (b: bool)
    ensures
        b == is_letter_a(c@),
{
    proof {
        reveal_strlit("a");
        reveal_strlit("A");
        assert("a"@ =~= seq!['a']);
        assert("A"@ =~= seq!['A']);
    }
    let s = c.as_str();
    if s.unicode_len() != 1 {
        assert(c@ != "a"@ && c@ != "A"@);
        return false;
    }
    let ch = s.get_char(0);
    if ch == 'a' || ch == 'A' {
        assert(c@ =~= seq![ch]);
        true
    } else {
        assert(c@ != "a"@ && c@ != "A"@);
        false
    }
}

/// Decides how the editor reacts to a key press, given the held modifiers,
/// whether the platform's command key is Meta, and whether an input-method
/// composition is in progress.
pub fn plan_key(
    key: TextKey,
    modifiers: TextModifiers,
    action_key_is_meta: bool,
    composing: bool,
) -> (a: KeyAction)
    ensures
        is_planned_action(a, key, modifiers, action_key_is_meta, composing),
{
    if composing {
        return KeyAction::Ignore;
    }
    let action = modifiers.action_mod(action_key_is_meta);
    let shift = modifiers.shift;
    let ghost k = key;
    match key {
        TextKey::Escape => KeyAction::ExitEdit,
        TextKey::Copy => KeyAction::CopySelection,
        TextKey::Cut => KeyAction::CutSelection,
        TextKey::Backspace => KeyAction::Edit(EditCommand::Backdelete { word: action }),
        TextKey::Delete => KeyAction::Edit(EditCommand::Delete { word: action }),
        TextKey::Enter => KeyAction::Edit(EditCommand::Insert(String::from_str("\n"))),
        TextKey::Paste(text) => KeyAction::Edit(EditCommand::Insert(text)),
        TextKey::Character(c) => {
            if action && is_a_key(&c) {
                if shift {
                    KeyAction::Edit(EditCommand::CollapseSelection)
                } else {
                    KeyAction::Edit(EditCommand::SelectAll)
                }
            } else if !action {
                KeyAction::Edit(EditCommand::Insert(c))
            } else {
                KeyAction::Edit(EditCommand::Nothing)
            }
        },
        TextKey::Left => {
            let m = if action {
                Motion::WordLeft
            } else {
                Motion::Left
            };
            KeyAction::Edit(EditCommand::Navigate { motion: m, extend: shift })
        },
        TextKey::Right => {
            let m = if action {
                Motion::WordRight
            } else {
                Motion::Right
            };
            KeyAction::Edit(EditCommand::Navigate { motion: m, extend: shift })
        },
        TextKey::Up => KeyAction::Edit(EditCommand::Navigate { motion: Motion::Up, extend: shift }),
        TextKey::Down => KeyAction::Edit(
            EditCommand::Navigate { motion: Motion::Down, extend: shift },
        ),
        TextKey::Home => {
            let m = if action {
                Motion::TextStart
            } else {
                Motion::LineStart
            };
            KeyAction::Edit(EditCommand::Navigate { motion: m, extend: shift })
        },
        TextKey::End => {
            let m = if action {
                Motion::TextEnd
            } else {
                Motion::LineEnd
            };
            KeyAction::Edit(EditCommand::Navigate { motion: m, extend: shift })
        },
    }
}

/// The selected byte range of the text, or `None` when the selection is
/// collapsed to a caret.
pub fn selection_span(start: usize, end: usize) -> (r: Option<(usize, usize)>)
    ensures
        r == (if start == end {
            None
        } else {
            Some((start, end))
        }),
{
    if start == end {
        None
    } else {
        Some((start, end))
    }
}

/// The follow-up of a key press once the selected text is known.
#[derive(Debug, Clone, PartialEq)]
pub struct KeyEffects {
    /// What to report back.
    pub result: TextEditResult,
    /// Whether the selection is to be deleted (a cut with something selected).
    pub delete_selection: bool,
    /// Whether the cached layout size is to be measured again.
    pub update_layout: bool,
    /// Whether the caret is to be shown and its blinking restarted: for
    /// every key the editor takes, that is every key but those that arrive
    /// during an input-method composition.
    pub reset_caret: bool,
}

/// Completes the handling of a key press: `selected` is the text selected in
/// the editor before the action. Copy and Cut hand the selection to the
/// clipboard when there is one; a cut also deletes it. Every edit, and a cut
/// that deleted something, is followed by a new layout measurement. The
/// caret is reset for every action but `Ignore`, which leaves it alone.
pub fn key_effects(action: &KeyAction, selected: Option<String>) -> (e: KeyEffects)
    ensures
        match *action {
            KeyAction::Ignore => e == KeyEffects {
                result: TextEditResult::NotHandled,
                delete_selection: false,
                update_layout: false,
                reset_caret: false,
            },
            KeyAction::ExitEdit => e == KeyEffects {
                result: TextEditResult::ExitEdit,
                delete_selection: false,
                update_layout: false,
                reset_caret: true,
            },
            KeyAction::CopySelection => e == KeyEffects {
                result: match selected {
                    Some(t) => TextEditResult::Copy(t),
                    None => TextEditResult::Handled,
                },
                delete_selection: false,
                update_layout: false,
                reset_caret: true,
            },
            KeyAction::CutSelection => e == KeyEffects {
                result: match selected {
                    Some(t) => TextEditResult::Copy(t),
                    None => TextEditResult::Handled,
                },
                delete_selection: selected is Some,
                update_layout: selected is Some,
                reset_caret: true,
            },
            KeyAction::Edit(_) => e == KeyEffects {
                result: TextEditResult::Handled,
                delete_selection: false,
                update_layout: true,
                reset_caret: true,
            },
        },
{
    match action {
        KeyAction::Ignore => KeyEffects {
            result: TextEditResult::NotHandled,
            delete_selection: false,
            update_layout: false,
            reset_caret: false,
        },
        KeyAction::ExitEdit => KeyEffects {
            result: TextEditResult::ExitEdit,
            delete_selection: false,
            update_layout: false,
            reset_caret: true,
        },
        KeyAction::CopySelection => KeyEffects {
            result: match selected {
                Some(t) => TextEditResult::Copy(t),
                None => TextEditResult::Handled,
            },
            delete_selection: false,
            update_layout: false,
            reset_caret: true,
        },
        KeyAction::CutSelection => {
            let has = selected.is_some();
            KeyEffects {
                result: match selected {
                    Some(t) => TextEditResult::Copy(t),
                    None => TextEditResult::Handled,
                },
                delete_selection: has,
                update_layout: has,
                reset_caret: true,
            }
        },
        KeyAction::Edit(_) => KeyEffects {
            result: TextEditResult::Handled,
            delete_selection: false,
            update_layout: true,
            reset_caret: true,
        },
    }
}

/// Applies a key press's caret decision: a reset shows the caret and
/// restarts its blink; otherwise the caret is left exactly as it was.
pub fn apply_key_to_caret(caret: &mut CaretState, effects: &KeyEffects)
    ensures
        effects.reset_caret ==> {
            &&& final(caret)@.visible
            &&& final(caret)@.blinking
            &&& final(caret)@.period_ms == BLINK_PERIOD_MS
            &&& final(caret)@.dragging == old(caret)@.dragging
        },
        !effects.reset_caret ==> final(caret)@ == old(caret)@,
{
    if effects.reset_caret {
        caret.cursor_reset();
    }
}

/// A key press resets the caret exactly when no input-method composition is
/// in progress: the planned action is `Ignore` then and only then, and
/// `key_effects` resets the caret for every other action.
pub proof fn lemma_key_ignored_iff_composing(
    a: KeyAction,
    key: TextKey,
    mods: TextModifiers,
    action_key_is_meta: bool,
    composing: bool,
)
    requires
        is_planned_action(a, key, mods, action_key_is_meta, composing),
    ensures
        (a == KeyAction::Ignore) <==> composing,
{
}

/// Navigation keys move the caret, and Shift alone decides whether the
/// selection is extended, for every one of them: Left and Right step by a
/// character (by a word with the command modifier), Up and Down by a line,
/// Home and End go to the line's ends (the text's ends with the command
/// modifier).
pub proof fn lemma_navigation_keys(
    a: KeyAction,
    key: TextKey,
    mods: TextModifiers,
    action_key_is_meta: bool,
)
    requires
        is_planned_action(a, key, mods, action_key_is_meta, false),
        key is Left || key is Right || key is Up || key is Down || key is Home || key is End,
    ensures
        a matches KeyAction::Edit(EditCommand::Navigate { motion, extend }) && extend == mods.shift
            && ({
            let cmd = action_modifier_held(mods, action_key_is_meta);
            &&& key is Left ==> motion == (if cmd {
                Motion::WordLeft
            } else {
                Motion::Left
            })
            &&& key is Right ==> motion == (if cmd {
                Motion::WordRight
            } else {
                Motion::Right
            })
            &&& key is Up ==> motion == Motion::Up
            &&& key is Down ==> motion == Motion::Down
            &&& key is Home ==> motion == (if cmd {
                Motion::TextStart
            } else {
                Motion::LineStart
            })
            &&& key is End ==> motion == (if cmd {
                Motion::TextEnd
            } else {
                Motion::LineEnd
            })
        }),
{
}

} // verus!
