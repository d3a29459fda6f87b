//! Key presses as the dashboard reads them, and text editing with them.
use vstd::prelude::*;

use crate::text::{insert_at, insert_char, remove_chars, remove_range};

verus! {

/// The key of a key press.
#[derive(Clone, Copy, Debug, PartialEq, Eq, Structural)]
pub enum KeyCode {
    Char(char),
    Enter,
    Esc,
    Backspace,
    Delete,
    Left,
    Right,
    Up,
    Down,
    Home,
    End,
    Tab,
    BackTab,
    Other,
}

/// A key press with the modifiers that the dashboard reads.
#[derive(Clone, Copy, Debug, PartialEq, Eq, Structural)]
pub struct KeyEvent {
    pub code: KeyCode,
    pub control: bool,
    pub alt: bool,
}

impl KeyEvent {
    /// A press of `code` without modifiers.
    pub fn new(code: KeyCode) -> (key: KeyEvent)
        ensures
            key == (KeyEvent { code, control: false, alt: false }),
    {
        KeyEvent { code, control: false, alt: false }
    }

    /// A press of `code` with Ctrl held.
    pub fn with_control(code: KeyCode) -> (key: KeyEvent)
        ensures
            key == (KeyEvent { code, control: true, alt: false }),
    {
        KeyEvent { code, control: true, alt: false }
    }
}

/// The text after `key` edits `value` with the cursor before character `cursor`.
pub open spec fn edited_text(value: Seq<char>, cursor: int, key: KeyEvent) -> Seq<char> {
    match key.code {
        KeyCode::Char(c) => if !key.control && !key.alt {
            insert_char(value, cursor, c)
        } else {
            value
        },
        KeyCode::Backspace => if cursor > 0 {
            remove_chars(value, cursor - 1, cursor)
        } else {
            value
        },
        KeyCode::Delete => if cursor < value.len() {
            remove_chars(value, cursor, cursor + 1)
        } else {
            value
        },
        _ => value,
    }
}

/// The cursor after `key` edits `value` with the cursor before character `cursor`.
pub open spec fn edited_cursor(value: Seq<char>, cursor: int, key: KeyEvent) -> int {
    match key.code {
        KeyCode::Char(_) => if !key.control && !key.alt {
            cursor + 1
        } else {
            cursor
        },
        KeyCode::Backspace => if cursor > 0 {
            cursor - 1
        } else {
            cursor
        },
        KeyCode::Left => if cursor > 0 {
            cursor - 1
        } else {
            0
        },
        KeyCode::Right => if cursor + 1 <= value.len() {
            cursor + 1
        } else {
            value.len() as int
        },
        KeyCode::Home => 0,
        KeyCode::End => value.len() as int,
        _ => cursor,
    }
}

/// Delete removes exactly the character under the cursor and leaves the cursor where it
/// is: the text keeps what came before the cursor and what came after that character.
/// Backspace removes exactly the character before the cursor and moves the cursor back
/// onto its place. A typed character lands at the cursor, which moves past it.
pub proof fn lemma_editing_keys_act_at_the_cursor(value: Seq<char>, cursor: int, c: char)
    requires
        0 <= cursor <= value.len(),
    ensures
        cursor < value.len() ==> ({
            let text = edited_text(value, cursor, KeyEvent { code: KeyCode::Delete, control: false, alt: false });
            &&& text.len() == value.len() - 1
            &&& forall|i: int| 0 <= i < cursor ==> #[trigger] text[i] == value[i]
            &&& forall|i: int| cursor <= i < text.len() ==> #[trigger] text[i] == value[i + 1]
        }),
        edited_cursor(value, cursor, KeyEvent { code: KeyCode::Delete, control: false, alt: false }) == cursor,
        cursor == value.len() ==> edited_text(value, cursor, KeyEvent { code: KeyCode::Delete, control: false, alt: false })
            == value,
        cursor > 0 ==> ({
            let text = edited_text(value, cursor, KeyEvent { code: KeyCode::Backspace, control: false, alt: false });
            &&& text.len() == value.len() - 1
            &&& forall|i: int| 0 <= i < cursor - 1 ==> #[trigger] text[i] == value[i]
            &&& forall|i: int| cursor - 1 <= i < text.len() ==> #[trigger] text[i] == value[i + 1]
            &&& edited_cursor(value, cursor, KeyEvent { code: KeyCode::Backspace, control: false, alt: false })
                == cursor - 1
        }),
        ({
            let text = edited_text(value, cursor, KeyEvent { code: KeyCode::Char(c), control: false, alt: false });
            &&& text.len() == value.len() + 1
            &&& text[cursor] == c
            &&& forall|i: int| 0 <= i < cursor ==> #[trigger] text[i] == value[i]
            &&& forall|i: int| cursor < i < text.len() ==> #[trigger] text[i] == value[i - 1]
            &&& edited_cursor(value, cursor, KeyEvent { code: KeyCode::Char(c), control: false, alt: false })
                == cursor + 1
        }),
{
}

/// The arrows, Home and End move the cursor and leave the text as it is: Left one place
/// back but not before the start, Right one place on but not past the end, Home to the
/// start and End to the end.
pub proof fn lemma_moving_keys_keep_the_text(value: Seq<char>, cursor: int)
    requires
        0 <= cursor <= value.len(),
    ensures
        forall|code: KeyCode|
            code == KeyCode::Left || code == KeyCode::Right || code == KeyCode::Home || code == KeyCode::End
                ==> #[trigger] edited_text(value, cursor, KeyEvent { code, control: false, alt: false }) == value,
        edited_cursor(value, cursor, KeyEvent { code: KeyCode::Left, control: false, alt: false }) == if cursor > 0 {
            cursor - 1
        } else {
            0
        },
        edited_cursor(value, cursor, KeyEvent { code: KeyCode::Right, control: false, alt: false }) == if cursor
            < value.len() {
            cursor + 1
        } else {
            value.len() as int
        },
        edited_cursor(value, cursor, KeyEvent { code: KeyCode::Home, control: false, alt: false }) == 0,
        edited_cursor(value, cursor, KeyEvent { code: KeyCode::End, control: false, alt: false }) == value.len(),
{
}

/// Delete with the cursor one place further back removes what Backspace removes, and a
/// typed character is taken back by Backspace.
pub proof fn lemma_delete_and_backspace_agree(value: Seq<char>, cursor: int, c: char)
    requires
        0 < cursor <= value.len(),
    ensures
        edited_text(value, cursor - 1, KeyEvent { code: KeyCode::Delete, control: false, alt: false })
            == edited_text(value, cursor, KeyEvent { code: KeyCode::Backspace, control: false, alt: false }),
        edited_text(
            edited_text(value, cursor, KeyEvent { code: KeyCode::Char(c), control: false, alt: false }),
            cursor + 1,
            KeyEvent { code: KeyCode::Backspace, control: false, alt: false },
        ) == value,
{
    let typed = edited_text(value, cursor, KeyEvent { code: KeyCode::Char(c), control: false, alt: false });
    assert(typed.take(cursor) + typed.skip(cursor + 1) =~= value);
}

/// Applies a key to a text field: typing inserts at the cursor, Backspace and Delete
/// remove the character before or after it, and the arrows, Home and End move it.
pub fn edit_value(value: &mut String, cursor: &mut usize, key: KeyEvent)
    requires
        *old(cursor) < usize::MAX,
    ensures
        final(value)@ == edited_text(old(value)@, *old(cursor) as int, key),
        *final(cursor) == edited_cursor(old(value)@, *old(cursor) as int, key),
{
    match key.code {
        KeyCode::Char(c) => {
            if !key.control && !key.alt {
                insert_at(value, *cursor, c);
                *cursor = *cursor + 1;
            }
        },
        KeyCode::Backspace => {
            if *cursor > 0 {
                remove_range(value, *cursor - 1, *cursor);
                *cursor = *cursor - 1;
            }
        },
        KeyCode::Delete => {
            if *cursor < value.as_str().unicode_len() {
                remove_range(value, *cursor, *cursor + 1);
            }
        },
        KeyCode::Left => {
            *cursor = if *cursor > 0 { *cursor - 1 } else { 0 };
        },
        KeyCode::Right => {
            let n = value.as_str().unicode_len();
            *cursor = if *cursor + 1 <= n { *cursor + 1 } else { n };
        },
        KeyCode::Home => {
            *cursor = 0;
        },
        KeyCode::End => {
            *cursor = value.as_str().unicode_len();
        },
        _ => {},
    }
}

} // verus!
