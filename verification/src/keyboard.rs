//! What a key press and a change of focus ask of the window.
use crate::message::{ArrowKey, Message, Move, WindowId};
use crate::page::Page;
use crate::text::{number_in, parse_number, same_text};
use crate::text_laws::law_numbers_are_decimal;
use vstd::prelude::*;

verus! {

/// The keys with a name that the window knows.
#[derive(Clone, Copy, Debug, PartialEq, Eq, Structural)]
pub enum NamedKey {
    ArrowUp,
    ArrowLeft,
    ArrowRight,
    ArrowDown,
    Enter,
    Backspace,
    Escape,
    Other,
}

/// A key on the keyboard.
#[derive(Debug)]
pub enum Key {
    Named(NamedKey),
    Character(String),
    Unidentified,
}

/// The modifier keys that are held.
#[derive(Clone, Copy, Debug, PartialEq, Eq, Structural)]
pub struct Modifiers {
    pub shift: bool,
    pub control: bool,
    pub alt: bool,
    pub logo: bool,
    /// The main modifier key for hotkeys on this platform is held: the logo key
    /// on macOS, the control key elsewhere.
    pub command: bool,
}

/// What the keyboard does.
#[derive(Debug)]
pub enum KeyboardEvent {
    KeyPressed { key: Key, modifiers: Modifiers },
    Other,
}

/// What a window meets.
#[derive(Clone, Copy, Debug, PartialEq, Eq, Structural)]
pub enum WindowEvent {
    Focused,
    Unfocused,
    Other,
}

impl Modifiers {
    /// The logo key is held and no other modifier key.
    pub open spec fn logo_alone(self) -> bool {
        self.logo && !self.shift && !self.control && !self.alt
    }
}

/// What an event of the keyboard asks of the window that it reaches: Escape is
/// handed on, and the logo key with a comma opens the settings.
pub open spec fn window_key_answer(event: KeyboardEvent, window: WindowId) -> Option<Message> {
    match event {
        KeyboardEvent::KeyPressed { key, modifiers } => match key {
            Key::Named(NamedKey::Escape) => Some(Message::EscKeyPressed(window)),
            Key::Character(text) => if modifiers.logo_alone() && text@ == ","@ {
                Some(Message::SwitchToPage(Page::Settings))
            } else {
                None
            },
            _ => None,
        },
        KeyboardEvent::Other => None,
    }
}

/// What a character key asks for: with the command key to reload the settings
/// or to open a result by its number, with the control key to move the focus or
/// to empty the query, and otherwise to be typed.
pub open spec fn character_answer(text: String, modifiers: Modifiers) -> Option<Message> {
    if modifiers.command && text@ == "r"@ {
        Some(Message::ReloadConfig)
    } else if modifiers.command {
        match number_in(text@) {
            Some(n) => if 1 <= n <= 9 {
                Some(Message::OpenResult((n - 1) as u32))
            } else {
                None
            },
            None => None,
        }
    } else if text@ == "p"@ && modifiers.control {
        Some(Message::ChangeFocus(ArrowKey::Up, 1))
    } else if text@ == "n"@ && modifiers.control {
        Some(Message::ChangeFocus(ArrowKey::Down, 1))
    } else if text@ == "u"@ && modifiers.control {
        Some(Message::FocusTextInput(Move::ClearAll))
    } else {
        Some(Message::FocusTextInput(Move::Forwards(text)))
    }
}

/// What an event of the keyboard asks for while the launcher is in use.
pub open spec fn key_answer(event: KeyboardEvent) -> Option<Message> {
    match event {
        KeyboardEvent::KeyPressed { key, modifiers } => match key {
            Key::Named(NamedKey::ArrowUp) => Some(Message::ChangeFocus(ArrowKey::Up, 1)),
            Key::Named(NamedKey::ArrowLeft) => Some(Message::ChangeFocus(ArrowKey::Left, 1)),
            Key::Named(NamedKey::ArrowRight) => Some(Message::ChangeFocus(ArrowKey::Right, 1)),
            Key::Named(NamedKey::ArrowDown) => Some(Message::ChangeFocus(ArrowKey::Down, 1)),
            Key::Character(text) => character_answer(text, modifiers),
            Key::Named(NamedKey::Enter) => Some(Message::OpenFocused),
            Key::Named(NamedKey::Backspace) => Some(Message::FocusTextInput(Move::Back)),
            _ => None,
        },
        KeyboardEvent::Other => None,
    }
}

/// What a window's event asks for: every gain of the focus is told, a loss only
/// if the launcher had it.
pub open spec fn focus_answer(focused: bool, window: WindowId, event: WindowEvent) -> Option<
    Message,
> {
    match event {
        WindowEvent::Unfocused => if focused {
            Some(Message::WindowFocusChanged(window, false))
        } else {
            None
        },
        WindowEvent::Focused => Some(Message::WindowFocusChanged(window, true)),
        WindowEvent::Other => None,
    }
}

/// The message for an event of the keyboard that reached `window`.
pub fn window_key_message(event: KeyboardEvent, window: WindowId) -> (message: Option<Message>)
    ensures
        message == window_key_answer(event, window),
{
    match event {
        KeyboardEvent::KeyPressed { key, modifiers } => match key {
            Key::Named(NamedKey::Escape) => Some(Message::EscKeyPressed(window)),
            Key::Character(text) => {
                let alone = modifiers.logo && !modifiers.shift && !modifiers.control
                    && !modifiers.alt;
                if alone && same_text(text.as_str(), ",") {
                    Some(Message::SwitchToPage(Page::Settings))
                } else {
                    None
                }
            },
            _ => None,
        },
        KeyboardEvent::Other => None,
    }
}

/// The message for a character key.
fn character_message(text: String, modifiers: Modifiers) -> (message: Option<Message>)
    ensures
        message == character_answer(text, modifiers),
{
    if modifiers.command && same_text(text.as_str(), "r") {
        Some(Message::ReloadConfig)
    } else if modifiers.command {
        match parse_number(text.as_str()) {
            Some(n) => {
                if 1 <= n && n <= 9 {
                    Some(Message::OpenResult((n - 1) as u32))
                } else {
                    None
                }
            },
            None => None,
        }
    } else if same_text(text.as_str(), "p") && modifiers.control {
        Some(Message::ChangeFocus(ArrowKey::Up, 1))
    } else if same_text(text.as_str(), "n") && modifiers.control {
        Some(Message::ChangeFocus(ArrowKey::Down, 1))
    } else if same_text(text.as_str(), "u") && modifiers.control {
        Some(Message::FocusTextInput(Move::ClearAll))
    } else {
        Some(Message::FocusTextInput(Move::Forwards(text)))
    }
}

/// The message for an event of the keyboard while the launcher is in use.
pub fn key_message(event: KeyboardEvent) -> (message: Option<Message>)
    ensures
        message == key_answer(event),
{
    match event {
        KeyboardEvent::KeyPressed { key, modifiers } => match key {
            Key::Named(NamedKey::ArrowUp) => Some(Message::ChangeFocus(ArrowKey::Up, 1)),
            Key::Named(NamedKey::ArrowLeft) => Some(Message::ChangeFocus(ArrowKey::Left, 1)),
            Key::Named(NamedKey::ArrowRight) => Some(Message::ChangeFocus(ArrowKey::Right, 1)),
            Key::Named(NamedKey::ArrowDown) => Some(Message::ChangeFocus(ArrowKey::Down, 1)),
            Key::Character(text) => character_message(text, modifiers),
            Key::Named(NamedKey::Enter) => Some(Message::OpenFocused),
            Key::Named(NamedKey::Backspace) => Some(Message::FocusTextInput(Move::Back)),
            _ => None,
        },
        KeyboardEvent::Other => None,
    }
}

/// The message for a window's event; `focused` says whether the launcher had
/// the focus.
pub fn focus_message(focused: bool, window: WindowId, event: WindowEvent) -> (message: Option<
    Message,
>)
    ensures
        message == focus_answer(focused, window, event),
{
    match event {
        WindowEvent::Unfocused => {
            if focused {
                Some(Message::WindowFocusChanged(window, false))
            } else {
                None
            }
        },
        WindowEvent::Focused => Some(Message::WindowFocusChanged(window, true)),
        WindowEvent::Other => None,
    }
}

/// The command key with a number opens one of the first nine results, and no
/// other key press opens a result by number.
pub proof fn law_only_nine_results_open_by_number(event: KeyboardEvent, result: u32)
    requires
        key_answer(event) == Some(Message::OpenResult(result)),
    ensures
        result < 9,
        event matches KeyboardEvent::KeyPressed { key, modifiers } && modifiers.command && (
        key matches Key::Character(text) && number_in(text@) == Some((result + 1) as nat)),
{
}

/// Without the command and control keys every character key is typed as it is.
pub proof fn law_plain_characters_are_typed(text: String, modifiers: Modifiers)
    requires
        !modifiers.command,
        !modifiers.control,
    ensures
        key_answer(KeyboardEvent::KeyPressed { key: Key::Character(text), modifiers }) == Some(
            Message::FocusTextInput(Move::Forwards(text)),
        ),
{
}

/// Escape reaches the window whatever modifier keys are held, and asks for
/// nothing else.
pub proof fn law_escape_is_handed_on(modifiers: Modifiers, window: WindowId)
    ensures
        window_key_answer(
            KeyboardEvent::KeyPressed { key: Key::Named(NamedKey::Escape), modifiers },
            window,
        ) == Some(Message::EscKeyPressed(window)),
        key_answer(
            KeyboardEvent::KeyPressed { key: Key::Named(NamedKey::Escape), modifiers },
        ) is None,
{
}

/// Without the command key a character key is typed as it is, whatever is
/// written on it, unless it is one of the three that the control key gives a
/// meaning to.
pub proof fn law_other_characters_are_typed(text: String, modifiers: Modifiers)
    requires
        !modifiers.command,
        text@ != seq!['p'],
        text@ != seq!['n'],
        text@ != seq!['u'],
    ensures
        key_answer(KeyboardEvent::KeyPressed { key: Key::Character(text), modifiers }) == Some(
            Message::FocusTextInput(Move::Forwards(text)),
        ),
{
    lemma_letters();
}

/// With the control key and without the command key, `p` and `n` move the focus
/// by one and `u` empties the query, whatever else is held.
pub proof fn law_control_keys(text: String, modifiers: Modifiers)
    requires
        !modifiers.command,
        modifiers.control,
    ensures
        ({
            let answer = key_answer(
                KeyboardEvent::KeyPressed { key: Key::Character(text), modifiers },
            );
            &&& text@ == seq!['p'] ==> answer == Some(Message::ChangeFocus(ArrowKey::Up, 1))
            &&& text@ == seq!['n'] ==> answer == Some(Message::ChangeFocus(ArrowKey::Down, 1))
            &&& text@ == seq!['u'] ==> answer == Some(Message::FocusTextInput(Move::ClearAll))
        }),
{
    lemma_letters();
}

/// With the command key `r` reloads the settings, a number from one to nine opens
/// the result with that number, counted from zero, and nothing else does
/// anything: no character is typed.
pub proof fn law_command_keys(text: String, modifiers: Modifiers)
    requires
        modifiers.command,
    ensures
        ({
            let answer = key_answer(
                KeyboardEvent::KeyPressed { key: Key::Character(text), modifiers },
            );
            &&& text@ == seq!['r'] ==> answer == Some(Message::ReloadConfig)
            &&& text@ != seq!['r'] ==> match number_in(text@) {
                Some(n) => answer == if n == 0 || n > 9 {
                    None::<Message>
                } else {
                    Some(Message::OpenResult((n - 1) as u32))
                },
                None => answer is None,
            }
        }),
{
    lemma_letters();
}

/// The digit for a number from one to nine, with the command key, opens the
/// result with that number.
pub proof fn law_digits_open_results(text: String, modifiers: Modifiers, n: int)
    requires
        modifiers.command,
        1 <= n <= 9,
        text@ == seq!["0123456789"@[n]],
    ensures
        key_answer(KeyboardEvent::KeyPressed { key: Key::Character(text), modifiers }) == Some(
            Message::OpenResult((n - 1) as u32),
        ),
{
    reveal_strlit("0123456789");
    law_numbers_are_decimal(Seq::empty(), n);
    law_command_keys(text, modifiers);
    assert(text@[0] != 'r');
}

/// The keys with a name do the same whatever modifier keys are held: the arrows
/// move the focus by one, Enter opens what has the focus, Backspace takes a
/// character back, and the others do nothing.
pub proof fn law_named_keys(key: NamedKey, modifiers: Modifiers)
    ensures
        ({
            let answer = key_answer(KeyboardEvent::KeyPressed { key: Key::Named(key), modifiers });
            &&& key == NamedKey::ArrowUp ==> answer == Some(Message::ChangeFocus(ArrowKey::Up, 1))
            &&& key == NamedKey::ArrowDown ==> answer == Some(
                Message::ChangeFocus(ArrowKey::Down, 1),
            )
            &&& key == NamedKey::ArrowLeft ==> answer == Some(
                Message::ChangeFocus(ArrowKey::Left, 1),
            )
            &&& key == NamedKey::ArrowRight ==> answer == Some(
                Message::ChangeFocus(ArrowKey::Right, 1),
            )
            &&& key == NamedKey::Enter ==> answer == Some(Message::OpenFocused)
            &&& key == NamedKey::Backspace ==> answer == Some(Message::FocusTextInput(Move::Back))
            &&& key == NamedKey::Escape || key == NamedKey::Other ==> answer is None
        }),
{
}

/// The settings open exactly for a comma with the logo key and no other modifier
/// key; apart from Escape no other key press reaches the window this way.
pub proof fn law_comma_opens_the_settings(key: Key, modifiers: Modifiers, window: WindowId)
    ensures
        ({
            let answer = window_key_answer(KeyboardEvent::KeyPressed { key, modifiers }, window);
            let comma = key matches Key::Character(text) && text@ == seq![','];
            let alone = modifiers.logo && !modifiers.shift && !modifiers.control && !modifiers.alt;
            &&& comma && alone ==> answer == Some(Message::SwitchToPage(Page::Settings))
            &&& !(comma && alone) && key != Key::Named(NamedKey::Escape) ==> answer is None
        }),
{
    reveal_strlit(",");
    assert(","@ =~= seq![',']);
}

/// A window's gain of the focus is always told, with the window; its loss exactly
/// if the launcher had the focus; and nothing else is.
pub proof fn law_focus_is_told(focused: bool, window: WindowId)
    ensures
        focus_answer(focused, window, WindowEvent::Focused) == Some(
            Message::WindowFocusChanged(window, true),
        ),
        focus_answer(true, window, WindowEvent::Unfocused) == Some(
            Message::WindowFocusChanged(window, false),
        ),
        focus_answer(false, window, WindowEvent::Unfocused) is None,
        focus_answer(focused, window, WindowEvent::Other) is None,
        key_answer(KeyboardEvent::Other) is None,
        window_key_answer(KeyboardEvent::Other, window) is None,
{
}

proof fn lemma_letters()
    ensures
        "r"@ == seq!['r'],
        "p"@ == seq!['p'],
        "n"@ == seq!['n'],
        "u"@ == seq!['u'],
        seq!['p'] != seq!['n'],
        seq!['p'] != seq!['u'],
        seq!['n'] != seq!['u'],
{
    reveal_strlit("r");
    reveal_strlit("p");
    reveal_strlit("n");
    reveal_strlit("u");
    assert("r"@ =~= seq!['r']);
    assert("p"@ =~= seq!['p']);
    assert("n"@ =~= seq!['n']);
    assert("u"@ =~= seq!['u']);
    assert(seq!['p'][0] != seq!['n'][0]);
    assert(seq!['p'][0] != seq!['u'][0]);
    assert(seq!['n'][0] != seq!['u'][0]);
}

} // verus!
