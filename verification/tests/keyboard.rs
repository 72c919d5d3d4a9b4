use rustcast::keyboard::{
    focus_message, key_message, window_key_message, Key, KeyboardEvent, Modifiers, NamedKey,
    WindowEvent,
};
use rustcast::message::{ArrowKey, Message, Move, WindowId};
use rustcast::page::Page;

const NONE: Modifiers = Modifiers {
    shift: false,
    control: false,
    alt: false,
    logo: false,
    command: false,
};

const WINDOW: WindowId = WindowId { number: 3 };

fn named(key: NamedKey) -> KeyboardEvent {
    KeyboardEvent::KeyPressed {
        key: Key::Named(key),
        modifiers: NONE,
    }
}

fn character(text: &str, modifiers: Modifiers) -> KeyboardEvent {
    KeyboardEvent::KeyPressed {
        key: Key::Character(text.to_string()),
        modifiers,
    }
}

fn command() -> Modifiers {
    Modifiers {
        logo: true,
        command: true,
        ..NONE
    }
}

fn control() -> Modifiers {
    Modifiers {
        control: true,
        ..NONE
    }
}

#[test]
fn arrows_move_the_focus() {
    let arrow = |key| match key_message(named(key)) {
        Some(Message::ChangeFocus(arrow, 1)) => arrow,
        other => panic!("{other:?}"),
    };
    assert_eq!(arrow(NamedKey::ArrowUp), ArrowKey::Up);
    assert_eq!(arrow(NamedKey::ArrowDown), ArrowKey::Down);
    assert_eq!(arrow(NamedKey::ArrowLeft), ArrowKey::Left);
    assert_eq!(arrow(NamedKey::ArrowRight), ArrowKey::Right);
}

#[test]
fn control_moves_the_focus_and_empties_the_query() {
    assert!(matches!(
        key_message(character("p", control())),
        Some(Message::ChangeFocus(ArrowKey::Up, 1))
    ));
    assert!(matches!(
        key_message(character("n", control())),
        Some(Message::ChangeFocus(ArrowKey::Down, 1))
    ));
    assert!(matches!(
        key_message(character("u", control())),
        Some(Message::FocusTextInput(Move::ClearAll))
    ));
}

#[test]
fn characters_are_typed() {
    for (text, modifiers) in [("p", NONE), ("é", NONE), ("x", control()), ("5", NONE)] {
        match key_message(character(text, modifiers)) {
            Some(Message::FocusTextInput(Move::Forwards(typed))) => assert_eq!(typed, text),
            other => panic!("{other:?}"),
        }
    }
}

#[test]
fn command_reloads_and_opens_results_by_number() {
    assert!(matches!(
        key_message(character("r", command())),
        Some(Message::ReloadConfig)
    ));
    for n in 1..=9u32 {
        match key_message(character(&n.to_string(), command())) {
            Some(Message::OpenResult(result)) => assert_eq!(result, n - 1),
            other => panic!("{other:?}"),
        }
    }
    for text in ["0", "10", "x", "p", ""] {
        assert!(key_message(character(text, command())).is_none());
    }
    match key_message(character("+04", command())) {
        Some(Message::OpenResult(result)) => assert_eq!(result, 3),
        other => panic!("{other:?}"),
    }
}

#[test]
fn enter_and_backspace_have_their_messages() {
    assert!(matches!(
        key_message(named(NamedKey::Enter)),
        Some(Message::OpenFocused)
    ));
    assert!(matches!(
        key_message(named(NamedKey::Backspace)),
        Some(Message::FocusTextInput(Move::Back))
    ));
    assert!(key_message(named(NamedKey::Escape)).is_none());
    assert!(key_message(named(NamedKey::Other)).is_none());
    assert!(key_message(KeyboardEvent::Other).is_none());
    assert!(key_message(KeyboardEvent::KeyPressed {
        key: Key::Unidentified,
        modifiers: NONE
    })
    .is_none());
}

#[test]
fn escape_reaches_the_window() {
    match window_key_message(named(NamedKey::Escape), WINDOW) {
        Some(Message::EscKeyPressed(window)) => assert_eq!(window, WINDOW),
        other => panic!("{other:?}"),
    }
    assert!(window_key_message(named(NamedKey::Enter), WINDOW).is_none());
    assert!(window_key_message(KeyboardEvent::Other, WINDOW).is_none());
}

#[test]
fn logo_and_comma_alone_open_the_settings() {
    match window_key_message(character(",", command()), WINDOW) {
        Some(Message::SwitchToPage(page)) => assert_eq!(page, Page::Settings),
        other => panic!("{other:?}"),
    }
    assert!(window_key_message(character(".", command()), WINDOW).is_none());
    assert!(window_key_message(character(",", NONE), WINDOW).is_none());
    for more in [
        Modifiers {
            shift: true,
            ..command()
        },
        Modifiers {
            control: true,
            ..command()
        },
        Modifiers {
            alt: true,
            ..command()
        },
    ] {
        assert!(window_key_message(character(",", more), WINDOW).is_none());
    }
}

#[test]
fn loss_of_focus_is_told_once() {
    match focus_message(true, WINDOW, WindowEvent::Unfocused) {
        Some(Message::WindowFocusChanged(window, focused)) => {
            assert_eq!(window, WINDOW);
            assert!(!focused);
        }
        other => panic!("{other:?}"),
    }
    assert!(focus_message(false, WINDOW, WindowEvent::Unfocused).is_none());
    for before in [true, false] {
        assert!(matches!(
            focus_message(before, WINDOW, WindowEvent::Focused),
            Some(Message::WindowFocusChanged(WINDOW, true))
        ));
        assert!(focus_message(before, WINDOW, WindowEvent::Other).is_none());
    }
}
