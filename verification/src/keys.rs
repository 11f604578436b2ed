//! Keyboard input: what a key event does to the terminal.

use vstd::prelude::*;

verus! {

/// A key, as far as the terminal tells keys apart.
#[derive(Debug, PartialEq, Eq)]
pub enum KeyInput {
    /// The Escape key.
    Escape,
    /// The Enter key.
    Enter,
    /// The Backspace key.
    Backspace,
    /// The Tab key.
    Tab,
    /// A key that types text.
    Character(String),
    /// Any other key.
    Other,
}

/// What the terminal does on a key event.
#[derive(Debug, PartialEq, Eq)]
pub enum KeyAction {
    /// Leave the program.
    Exit,
    /// Send one byte to the shell.
    SendByte(u8),
    /// Send text to the shell.
    SendText(String),
    /// Do nothing.
    Ignore,
}

/// What a key event does. Only a fresh press counts: releases and repeats
/// are ignored. Escape leaves the program; Enter sends a carriage return,
/// Backspace a backspace and Tab a tab; a key that types text sends that
/// text.
pub open spec fn key_rule(pressed: bool, repeat: bool, key: KeyInput) -> KeyAction {
    if !pressed || repeat {
        KeyAction::Ignore
    } else {
        match key {
            KeyInput::Escape => KeyAction::Exit,
            KeyInput::Enter => KeyAction::SendByte(0x0d),
            KeyInput::Backspace => KeyAction::SendByte(0x08),
            KeyInput::Tab => KeyAction::SendByte(0x09),
            KeyInput::Character(text) => KeyAction::SendText(text),
            KeyInput::Other => KeyAction::Ignore,
        }
    }
}

/// Decides what a key event does.
pub fn key_action(pressed: bool, repeat: bool, key: &KeyInput) -> (action: KeyAction)
    ensures
        action == key_rule(pressed, repeat, *key),
{
    if !pressed || repeat {
        return KeyAction::Ignore;
    }
    match key {
        KeyInput::Escape => KeyAction::Exit,
        KeyInput::Enter => KeyAction::SendByte(0x0d),
        KeyInput::Backspace => KeyAction::SendByte(0x08),
        KeyInput::Tab => KeyAction::SendByte(0x09),
        KeyInput::Character(text) => KeyAction::SendText(text.clone()),
        KeyInput::Other => KeyAction::Ignore,
    }
}

} // verus!
