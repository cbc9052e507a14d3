//! Key presses to actions.
use crate::actions::Action;
use crate::app::{View, ViewKind};
use vstd::prelude::*;

verus! {

/// A key press, as plain values.
#[derive(Debug, Clone, Copy, PartialEq, Eq, Structural)]
pub enum Key {
    Esc,
    Backspace,
    Up,
    Down,
    Enter,
    Tab,
    Char(char),
    /// Any other key.
    Other,
}

/// The action of a key: search keys while searching, yes/no while
/// confirming, the main bindings otherwise.
pub open spec fn spec_map_key(key: Key, search_mode: bool, view: ViewKind) -> Action {
    if search_mode {
        match key {
            Key::Esc => Action::Close,
            Key::Backspace => Action::SearchBackspace,
            Key::Down | Key::Char('j') => Action::MoveDown,
            Key::Up | Key::Char('k') => Action::MoveUp,
            Key::Enter => Action::Close,
            Key::Char(c) => Action::SearchChar(c),
            _ => Action::Noop,
        }
    } else if view is Confirm {
        match key {
            Key::Char('y') | Key::Char('Y') => Action::ConfirmYes,
            Key::Char('n') | Key::Char('N') | Key::Esc => Action::Close,
            _ => Action::Noop,
        }
    } else {
        match key {
            Key::Char('q') => Action::Quit,
            Key::Char('j') | Key::Down => Action::MoveDown,
            Key::Char('k') | Key::Up => Action::MoveUp,
            Key::Char('g') => Action::MoveTop,
            Key::Char('G') => Action::MoveBottom,
            Key::Enter => Action::OpenPackages,
            Key::Esc => Action::Close,
            Key::Char('a') => Action::AddOrSync,
            Key::Char('S') => Action::SyncAll,
            Key::Char('d') => Action::RemoveRepo,
            Key::Char('r') => Action::RefreshCache,
            Key::Tab => if view is Browse {
                Action::TabInstalled
            } else {
                Action::TabBrowse
            },
            Key::Char('/') => Action::SearchStart,
            Key::Char('h') => Action::ToggleHelp,
            _ => Action::Noop,
        }
    }
}

/// The action that a key press asks for in the given state.
pub fn map_key(key: Key, search_mode: bool, view: &View) -> (a: Action)
    ensures
        a == spec_map_key(key, search_mode, view.kind()),
{
    if search_mode {
        return match key {
            Key::Esc => Action::Close,
            Key::Backspace => Action::SearchBackspace,
            Key::Down | Key::Char('j') => Action::MoveDown,
            Key::Up | Key::Char('k') => Action::MoveUp,
            Key::Enter => Action::Close,
            Key::Char(c) => Action::SearchChar(c),
            _ => Action::Noop,
        };
    }
    if view.is_confirm() {
        return match key {
            Key::Char('y') | Key::Char('Y') => Action::ConfirmYes,
            Key::Char('n') | Key::Char('N') | Key::Esc => Action::Close,
            _ => Action::Noop,
        };
    }
    match key {
        Key::Char('q') => Action::Quit,
        Key::Char('j') | Key::Down => Action::MoveDown,
        Key::Char('k') | Key::Up => Action::MoveUp,
        Key::Char('g') => Action::MoveTop,
        Key::Char('G') => Action::MoveBottom,
        Key::Enter => Action::OpenPackages,
        Key::Esc => Action::Close,
        Key::Char('a') => Action::AddOrSync,
        Key::Char('S') => Action::SyncAll,
        Key::Char('d') => Action::RemoveRepo,
        Key::Char('r') => Action::RefreshCache,
        Key::Tab => if view.is_browse() {
            Action::TabInstalled
        } else {
            Action::TabBrowse
        },
        Key::Char('/') => Action::SearchStart,
        Key::Char('h') => Action::ToggleHelp,
        _ => Action::Noop,
    }
}

/// A key never asks to confirm outside the confirmation view, so the
/// action of any key may be handled in the state it was read in.
pub proof fn law_keys_confirm_only_when_asked(key: Key, search_mode: bool, view: ViewKind)
    ensures
        spec_map_key(key, search_mode, view) is ConfirmYes ==> view is Confirm,
{
}

} // verus!
