//! The compositor's decisions on input events: what a key does, what a
//! pointer button does to focus, and when a move grab ends.
use vstd::prelude::*;

verus! {

/// The key code that quits the compositor.
pub const EXIT_KEY: u32 = 9;

/// The key code that, on release, starts a terminal.
pub const TERMINAL_KEY: u32 = 10;

/// The Linux input code of the left mouse button (`BTN_LEFT`).
pub const BTN_LEFT: u32 = 0x110;

/// What the compositor does after forwarding a key event to the focused
/// client.
#[derive(Debug, Clone, Copy, PartialEq, Eq, Structural)]
pub enum KeyAction {
    /// Quit the compositor.
    Exit,
    /// Start a terminal.
    SpawnTerminal,
    /// Nothing more.
    Forward,
}

pub open spec fn spec_key_action(keycode: u32, released: bool) -> KeyAction {
    if keycode == EXIT_KEY {
        KeyAction::Exit
    } else if keycode == TERMINAL_KEY && released {
        KeyAction::SpawnTerminal
    } else {
        KeyAction::Forward
    }
}

impl KeyAction {
    /// The exit key quits whether pressed or released; the terminal key
    /// starts a terminal when released.
    pub fn for_key(keycode: u32, released: bool) -> (r: KeyAction)
        ensures
            r == spec_key_action(keycode, released),
    {
        if keycode == EXIT_KEY {
            KeyAction::Exit
        } else if keycode == TERMINAL_KEY && released {
            KeyAction::SpawnTerminal
        } else {
            KeyAction::Forward
        }
    }
}

/// What a pointer button event does to window focus.
#[derive(Debug, Clone, Copy, PartialEq, Eq, Structural)]
pub enum FocusChange {
    /// Raise and activate the window under the pointer and give it the
    /// keyboard.
    FocusWindowUnder,
    /// Deactivate every window and take the keyboard focus away.
    ClearFocus,
    /// Leave focus as it is.
    Keep,
}

pub open spec fn spec_focus_change(pressed: bool, pointer_grabbed: bool, window_under: bool) -> FocusChange {
    if pressed && !pointer_grabbed {
        if window_under {
            FocusChange::FocusWindowUnder
        } else {
            FocusChange::ClearFocus
        }
    } else {
        FocusChange::Keep
    }
}

impl FocusChange {
    /// A press while no grab is active focuses the window under the pointer,
    /// or clears focus when there is none; anything else leaves focus alone.
    pub fn for_button(pressed: bool, pointer_grabbed: bool, window_under: bool) -> (r: FocusChange)
        ensures
            r == spec_focus_change(pressed, pointer_grabbed, window_under),
    {
        if pressed && !pointer_grabbed {
            if window_under {
                FocusChange::FocusWindowUnder
            } else {
                FocusChange::ClearFocus
            }
        } else {
            FocusChange::Keep
        }
    }
}

/// A window move ends once the left button is no longer among the pressed
/// buttons.
pub fn move_grab_should_end(pressed_buttons: &[u32]) -> (r: bool)
    ensures
        r == !pressed_buttons@.contains(BTN_LEFT),
{
    let mut i: usize = 0;
    while i < pressed_buttons.len()
        invariant
            0 <= i <= pressed_buttons@.len(),
            forall|j: int| 0 <= j < i ==> pressed_buttons@[j] != BTN_LEFT,
        decreases pressed_buttons@.len() - i,
    {
        if pressed_buttons[i] == BTN_LEFT {
            assert(pressed_buttons@[i as int] == BTN_LEFT);
            return false;
        }
        i = i + 1;
    }
    true
}

/// Only the exit key quits and only a released terminal key starts a
/// terminal: every other key event is just forwarded, whether pressed or
/// released.
pub proof fn law_only_bound_keys_act(keycode: u32, released: bool)
    ensures
        (spec_key_action(keycode, released) == KeyAction::Exit) <==> keycode == EXIT_KEY,
        (spec_key_action(keycode, released) == KeyAction::SpawnTerminal) <==> (keycode
            == TERMINAL_KEY && released),
        keycode != EXIT_KEY && keycode != TERMINAL_KEY ==> spec_key_action(keycode, released)
            == KeyAction::Forward,
        spec_key_action(keycode, true) != spec_key_action(keycode, false) ==> keycode
            == TERMINAL_KEY,
{
}

/// Focus changes only on a press while no grab holds the pointer: a release
/// never changes it, a grabbed press never changes it, and an ungrabbed
/// press always does, towards the window under the pointer exactly when
/// there is one.
pub proof fn law_focus_changes_only_on_ungrabbed_press(
    pressed: bool,
    pointer_grabbed: bool,
    window_under: bool,
)
    ensures
        (spec_focus_change(pressed, pointer_grabbed, window_under) != FocusChange::Keep) <==> (
        pressed && !pointer_grabbed),
        spec_focus_change(false, pointer_grabbed, window_under) == FocusChange::Keep,
        spec_focus_change(true, true, window_under) == FocusChange::Keep,
        (spec_focus_change(pressed, pointer_grabbed, window_under) == FocusChange::FocusWindowUnder)
            ==> window_under,
        (spec_focus_change(pressed, pointer_grabbed, window_under) == FocusChange::ClearFocus)
            ==> !window_under,
{
}

} // verus!
