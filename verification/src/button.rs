//! The decision logic of the button widget: its interaction state machine,
//! the stylesheet keys of its styles, and where its content is placed.
use vstd::prelude::*;

verus! {

/// The stylesheet keys of one visual state of a button.
pub struct ButtonStyle {
    pub background: String,
    pub border: String,
    pub corners: String,
}

/// `widget:state:part`, the key of one part of a style.
pub open spec fn style_key(widget: Seq<char>, state: Seq<char>, part: Seq<char>) -> Seq<char> {
    widget + ":"@ + state + ":"@ + part
}

/// `widget:state:part`
fn join_key(widget: &str, state: &str, part: &str) -> (r: String)
    ensures
        r@ == style_key(widget@, state@, part@),
{
    let mut key = widget.to_owned();
    key.append(":");
    key.append(state);
    key.append(":");
    key.append(part);
    key
}

impl ButtonStyle {
    /// The keys `widget:state:background`, `widget:state:border` and
    /// `widget:state:corners`.
    pub(crate) fn new(widget: &str, state: &str) -> (r: ButtonStyle)
        ensures
            r.background@ == style_key(widget@, state@, "background"@),
            r.border@ == style_key(widget@, state@, "border"@),
            r.corners@ == style_key(widget@, state@, "corners"@),
    {
        ButtonStyle {
            background: join_key(widget, state, "background"),
            border: join_key(widget, state, "border"),
            corners: join_key(widget, state, "corners"),
        }
    }
}

/// The styles of a button in its normal, hovered and pressed states.
pub struct ButtonStyles {
    pub normal: ButtonStyle,
    pub hover: ButtonStyle,
    pub pressed: ButtonStyle,
}

/// The keys of the style of `widget` in `state`.
pub open spec fn style_keys_are(style: ButtonStyle, widget: Seq<char>, state: Seq<char>) -> bool {
    &&& style.background@ == style_key(widget, state, "background"@)
    &&& style.border@ == style_key(widget, state, "border"@)
    &&& style.corners@ == style_key(widget, state, "corners"@)
}

impl ButtonStyles {
    /// The styles named after `widget`: its `normal`, `hover` and `pressed`
    /// states.
    pub fn new(widget: &str) -> (r: ButtonStyles)
        ensures
            style_keys_are(r.normal, widget@, "normal"@),
            style_keys_are(r.hover, widget@, "hover"@),
            style_keys_are(r.pressed, widget@, "pressed"@),
    {
        ButtonStyles {
            normal: ButtonStyle::new(widget, "normal"),
            hover: ButtonStyle::new(widget, "hover"),
            pressed: ButtonStyle::new(widget, "pressed"),
        }
    }

    /// The style that a button in `state` is drawn with: pressed for both
    /// pressed states.
    pub fn style_for(&self, state: ButtonFsm) -> (r: &ButtonStyle)
        ensures
            *r == match state {
                ButtonFsm::Normal => self.normal,
                ButtonFsm::Hovered => self.hover,
                ButtonFsm::Pressed | ButtonFsm::PressedOutside => self.pressed,
            },
    {
        match state {
            ButtonFsm::Normal => &self.normal,
            ButtonFsm::Hovered => &self.hover,
            ButtonFsm::Pressed | ButtonFsm::PressedOutside => &self.pressed,
        }
    }
}

/// The interaction state of a button.
#[derive(Debug, Clone, Copy, PartialEq, Eq, Structural)]
pub enum ButtonFsm {
    Normal,
    Hovered,
    Pressed,
    PressedOutside,
}

impl Default for ButtonFsm {
    fn default() -> (r: ButtonFsm)
        ensures
            r == ButtonFsm::Normal,
    {
        ButtonFsm::Normal
    }
}

/// The state a button moves to, given whether the pointer is over it and
/// whether the primary button is held.
pub open spec fn spec_next_state(state: ButtonFsm, is_inside: bool, is_pressed: bool) -> ButtonFsm {
    match state {
        ButtonFsm::Normal => if is_inside {
            ButtonFsm::Hovered
        } else {
            ButtonFsm::Normal
        },
        ButtonFsm::Hovered => if !is_inside {
            ButtonFsm::Normal
        } else if is_pressed {
            ButtonFsm::Pressed
        } else {
            ButtonFsm::Hovered
        },
        ButtonFsm::Pressed => if !is_pressed {
            ButtonFsm::Hovered
        } else if !is_inside {
            ButtonFsm::PressedOutside
        } else {
            ButtonFsm::Pressed
        },
        ButtonFsm::PressedOutside => if !is_pressed {
            ButtonFsm::Normal
        } else {
            ButtonFsm::PressedOutside
        },
    }
}

impl ButtonFsm {
    /// One frame of the button's state machine: hovering starts when the
    /// pointer enters, a press needs the pointer over the button, a press
    /// dragged off the button is remembered, and releasing ends the press.
    pub fn next(self, is_inside: bool, is_pressed: bool) -> (r: ButtonFsm)
        ensures
            r == spec_next_state(self, is_inside, is_pressed),
    {
        match self {
            ButtonFsm::Normal => if is_inside {
                ButtonFsm::Hovered
            } else {
                ButtonFsm::Normal
            },
            ButtonFsm::Hovered => if !is_inside {
                ButtonFsm::Normal
            } else if is_pressed {
                ButtonFsm::Pressed
            } else {
                ButtonFsm::Hovered
            },
            ButtonFsm::Pressed => if !is_pressed {
                ButtonFsm::Hovered
            } else if !is_inside {
                ButtonFsm::PressedOutside
            } else {
                ButtonFsm::Pressed
            },
            ButtonFsm::PressedOutside => if !is_pressed {
                ButtonFsm::Normal
            } else {
                ButtonFsm::PressedOutside
            },
        }
    }
}

/// Where a button places its content.
#[derive(Debug, Clone, Copy, PartialEq, Eq, Structural)]
pub enum Alignment {
    TopLeft,
    TopCenter,
    TopRight,
    CenterLeft,
    Center,
    CenterRight,
    BottomLeft,
    BottomCenter,
    BottomRight,
}

impl Default for Alignment {
    fn default() -> (r: Alignment)
        ensures
            r == Alignment::TopLeft,
    {
        Alignment::TopLeft
    }
}

/// Where content stands along one axis of its container.
#[derive(Debug, Clone, Copy, PartialEq, Eq, Structural)]
pub enum Placement {
    /// Against the left or top edge, after the padding.
    Start,
    /// Centred.
    Middle,
    /// Against the right or bottom edge, before the padding.
    End,
}

pub open spec fn spec_horizontal(a: Alignment) -> Placement {
    match a {
        Alignment::TopLeft | Alignment::CenterLeft | Alignment::BottomLeft => Placement::Start,
        Alignment::TopCenter | Alignment::Center | Alignment::BottomCenter => Placement::Middle,
        Alignment::TopRight | Alignment::CenterRight | Alignment::BottomRight => Placement::End,
    }
}

pub open spec fn spec_vertical(a: Alignment) -> Placement {
    match a {
        Alignment::TopLeft | Alignment::TopCenter | Alignment::TopRight => Placement::Start,
        Alignment::CenterLeft | Alignment::Center | Alignment::CenterRight => Placement::Middle,
        Alignment::BottomLeft | Alignment::BottomCenter | Alignment::BottomRight => Placement::End,
    }
}

impl Alignment {
    /// Where content with this alignment stands horizontally.
    pub fn horizontal(self) -> (r: Placement)
        ensures
            r == spec_horizontal(self),
    {
        match self {
            Alignment::TopLeft | Alignment::CenterLeft | Alignment::BottomLeft => Placement::Start,
            Alignment::TopCenter | Alignment::Center | Alignment::BottomCenter => Placement::Middle,
            Alignment::TopRight | Alignment::CenterRight | Alignment::BottomRight => Placement::End,
        }
    }

    /// Where content with this alignment stands vertically.
    pub fn vertical(self) -> (r: Placement)
        ensures
            r == spec_vertical(self),
    {
        match self {
            Alignment::TopLeft | Alignment::TopCenter | Alignment::TopRight => Placement::Start,
            Alignment::CenterLeft | Alignment::Center | Alignment::CenterRight => Placement::Middle,
            Alignment::BottomLeft | Alignment::BottomCenter | Alignment::BottomRight => Placement::End,
        }
    }
}

/// A button's callbacks; every one does nothing unless an implementation
/// says otherwise.
pub trait ButtonCallbacks {
    fn on_enter(&self) {
    }

    fn on_exit(&self) {
    }

    fn on_press(&self) {
    }

    fn on_clicked(&self) {
    }
}

/// Callbacks that do nothing.
#[derive(Default)]
pub struct ButtonMock;

impl ButtonCallbacks for ButtonMock {

}


/// A press can only begin on a hovered button: the pressed state is entered
/// from the hovered state, or kept.
pub proof fn law_press_starts_from_hover(state: ButtonFsm, is_inside: bool, is_pressed: bool)
    ensures
        spec_next_state(state, is_inside, is_pressed) == ButtonFsm::Pressed ==> (state
            == ButtonFsm::Hovered || state == ButtonFsm::Pressed),
{
}

/// Releasing the primary button always ends a press, wherever the pointer
/// is.
pub proof fn law_release_ends_press(state: ButtonFsm, is_inside: bool)
    ensures
        spec_next_state(state, is_inside, false) != ButtonFsm::Pressed,
        spec_next_state(state, is_inside, false) != ButtonFsm::PressedOutside,
{
}

/// With the pointer away and the button up, two frames bring any button
/// back to its normal state, and it stays there.
pub proof fn law_idle_returns_to_normal(state: ButtonFsm)
    ensures
        spec_next_state(spec_next_state(state, false, false), false, false) == ButtonFsm::Normal,
        spec_next_state(ButtonFsm::Normal, false, false) == ButtonFsm::Normal,
{
}

/// A press dragged off the button stays pressed-outside while the button is
/// held, even if the pointer comes back; it never becomes a press inside
/// again.
pub proof fn law_dragged_press_stays_outside(is_inside: bool)
    ensures
        spec_next_state(ButtonFsm::PressedOutside, is_inside, true) == ButtonFsm::PressedOutside,
{
}

/// An alignment is fixed by its horizontal and vertical placements.
pub proof fn law_alignment_determined_by_placements(a: Alignment, b: Alignment)
    ensures
        spec_horizontal(a) == spec_horizontal(b) && spec_vertical(a) == spec_vertical(b) ==> a
            == b,
{
}

/// Whether the pointer is over the button and whether the primary button is
/// held, as a state records them: a normal button has the pointer away and
/// the button up, a hovered one the pointer over it and the button up, a
/// pressed one both, and a press dragged off the pointer away and the
/// button held.
pub open spec fn recorded_inputs(state: ButtonFsm) -> (bool, bool) {
    match state {
        ButtonFsm::Normal => (false, false),
        ButtonFsm::Hovered => (true, false),
        ButtonFsm::Pressed => (true, true),
        ButtonFsm::PressedOutside => (false, true),
    }
}

/// A button whose inputs are what its state records stays in that state:
/// the state changes only when the pointer's position or the primary button
/// differs from what it records. In particular a hovered button under a
/// resting pointer stays hovered.
pub proof fn law_state_rests_on_recorded_inputs(state: ButtonFsm, is_inside: bool, is_pressed: bool)
    ensures
        spec_next_state(state, recorded_inputs(state).0, recorded_inputs(state).1) == state,
        spec_next_state(state, is_inside, is_pressed) != state ==> (is_inside, is_pressed)
            != recorded_inputs(state),
        spec_next_state(ButtonFsm::Hovered, true, false) == ButtonFsm::Hovered,
{
}

/// A pressed state needs the primary button held: a press inside needs the
/// pointer over the button too, and a press outside only ever continues a
/// press.
pub proof fn law_pressed_states_need_the_button(state: ButtonFsm, is_inside: bool, is_pressed: bool)
    ensures
        spec_next_state(state, is_inside, is_pressed) == ButtonFsm::Pressed ==> is_inside
            && is_pressed,
        spec_next_state(state, is_inside, is_pressed) == ButtonFsm::PressedOutside ==> is_pressed
            && (state == ButtonFsm::Pressed || state == ButtonFsm::PressedOutside),
{
}

/// Alignments form a grid: the horizontal placement is the same down each
/// column (left, centre, right) and the vertical placement the same along
/// each row (top, centre, bottom); the diagonal fixes them: top-left is at
/// the start on both axes, centre in the middle, bottom-right at the end.
pub proof fn law_alignment_grid()
    ensures
        spec_horizontal(Alignment::TopLeft) == Placement::Start,
        spec_vertical(Alignment::TopLeft) == Placement::Start,
        spec_horizontal(Alignment::Center) == Placement::Middle,
        spec_vertical(Alignment::Center) == Placement::Middle,
        spec_horizontal(Alignment::BottomRight) == Placement::End,
        spec_vertical(Alignment::BottomRight) == Placement::End,
        spec_horizontal(Alignment::TopLeft) == spec_horizontal(Alignment::CenterLeft),
        spec_horizontal(Alignment::CenterLeft) == spec_horizontal(Alignment::BottomLeft),
        spec_horizontal(Alignment::TopCenter) == spec_horizontal(Alignment::Center),
        spec_horizontal(Alignment::Center) == spec_horizontal(Alignment::BottomCenter),
        spec_horizontal(Alignment::TopRight) == spec_horizontal(Alignment::CenterRight),
        spec_horizontal(Alignment::CenterRight) == spec_horizontal(Alignment::BottomRight),
        spec_vertical(Alignment::TopLeft) == spec_vertical(Alignment::TopCenter),
        spec_vertical(Alignment::TopCenter) == spec_vertical(Alignment::TopRight),
        spec_vertical(Alignment::CenterLeft) == spec_vertical(Alignment::Center),
        spec_vertical(Alignment::Center) == spec_vertical(Alignment::CenterRight),
        spec_vertical(Alignment::BottomLeft) == spec_vertical(Alignment::BottomCenter),
        spec_vertical(Alignment::BottomCenter) == spec_vertical(Alignment::BottomRight),
{
}

} // verus!
