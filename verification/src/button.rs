//! The discrete control: a pressed level with a one-frame edge pulse.

use vstd::prelude::*;
use crate::change::ButtonChange;

verus! {

/// A discrete logical control.
#[derive(Debug, PartialEq, Eq, Structural, Clone, Copy)]
pub struct Button {
    /// The current pressed level.
    pub pressed: bool,
    /// True from the delta that changed `pressed` until the next
    /// frame: a one-frame edge pulse.
    pub new_event: bool,
}

/// What a button does: absorb deltas between frames, advance once per
/// frame.
pub trait IButton {
    fn apply(&mut self, change: ButtonChange);

    fn tick(&mut self);
}

impl Button {
    /// A released button with no pending edge.
    pub open spec fn spec_default() -> Button {
        Button { pressed: false, new_event: false }
    }

    /// The button after one delta: the pressed level is taken over,
    /// and the edge pulse is raised when the level flipped.
    pub open spec fn applied(self, change: ButtonChange) -> Button {
        Button {
            pressed: change.0,
            new_event: if self.pressed != change.0 {
                true
            } else {
                self.new_event
            },
        }
    }

    /// The button after one frame: the edge pulse is spent.
    pub open spec fn ticked(self) -> Button {
        Button { new_event: false, ..self }
    }
}

impl IButton for Button {
    /// Absorbs one delta, as `Button::applied` describes.
    fn apply(&mut self, change: ButtonChange)
        ensures
            *final(self) == old(self).applied(change),
    {
        if self.pressed != change.0 {
            self.new_event = true;
        }
        self.pressed = change.0;
    }

    /// Ends the frame, as `Button::ticked` describes.
    fn tick(&mut self)
        ensures
            *final(self) == old(self).ticked(),
    {
        self.new_event = false;
    }
}

impl Default for Button {
    /// The button every fresh binding starts from.
    fn default() -> (b: Button)
        ensures
            b == Button::spec_default(),
    {
        Button { pressed: false, new_event: false }
    }
}

/// The edge pulse is one frame wide: re-applying the level a button
/// already has raises no pulse, however often it lands, and a frame
/// always spends the pulse. Only an actual flip of the level raises it
/// again.
pub proof fn lemma_button_edge_pulse(b: Button, level: bool)
    ensures
        b.applied(ButtonChange(level)).applied(ButtonChange(level)) == b.applied(
            ButtonChange(level),
        ),
        b.ticked().applied(ButtonChange(b.pressed)).new_event == false,
        b.ticked().applied(ButtonChange(!b.pressed)).new_event == true,
        b.applied(ButtonChange(!b.pressed)).new_event == true,
{
}

} // verus!
