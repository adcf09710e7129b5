//! The values shared by every stage of the pipeline.

use vstd::prelude::*;

verus! {

/// How a button, or an indicator, behaves.
#[derive(Clone, Copy, Debug, PartialEq, Eq, Structural)]
pub enum Mode {
    /// The indicator mirrors the held state of its button.
    Momentary,
    /// Member of a mutual-exclusion group: activating one member
    /// deactivates every other indicator of the same group.
    Scene { group: u8 },
}

/// A clean, debounced event of one button.
#[derive(Clone, Copy, Debug, PartialEq, Eq, Structural)]
pub enum ButtonEvent {
    /// A Scene button completed a press-then-release gesture.
    ScenePressed { button: u8 },
    /// A Momentary button went down.
    MomentaryPressed { button: u8 },
    /// A Momentary button went up.
    MomentaryReleased { button: u8 },
}

impl ButtonEvent {
    /// The button that the event speaks of.
    pub open spec fn spec_button(self) -> u8 {
        match self {
            ButtonEvent::ScenePressed { button } => button,
            ButtonEvent::MomentaryPressed { button } => button,
            ButtonEvent::MomentaryReleased { button } => button,
        }
    }

    /// The button that the event speaks of.
    pub fn button(&self) -> (b: u8)
        ensures
            b == self.spec_button(),
    {
        match self {
            ButtonEvent::ScenePressed { button } => *button,
            ButtonEvent::MomentaryPressed { button } => *button,
            ButtonEvent::MomentaryReleased { button } => *button,
        }
    }
}

} // verus!
