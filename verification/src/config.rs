//! The mode table: the static configuration of buttons and indicators, and
//! the checks it must pass before the pipeline may start.

use vstd::prelude::*;
use crate::debounce::Monitor;
use crate::event::Mode;

verus! {

/// The entry of one button.
#[derive(Clone, Copy, Debug, PartialEq, Eq)]
pub struct ButtonEntry {
    /// The button's identifier.
    pub id: u8,
    /// Its mode.
    pub mode: Mode,
}

/// The entry of one indicator. The indicator's identifier is its position
/// in the table.
#[derive(Clone, Copy, Debug, PartialEq, Eq)]
pub struct IndicatorEntry {
    /// Its mode, with the group for a Scene indicator.
    pub mode: Mode,
    /// The button it is bound to, if any.
    pub button: Option<u8>,
}

/// The static configuration of a control surface.
#[derive(Debug, PartialEq, Eq)]
pub struct ModeTable {
    /// One entry per button.
    pub buttons: Vec<ButtonEntry>,
    /// One entry per indicator, in the order of the indicator bank.
    pub indicators: Vec<IndicatorEntry>,
}

/// Why a mode table is refused.
#[derive(Clone, Copy, Debug, PartialEq, Eq)]
pub enum ConfigError {
    /// Two button entries carry this identifier.
    DuplicateButton { id: u8 },
    /// Two indicators are bound to this button.
    DuplicateBinding { button: u8 },
    /// A Scene button names this group, which has no indicator.
    EmptyGroup { group: u8 },
}

/// Whether the button entry at `j` repeats the identifier of an earlier one.
pub open spec fn button_repeats_at(buttons: Seq<ButtonEntry>, j: int) -> bool {
    &&& 0 <= j < buttons.len()
    &&& exists|i: int| 0 <= i < j && (#[trigger] buttons[i]).id == buttons[j].id
}

/// Whether the indicator at `j` is bound to the button of an earlier one.
pub open spec fn binding_repeats_at(indicators: Seq<IndicatorEntry>, j: int) -> bool {
    &&& 0 <= j < indicators.len()
    &&& indicators[j].button is Some
    &&& exists|i: int| 0 <= i < j && (#[trigger] indicators[i]).button == indicators[j].button
}

/// Whether some indicator is a member of Scene group `group`.
pub open spec fn group_has_member(indicators: Seq<IndicatorEntry>, group: u8) -> bool {
    exists|i: int|
        0 <= i < indicators.len() && (#[trigger] indicators[i]).mode == (Mode::Scene { group })
}

/// Whether the button entry at `j` names a Scene group without indicators.
pub open spec fn group_missing_at(
    buttons: Seq<ButtonEntry>,
    indicators: Seq<IndicatorEntry>,
    j: int,
) -> bool {
    &&& 0 <= j < buttons.len()
    &&& buttons[j].mode is Scene
    &&& !group_has_member(indicators, buttons[j].mode->group)
}

/// No two button entries carry the same identifier.
pub open spec fn buttons_distinct(buttons: Seq<ButtonEntry>) -> bool {
    forall|j: int| !button_repeats_at(buttons, j)
}

/// No two indicators are bound to the same button.
pub open spec fn bindings_distinct(indicators: Seq<IndicatorEntry>) -> bool {
    forall|j: int| !binding_repeats_at(indicators, j)
}

/// Every Scene group that a button names has at least one indicator.
pub open spec fn groups_populated(
    buttons: Seq<ButtonEntry>,
    indicators: Seq<IndicatorEntry>,
) -> bool {
    forall|j: int| !group_missing_at(buttons, indicators, j)
}

/// The position of the first button entry that repeats an identifier.
fn first_repeated_button(buttons: &Vec<ButtonEntry>) -> (found: Option<usize>)
    ensures
        match found {
            Some(j) => button_repeats_at(buttons@, j as int) && forall|k: int|
                0 <= k < j ==> !button_repeats_at(buttons@, k),
            None => buttons_distinct(buttons@),
        },
{
    let mut j: usize = 0;
    while j < buttons.len()
        invariant
            j <= buttons.len(),
            forall|k: int| 0 <= k < j ==> !button_repeats_at(buttons@, k),
        decreases buttons.len() - j,
    {
        let mut i: usize = 0;
        while i < j
            invariant
                i <= j,
                j < buttons.len(),
                forall|k: int| 0 <= k < j ==> !button_repeats_at(buttons@, k),
                forall|h: int| 0 <= h < i ==> (#[trigger] buttons@[h]).id != buttons@[j as int].id,
            decreases j - i,
        {
            if buttons[i].id == buttons[j].id {
                assert(buttons@[i as int].id == buttons@[j as int].id);
                return Some(j);
            }
            i += 1;
        }
        j += 1;
    }
    None
}

/// The position of the first indicator that is bound to the button of an
/// earlier one.
fn first_repeated_binding(indicators: &Vec<IndicatorEntry>) -> (found: Option<usize>)
    ensures
        match found {
            Some(j) => binding_repeats_at(indicators@, j as int) && forall|k: int|
                0 <= k < j ==> !binding_repeats_at(indicators@, k),
            None => bindings_distinct(indicators@),
        },
{
    let mut j: usize = 0;
    while j < indicators.len()
        invariant
            j <= indicators.len(),
            forall|k: int| 0 <= k < j ==> !binding_repeats_at(indicators@, k),
        decreases indicators.len() - j,
    {
        match indicators[j].button {
            Some(b) => {
                let mut i: usize = 0;
                while i < j
                    invariant
                        i <= j,
                        j < indicators.len(),
                        indicators@[j as int].button == Some(b),
                        forall|k: int| 0 <= k < j ==> !binding_repeats_at(indicators@, k),
                        forall|h: int|
                            0 <= h < i ==> (#[trigger] indicators@[h]).button != Some(b),
                    decreases j - i,
                {
                    match indicators[i].button {
                        Some(a) => {
                            if a == b {
                                assert(indicators@[i as int].button == indicators@[
                                    j as int
                                ].button);
                                return Some(j);
                            }
                        },
                        None => {},
                    }
                    i += 1;
                }
            },
            None => {},
        }
        j += 1;
    }
    None
}

/// Whether some indicator is a member of Scene group `group`.
fn has_member(indicators: &Vec<IndicatorEntry>, group: u8) -> (found: bool)
    ensures
        found == group_has_member(indicators@, group),
{
    let mut i: usize = 0;
    while i < indicators.len()
        invariant
            i <= indicators.len(),
            forall|h: int|
                0 <= h < i ==> (#[trigger] indicators@[h]).mode != (Mode::Scene { group }),
        decreases indicators.len() - i,
    {
        match indicators[i].mode {
            Mode::Scene { group: g } => {
                if g == group {
                    return true;
                }
            },
            Mode::Momentary => {},
        }
        i += 1;
    }
    false
}

/// The position of the first button entry that names a Scene group without
/// indicators.
fn first_missing_group(
    buttons: &Vec<ButtonEntry>,
    indicators: &Vec<IndicatorEntry>,
) -> (found: Option<usize>)
    ensures
        match found {
            Some(j) => group_missing_at(buttons@, indicators@, j as int) && forall|k: int|
                0 <= k < j ==> !group_missing_at(buttons@, indicators@, k),
            None => groups_populated(buttons@, indicators@),
        },
{
    let mut j: usize = 0;
    while j < buttons.len()
        invariant
            j <= buttons.len(),
            forall|k: int| 0 <= k < j ==> !group_missing_at(buttons@, indicators@, k),
        decreases buttons.len() - j,
    {
        match buttons[j].mode {
            Mode::Scene { group } => {
                if !has_member(indicators, group) {
                    return Some(j);
                }
            },
            Mode::Momentary => {},
        }
        j += 1;
    }
    None
}

impl ModeTable {
    /// Whether the table may run: no identifier is used twice, and every
    /// Scene group that a button names has an indicator.
    pub open spec fn valid(self) -> bool {
        &&& buttons_distinct(self.buttons@)
        &&& bindings_distinct(self.indicators@)
        &&& groups_populated(self.buttons@, self.indicators@)
    }

    /// Whether `error` is the first fault of the table: button identifiers
    /// are looked at first, then bindings, then groups, each in table order.
    pub open spec fn first_fault(self, error: ConfigError) -> bool {
        match error {
            ConfigError::DuplicateButton { id } => exists|j: int|
                {
                    &&& #[trigger] button_repeats_at(self.buttons@, j)
                    &&& forall|k: int| 0 <= k < j ==> !button_repeats_at(self.buttons@, k)
                    &&& self.buttons@[j].id == id
                },
            ConfigError::DuplicateBinding { button } => {
                &&& buttons_distinct(self.buttons@)
                &&& exists|j: int|
                    {
                        &&& #[trigger] binding_repeats_at(self.indicators@, j)
                        &&& forall|k: int|
                            0 <= k < j ==> !binding_repeats_at(self.indicators@, k)
                        &&& self.indicators@[j].button == Some(button)
                    }
            },
            ConfigError::EmptyGroup { group } => {
                &&& buttons_distinct(self.buttons@)
                &&& bindings_distinct(self.indicators@)
                &&& exists|j: int|
                    {
                        &&& #[trigger] group_missing_at(self.buttons@, self.indicators@, j)
                        &&& forall|k: int|
                            0 <= k < j ==> !group_missing_at(self.buttons@, self.indicators@, k)
                        &&& self.buttons@[j].mode == (Mode::Scene { group })
                    }
            },
        }
    }

    /// Checks the table. It is accepted exactly if it is valid; a refusal
    /// names the first fault.
    pub fn validate(&self) -> (r: Result<(), ConfigError>)
        ensures
            match r {
                Ok(_) => self.valid(),
                Err(e) => self.first_fault(e) && !self.valid(),
            },
    {
        match first_repeated_button(&self.buttons) {
            Some(j) => {
                return Err(ConfigError::DuplicateButton { id: self.buttons[j].id });
            },
            None => {},
        }
        match first_repeated_binding(&self.indicators) {
            Some(j) => {
                match self.indicators[j].button {
                    Some(button) => {
                        return Err(ConfigError::DuplicateBinding { button });
                    },
                    None => {},
                }
            },
            None => {},
        }
        match first_missing_group(&self.buttons, &self.indicators) {
            Some(j) => {
                match self.buttons[j].mode {
                    Mode::Scene { group } => {
                        return Err(ConfigError::EmptyGroup { group });
                    },
                    Mode::Momentary => {},
                }
            },
            None => {},
        }
        Ok(())
    }

    /// One monitor per button entry, in table order, each armed for a
    /// press. A table that is not valid gets none.
    pub fn monitors(&self) -> (r: Result<Vec<Monitor>, ConfigError>)
        ensures
            match r {
                Ok(monitors) => {
                    &&& self.valid()
                    &&& monitors@.len() == self.buttons@.len()
                    &&& forall|i: int|
                        0 <= i < monitors@.len() ==> #[trigger] monitors@[i] == (Monitor {
                            button: self.buttons@[i].id,
                            mode: self.buttons@[i].mode,
                            phase: crate::debounce::Phase::ArmedForPress,
                        })
                },
                Err(e) => self.first_fault(e) && !self.valid(),
            },
    {
        match self.validate() {
            Err(e) => {
                return Err(e);
            },
            Ok(_) => {},
        }
        let mut monitors: Vec<Monitor> = Vec::new();
        let mut i: usize = 0;
        while i < self.buttons.len()
            invariant
                i <= self.buttons.len(),
                monitors@.len() == i,
                forall|h: int|
                    0 <= h < i ==> #[trigger] monitors@[h] == (Monitor {
                        button: self.buttons@[h].id,
                        mode: self.buttons@[h].mode,
                        phase: crate::debounce::Phase::ArmedForPress,
                    }),
            decreases self.buttons.len() - i,
        {
            monitors.push(Monitor::new(self.buttons[i].id, self.buttons[i].mode));
            i += 1;
        }
        Ok(monitors)
    }
}

} // verus!
