use vstd::prelude::*;

verus! {

/// Elements that can be disabled.
pub trait Disableable: Sized {
    /// Sets whether the element is disabled.
    fn disabled(self, disabled: bool) -> Self;
}

/// Elements that can be toggled.
pub trait Toggleable: Sized {
    /// Sets the toggle state of the element.
    fn toggle_state(self, state: ToggleState) -> Self;
}

/// The selection status of a toggleable element.
#[derive(Debug, Clone, Copy, PartialEq, Eq, Structural, Hash)]
pub enum ToggleState {
    /// Not selected.
    Unselected,
    /// Neither selected nor unselected.
    Indeterminate,
    /// Selected.
    Selected,
}

impl Default for ToggleState {
    fn default() -> (r: Self)
        ensures
            r == ToggleState::Unselected,
    {
        ToggleState::Unselected
    }
}

impl ToggleState {
    /// The opposite status; an indeterminate one becomes selected.
    pub fn inverse(&self) -> (r: Self)
        ensures
            r == (if *self == ToggleState::Selected {
                ToggleState::Unselected
            } else {
                ToggleState::Selected
            }),
    {
        match self {
            ToggleState::Unselected | ToggleState::Indeterminate => ToggleState::Selected,
            ToggleState::Selected => ToggleState::Unselected,
        }
    }

    /// Whether the status is selected.
    pub fn selected(&self) -> (r: bool)
        ensures
            r == (*self == ToggleState::Selected),
    {
        matches!(self, ToggleState::Selected)
    }

    /// Selected for `true`, unselected for `false`.
    pub open spec fn spec_from_bool(selected: bool) -> ToggleState {
        if selected {
            ToggleState::Selected
        } else {
            ToggleState::Unselected
        }
    }

    /// Selected, unselected, or indeterminate when unknown.
    pub open spec fn spec_from_option(selected: Option<bool>) -> ToggleState {
        match selected {
            Some(true) => ToggleState::Selected,
            Some(false) => ToggleState::Unselected,
            None => ToggleState::Indeterminate,
        }
    }
}

impl From<bool> for ToggleState {
    fn from(selected: bool) -> (r: Self) {
        if selected {
            ToggleState::Selected
        } else {
            ToggleState::Unselected
        }
    }
}

impl vstd::std_specs::convert::FromSpecImpl<bool> for ToggleState {
    open spec fn obeys_from_spec() -> bool {
        true
    }

    open spec fn from_spec(selected: bool) -> ToggleState {
        ToggleState::spec_from_bool(selected)
    }
}

impl From<Option<bool>> for ToggleState {
    fn from(selected: Option<bool>) -> (r: Self) {
        match selected {
            Some(true) => ToggleState::Selected,
            Some(false) => ToggleState::Unselected,
            None => ToggleState::Indeterminate,
        }
    }
}

impl vstd::std_specs::convert::FromSpecImpl<Option<bool>> for ToggleState {
    open spec fn obeys_from_spec() -> bool {
        true
    }

    open spec fn from_spec(selected: Option<bool>) -> ToggleState {
        ToggleState::spec_from_option(selected)
    }
}

} // verus!
