use vstd::prelude::*;

use crate::traits::{Disableable, ToggleState, Toggleable};

verus! {

/// The size of a checkbox.
#[derive(Debug, Clone, Copy, PartialEq, Eq, Structural)]
pub enum CheckboxSize {
    Small,
    Medium,
    Large,
}

/// A checkbox with an optional label. Colors are opaque `0xRRGGBB` values and
/// lengths are in pixels.
#[derive(Debug, Clone)]
pub struct Checkbox {
    pub id: String,
    pub state: ToggleState,
    pub size: CheckboxSize,
    pub label: Option<String>,
    pub disabled: bool,
}

impl Checkbox {
    /// A medium, enabled checkbox without a label.
    pub fn new(id: String, state: ToggleState) -> (r: Self)
        ensures
            r == (Checkbox { id, state, size: CheckboxSize::Medium, label: None, disabled: false }),
    {
        Checkbox { id, state, size: CheckboxSize::Medium, label: None, disabled: false }
    }

    /// A checkbox that is selected or unselected.
    pub fn checked(id: String, checked: bool) -> (r: Self)
        ensures
            r == (Checkbox {
                id,
                state: ToggleState::spec_from_bool(checked),
                size: CheckboxSize::Medium,
                label: None,
                disabled: false,
            }),
    {
        Checkbox::new(id, ToggleState::from(checked))
    }

    pub fn size(self, size: CheckboxSize) -> (r: Self)
        ensures
            r == (Checkbox { size, ..self }),
    {
        Checkbox { size, ..self }
    }

    pub fn label(self, label: String) -> (r: Self)
        ensures
            r == (Checkbox { label: Some(label), ..self }),
    {
        Checkbox { label: Some(label), ..self }
    }

    pub fn disabled(self, disabled: bool) -> (r: Self)
        ensures
            r == (Checkbox { disabled, ..self }),
    {
        Checkbox { disabled, ..self }
    }

    pub fn get_box_size(&self) -> (r: u32)
        ensures
            r == match self.size {
                CheckboxSize::Small => 16u32,
                CheckboxSize::Medium => 20u32,
                CheckboxSize::Large => 24u32,
            },
    {
        match self.size {
            CheckboxSize::Small => 16,
            CheckboxSize::Medium => 20,
            CheckboxSize::Large => 24,
        }
    }

    pub fn get_icon_size(&self) -> (r: u32)
        ensures
            r == match self.size {
                CheckboxSize::Small => 10u32,
                CheckboxSize::Medium => 12u32,
                CheckboxSize::Large => 14u32,
            },
    {
        match self.size {
            CheckboxSize::Small => 10,
            CheckboxSize::Medium => 12,
            CheckboxSize::Large => 14,
        }
    }

    pub fn get_background_color(&self) -> (r: u32)
        ensures
            r == (if self.disabled {
                0xf1f5f9u32
            } else if self.state == ToggleState::Unselected {
                0xffffffu32
            } else {
                0x3b82f6u32
            }),
    {
        if self.disabled {
            return 0xf1f5f9;
        }
        match self.state {
            ToggleState::Unselected => 0xffffff,
            ToggleState::Selected | ToggleState::Indeterminate => 0x3b82f6,
        }
    }

    pub fn get_border_color(&self) -> (r: u32)
        ensures
            r == (if self.disabled {
                0xe2e8f0u32
            } else if self.state == ToggleState::Unselected {
                0xd1d5dbu32
            } else {
                0x3b82f6u32
            }),
    {
        if self.disabled {
            return 0xe2e8f0;
        }
        match self.state {
            ToggleState::Unselected => 0xd1d5db,
            ToggleState::Selected | ToggleState::Indeterminate => 0x3b82f6,
        }
    }

    /// The mark drawn in the box: a check when selected, a dash when
    /// indeterminate, none when unselected or disabled.
    pub fn render_icon(&self) -> (r: Option<char>)
        ensures
            r == (if self.disabled {
                None
            } else {
                match self.state {
                    ToggleState::Unselected => None,
                    ToggleState::Selected => Some('\u{2713}'),
                    ToggleState::Indeterminate => Some('\u{2212}'),
                }
            }),
    {
        if self.disabled {
            return None;
        }
        match self.state {
            ToggleState::Unselected => None,
            ToggleState::Selected => Some('\u{2713}'),
            ToggleState::Indeterminate => Some('\u{2212}'),
        }
    }
}

impl Toggleable for Checkbox {
    fn toggle_state(self, state: ToggleState) -> (r: Self)
        ensures
            r == (Checkbox { state, ..self }),
    {
        Checkbox { state, ..self }
    }
}

impl Disableable for Checkbox {
    fn disabled(self, disabled: bool) -> (r: Self)
        ensures
            r == (Checkbox { disabled, ..self }),
    {
        Checkbox { disabled, ..self }
    }
}

} // verus!
