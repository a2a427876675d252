use vstd::prelude::*;

verus! {

/// The visual style of a button.
#[derive(Debug, Clone, Copy, PartialEq, Eq, Structural)]
pub enum ButtonVariant {
    Default,
    Destructive,
    Outline,
    /// No background or border: only the label shows.
    Subtle,
    Link,
}

/// The size of a button.
#[derive(Debug, Clone, Copy, PartialEq, Eq, Structural)]
pub enum ButtonSize {
    Small,
    Medium,
    Large,
}

/// A button. Colors are opaque `0xRRGGBB` values and lengths are in pixels.
#[derive(Debug, Clone)]
pub struct Button {
    pub variant: ButtonVariant,
    pub size: ButtonSize,
    pub disabled: bool,
    pub label: String,
}

impl Button {
    /// A medium, enabled button of the default style.
    pub fn new(label: String) -> (r: Self)
        ensures
            r == (Button { variant: ButtonVariant::Default, size: ButtonSize::Medium, disabled: false, label }),
    {
        Button { variant: ButtonVariant::Default, size: ButtonSize::Medium, disabled: false, label }
    }

    pub fn variant(self, variant: ButtonVariant) -> (r: Self)
        ensures
            r == (Button { variant, ..self }),
    {
        Button { variant, ..self }
    }

    pub fn size(self, size: ButtonSize) -> (r: Self)
        ensures
            r == (Button { size, ..self }),
    {
        Button { size, ..self }
    }

    pub fn disabled(self, disabled: bool) -> (r: Self)
        ensures
            r == (Button { disabled, ..self }),
    {
        Button { disabled, ..self }
    }

    /// Vertical padding; the horizontal padding is twice as much.
    pub fn get_padding(&self) -> (r: u32)
        ensures
            r == match self.size {
                ButtonSize::Small => 8u32,
                ButtonSize::Medium => 12u32,
                ButtonSize::Large => 16u32,
            },
    {
        match self.size {
            ButtonSize::Small => 8,
            ButtonSize::Medium => 12,
            ButtonSize::Large => 16,
        }
    }

    pub fn get_background_color(&self) -> (r: u32)
        ensures
            r == (if self.disabled {
                0xf1f5f9u32
            } else {
                match self.variant {
                    ButtonVariant::Default => 0x3b82f6u32,
                    ButtonVariant::Destructive => 0xef4444u32,
                    ButtonVariant::Outline => 0xffffffu32,
                    ButtonVariant::Subtle | ButtonVariant::Link => 0x000000u32,
                }
            }),
    {
        if self.disabled {
            return 0xf1f5f9;
        }
        match self.variant {
            ButtonVariant::Default => 0x3b82f6,
            ButtonVariant::Destructive => 0xef4444,
            ButtonVariant::Outline => 0xffffff,
            ButtonVariant::Subtle => 0x000000,
            ButtonVariant::Link => 0x000000,
        }
    }

    pub fn get_text_color(&self) -> (r: u32)
        ensures
            r == (if self.disabled {
                0x94a3b8u32
            } else {
                match self.variant {
                    ButtonVariant::Default | ButtonVariant::Destructive => 0xffffffu32,
                    ButtonVariant::Outline | ButtonVariant::Subtle => 0x0f172au32,
                    ButtonVariant::Link => 0x3b82f6u32,
                }
            }),
    {
        if self.disabled {
            return 0x94a3b8;
        }
        match self.variant {
            ButtonVariant::Default | ButtonVariant::Destructive => 0xffffff,
            ButtonVariant::Outline | ButtonVariant::Subtle => 0x0f172a,
            ButtonVariant::Link => 0x3b82f6,
        }
    }

    pub fn get_border_color(&self) -> (r: Option<u32>)
        ensures
            r == (if self.variant == ButtonVariant::Outline {
                Some(0xe2e8f0u32)
            } else {
                None
            }),
    {
        match self.variant {
            ButtonVariant::Outline => Some(0xe2e8f0),
            _ => None,
        }
    }
}

} // verus!
