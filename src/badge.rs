use vstd::prelude::*;

verus! {

/// The visual style of a badge.
#[derive(Debug, Clone, Copy, PartialEq, Eq, Structural)]
pub enum BadgeVariant {
    Default,
    Primary,
    Secondary,
    Success,
    Warning,
    Error,
    Outline,
}

/// The size of a badge.
#[derive(Debug, Clone, Copy, PartialEq, Eq, Structural)]
pub enum BadgeSize {
    Small,
    Medium,
    Large,
}

/// A label, tag or status indicator. Colors are opaque `0xRRGGBB` values and
/// lengths are in pixels.
#[derive(Debug, Clone)]
pub struct Badge {
    pub variant: BadgeVariant,
    pub size: BadgeSize,
    pub label: String,
    pub dot: bool,
}

impl Badge {
    /// A medium badge of the default style, without a dot.
    pub fn new(label: String) -> (r: Self)
        ensures
            r == (Badge { variant: BadgeVariant::Default, size: BadgeSize::Medium, label, dot: false }),
    {
        Badge { variant: BadgeVariant::Default, size: BadgeSize::Medium, label, dot: false }
    }

    pub fn variant(self, variant: BadgeVariant) -> (r: Self)
        ensures
            r == (Badge { variant, ..self }),
    {
        Badge { variant, ..self }
    }

    pub fn size(self, size: BadgeSize) -> (r: Self)
        ensures
            r == (Badge { size, ..self }),
    {
        Badge { size, ..self }
    }

    pub fn dot(self, dot: bool) -> (r: Self)
        ensures
            r == (Badge { dot, ..self }),
    {
        Badge { dot, ..self }
    }

    /// Horizontal and vertical padding.
    pub fn get_padding(&self) -> (r: (u32, u32))
        ensures
            r == match self.size {
                BadgeSize::Small => (4u32, 2u32),
                BadgeSize::Medium => (6u32, 3u32),
                BadgeSize::Large => (8u32, 4u32),
            },
    {
        match self.size {
            BadgeSize::Small => (4, 2),
            BadgeSize::Medium => (6, 3),
            BadgeSize::Large => (8, 4),
        }
    }

    pub fn get_text_size(&self) -> (r: u32)
        ensures
            r == match self.size {
                BadgeSize::Small => 11u32,
                BadgeSize::Medium => 12u32,
                BadgeSize::Large => 14u32,
            },
    {
        match self.size {
            BadgeSize::Small => 11,
            BadgeSize::Medium => 12,
            BadgeSize::Large => 14,
        }
    }

    pub fn get_background_color(&self) -> (r: u32)
        ensures
            r == match self.variant {
                BadgeVariant::Default => 0xf1f5f9u32,
                BadgeVariant::Primary => 0x3b82f6u32,
                BadgeVariant::Secondary => 0x64748bu32,
                BadgeVariant::Success => 0x22c55eu32,
                BadgeVariant::Warning => 0xf59e0bu32,
                BadgeVariant::Error => 0xef4444u32,
                BadgeVariant::Outline => 0xffffffu32,
            },
    {
        match self.variant {
            BadgeVariant::Default => 0xf1f5f9,
            BadgeVariant::Primary => 0x3b82f6,
            BadgeVariant::Secondary => 0x64748b,
            BadgeVariant::Success => 0x22c55e,
            BadgeVariant::Warning => 0xf59e0b,
            BadgeVariant::Error => 0xef4444,
            BadgeVariant::Outline => 0xffffff,
        }
    }

    pub fn get_text_color(&self) -> (r: u32)
        ensures
            r == match self.variant {
                BadgeVariant::Default | BadgeVariant::Outline => 0x0f172au32,
                BadgeVariant::Warning => 0x78350fu32,
                _ => 0xffffffu32,
            },
    {
        match self.variant {
            BadgeVariant::Default => 0x0f172a,
            BadgeVariant::Primary | BadgeVariant::Secondary | BadgeVariant::Success
            | BadgeVariant::Error => 0xffffff,
            BadgeVariant::Warning => 0x78350f,
            BadgeVariant::Outline => 0x0f172a,
        }
    }

    pub fn get_border_color(&self) -> (r: Option<u32>)
        ensures
            r == (if self.variant == BadgeVariant::Outline {
                Some(0xe2e8f0u32)
            } else {
                None
            }),
    {
        match self.variant {
            BadgeVariant::Outline => Some(0xe2e8f0),
            _ => None,
        }
    }
}

} // verus!
