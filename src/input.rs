use vstd::prelude::*;
use vstd::string::{StrSliceExecFns, StringExecFns};

use crate::traits::Disableable;

verus! {

/// What an input field holds.
#[derive(Debug, Clone, Copy, PartialEq, Eq, Structural)]
pub enum InputType {
    Text,
    Password,
    Email,
    Number,
    Search,
}

/// The size of an input field.
#[derive(Debug, Clone, Copy, PartialEq, Eq, Structural)]
pub enum InputSize {
    Small,
    Medium,
    Large,
}

/// The validation state that an input field shows.
#[derive(Debug, Clone, Copy, PartialEq, Eq, Structural)]
pub enum InputVariant {
    Default,
    Error,
    Success,
}

/// A text field with an optional label and error message. Colors are opaque
/// `0xRRGGBB` values and lengths are in pixels.
#[derive(Debug, Clone)]
pub struct Input {
    pub id: Option<String>,
    pub input_type: InputType,
    pub size: InputSize,
    pub variant: InputVariant,
    pub placeholder: Option<String>,
    pub value: String,
    pub label: Option<String>,
    pub error: Option<String>,
    pub disabled: bool,
    pub required: bool,
}

/// The hint shown in an empty field of the given type.
pub open spec fn type_hint(t: InputType) -> Seq<char> {
    match t {
        InputType::Text => "Enter text..."@,
        InputType::Password => "Enter password..."@,
        InputType::Email => "Enter email..."@,
        InputType::Number => "Enter number..."@,
        InputType::Search => "Search..."@,
    }
}

/// `n` bullets, which stand for the characters of a password.
pub open spec fn bullets(n: nat) -> Seq<char>
    decreases n,
{
    if n == 0 {
        Seq::empty()
    } else {
        bullets((n - 1) as nat) + "\u{2022}"@
    }
}

impl Input {
    /// An empty, enabled, optional medium text field of the default style.
    pub fn new() -> (r: Self)
        ensures
            r.id is None,
            r.input_type == InputType::Text,
            r.size == InputSize::Medium,
            r.variant == InputVariant::Default,
            r.placeholder is None,
            r.value@.len() == 0,
            r.label is None,
            r.error is None,
            !r.disabled,
            !r.required,
    {
        Input {
            id: None,
            input_type: InputType::Text,
            size: InputSize::Medium,
            variant: InputVariant::Default,
            placeholder: None,
            value: String::new(),
            label: None,
            error: None,
            disabled: false,
            required: false,
        }
    }

    pub fn id(self, id: String) -> (r: Self)
        ensures
            r == (Input { id: Some(id), ..self }),
    {
        Input { id: Some(id), ..self }
    }

    pub fn input_type(self, input_type: InputType) -> (r: Self)
        ensures
            r == (Input { input_type, ..self }),
    {
        Input { input_type, ..self }
    }

    pub fn size(self, size: InputSize) -> (r: Self)
        ensures
            r == (Input { size, ..self }),
    {
        Input { size, ..self }
    }

    pub fn variant(self, variant: InputVariant) -> (r: Self)
        ensures
            r == (Input { variant, ..self }),
    {
        Input { variant, ..self }
    }

    pub fn placeholder(self, placeholder: String) -> (r: Self)
        ensures
            r == (Input { placeholder: Some(placeholder), ..self }),
    {
        Input { placeholder: Some(placeholder), ..self }
    }

    pub fn value(self, value: String) -> (r: Self)
        ensures
            r == (Input { value, ..self }),
    {
        Input { value, ..self }
    }

    pub fn label(self, label: String) -> (r: Self)
        ensures
            r == (Input { label: Some(label), ..self }),
    {
        Input { label: Some(label), ..self }
    }

    /// Shows `error` below the field, in the error style.
    pub fn error(self, error: String) -> (r: Self)
        ensures
            r == (Input { error: Some(error), variant: InputVariant::Error, ..self }),
    {
        Input { error: Some(error), variant: InputVariant::Error, ..self }
    }

    pub fn disabled(self, disabled: bool) -> (r: Self)
        ensures
            r == (Input { disabled, ..self }),
    {
        Input { disabled, ..self }
    }

    pub fn required(self, required: bool) -> (r: Self)
        ensures
            r == (Input { required, ..self }),
    {
        Input { required, ..self }
    }

    pub fn get_padding(&self) -> (r: u32)
        ensures
            r == match self.size {
                InputSize::Small => 8u32,
                InputSize::Medium => 10u32,
                InputSize::Large => 12u32,
            },
    {
        match self.size {
            InputSize::Small => 8,
            InputSize::Medium => 10,
            InputSize::Large => 12,
        }
    }

    pub fn get_text_size(&self) -> (r: u32)
        ensures
            r == match self.size {
                InputSize::Small => 13u32,
                InputSize::Medium => 14u32,
                InputSize::Large => 16u32,
            },
    {
        match self.size {
            InputSize::Small => 13,
            InputSize::Medium => 14,
            InputSize::Large => 16,
        }
    }

    pub fn get_border_color(&self) -> (r: u32)
        ensures
            r == (if self.disabled {
                0xe2e8f0u32
            } else {
                match self.variant {
                    InputVariant::Default => 0xd1d5dbu32,
                    InputVariant::Error => 0xef4444u32,
                    InputVariant::Success => 0x22c55eu32,
                }
            }),
    {
        if self.disabled {
            return 0xe2e8f0;
        }
        match self.variant {
            InputVariant::Default => 0xd1d5db,
            InputVariant::Error => 0xef4444,
            InputVariant::Success => 0x22c55e,
        }
    }

    pub fn get_background_color(&self) -> (r: u32)
        ensures
            r == (if self.disabled {
                0xf1f5f9u32
            } else {
                0xffffffu32
            }),
    {
        if self.disabled {
            0xf1f5f9
        } else {
            0xffffff
        }
    }

    pub fn get_text_color(&self) -> (r: u32)
        ensures
            r == (if self.disabled {
                0x94a3b8u32
            } else {
                0x0f172au32
            }),
    {
        if self.disabled {
            0x94a3b8
        } else {
            0x0f172a
        }
    }

    /// The hint for an empty field: the placeholder when set, else one that
    /// names the input type.
    pub fn get_placeholder_text(&self) -> (r: String)
        ensures
            r@ == match self.placeholder {
                Some(p) => p@,
                None => type_hint(self.input_type),
            },
    {
        match &self.placeholder {
            Some(p) => p.clone(),
            None => match self.input_type {
                InputType::Text => String::from_str("Enter text..."),
                InputType::Password => String::from_str("Enter password..."),
                InputType::Email => String::from_str("Enter email..."),
                InputType::Number => String::from_str("Enter number..."),
                InputType::Search => String::from_str("Search..."),
            },
        }
    }

    /// The text that the field shows: the hint when empty, a bullet per character
    /// of a password, else the value.
    pub fn render_value_or_placeholder(&self) -> (r: String)
        ensures
            r@ == (if self.value@.len() == 0 {
                match self.placeholder {
                    Some(p) => p@,
                    None => type_hint(self.input_type),
                }
            } else if self.input_type == InputType::Password {
                bullets(self.value@.len())
            } else {
                self.value@
            }),
    {
        let n = self.value.as_str().unicode_len();
        if n == 0 {
            self.get_placeholder_text()
        } else if self.input_type == InputType::Password {
            let mut shown = String::new();
            let mut i: usize = 0;
            while i < n
                invariant
                    i <= n,
                    shown@ == bullets(i as nat),
                decreases n - i,
            {
                shown.append("\u{2022}");
                i = i + 1;
            }
            shown
        } else {
            self.value.clone()
        }
    }
}

impl Default for Input {
    fn default() -> (r: Self)
        ensures
            r.id is None,
            r.input_type == InputType::Text,
            r.size == InputSize::Medium,
            r.variant == InputVariant::Default,
            r.placeholder is None,
            r.value@.len() == 0,
            r.label is None,
            r.error is None,
            !r.disabled,
            !r.required,
    {
        Input::new()
    }
}

impl Disableable for Input {
    fn disabled(self, disabled: bool) -> (r: Self)
        ensures
            r == (Input { disabled, ..self }),
    {
        Input { disabled, ..self }
    }
}

} // verus!
