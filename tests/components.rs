use gpui_ui::badge::{Badge, BadgeSize, BadgeVariant};
use gpui_ui::button::{Button, ButtonSize, ButtonVariant};
use gpui_ui::card::{Card, CardContent, CardFooter, CardHeader, CardVariant};
use gpui_ui::checkbox::{Checkbox, CheckboxSize};
use gpui_ui::dialog::{Dialog, DialogContent, DialogFooter, DialogHeader, DialogSize};
use gpui_ui::element::Element;
use gpui_ui::input::{Input, InputSize, InputType, InputVariant};
use gpui_ui::traits::{Disableable, ToggleState, Toggleable};

#[test]
fn badge_styles() {
    let badge = Badge::new("New".to_string());
    assert_eq!(badge.variant, BadgeVariant::Default);
    assert_eq!(badge.get_padding(), (6, 3));
    assert_eq!(badge.get_text_size(), 12);
    assert_eq!(badge.get_background_color(), 0xf1f5f9);
    let badge = badge.variant(BadgeVariant::Warning).size(BadgeSize::Large).dot(true);
    assert!(badge.dot);
    assert_eq!(badge.get_padding(), (8, 4));
    assert_eq!(badge.get_text_color(), 0x78350f);
    assert_eq!(badge.get_border_color(), None);
    let outline = Badge::new("x".to_string()).variant(BadgeVariant::Outline).size(BadgeSize::Small);
    assert_eq!(outline.get_border_color(), Some(0xe2e8f0));
    assert_eq!(outline.get_text_size(), 11);
}

#[test]
fn button_styles() {
    let button = Button::new("Save".to_string());
    assert_eq!(button.get_padding(), 12);
    assert_eq!(button.get_background_color(), 0x3b82f6);
    assert_eq!(button.get_text_color(), 0xffffff);
    let link = Button::new("More".to_string()).variant(ButtonVariant::Link).size(ButtonSize::Small);
    assert_eq!(link.get_text_color(), 0x3b82f6);
    assert_eq!(link.get_padding(), 8);
    let disabled = Button::new("No".to_string()).variant(ButtonVariant::Outline).disabled(true);
    assert_eq!(disabled.get_background_color(), 0xf1f5f9);
    assert_eq!(disabled.get_text_color(), 0x94a3b8);
    assert_eq!(disabled.get_border_color(), Some(0xe2e8f0));
    assert_eq!(Button::new("s".to_string()).variant(ButtonVariant::Subtle).get_text_color(), 0x0f172a);
}

#[test]
fn card_sections() {
    let card = Card::new()
        .header(CardHeader::new().title("Title".to_string()).description("About".to_string()))
        .content(CardContent::new().child(Element::Text("body".to_string())))
        .footer(CardFooter::new().children(vec![
            Element::Button(Button::new("Ok".to_string())),
            Element::Button(Button::new("Cancel".to_string())),
        ]));
    assert_eq!(card.variant, CardVariant::Outlined);
    assert_eq!(card.children.len(), 3);
    match &card.children[2] {
        Element::CardFooter(footer) => assert_eq!(footer.children.len(), 2),
        other => panic!("unexpected child {:?}", other),
    }
    assert_eq!(card.get_styles(), (0xffffff, Some(0xe2e8f0), None));
    let elevated = Card::default().variant(CardVariant::Elevated);
    assert_eq!(elevated.get_styles(), (0xffffff, None, Some(10)));
    assert_eq!(Card::new().variant(CardVariant::Filled).get_styles(), (0xf8fafc, None, None));
    assert!(CardHeader::default().title.is_none());
}

#[test]
fn dialog_sections_and_width() {
    let dialog = Dialog::new()
        .size(DialogSize::Large)
        .header(DialogHeader::new().title("Delete?".to_string()))
        .content(DialogContent::default())
        .footer(DialogFooter::new().child(Element::Text("x".to_string())));
    assert!(dialog.open);
    assert_eq!(dialog.children.len(), 3);
    assert_eq!(dialog.get_width(), 700);
    assert_eq!(Dialog::new().get_width(), 500);
    assert!(!Dialog::new().open(false).open);
    assert_eq!(Dialog::new().size(DialogSize::Full).get_width(), 900);
    assert_eq!(DialogHeader::new().description("d".to_string()).description.as_deref(), Some("d"));
}

#[test]
fn checkbox_states() {
    let checkbox = Checkbox::checked("terms".to_string(), true);
    assert_eq!(checkbox.state, ToggleState::Selected);
    assert_eq!(checkbox.render_icon(), Some('\u{2713}'));
    assert_eq!(checkbox.get_background_color(), 0x3b82f6);
    let mixed = Checkbox::new("all".to_string(), ToggleState::Indeterminate).size(CheckboxSize::Small);
    assert_eq!(mixed.render_icon(), Some('\u{2212}'));
    assert_eq!(mixed.get_box_size(), 16);
    assert_eq!(mixed.get_icon_size(), 10);
    let off = Checkbox::checked("x".to_string(), false).label("Remember".to_string());
    assert_eq!(off.render_icon(), None);
    assert_eq!(off.get_border_color(), 0xd1d5db);
    let disabled = Disableable::disabled(off.toggle_state(ToggleState::Selected), true);
    assert_eq!(disabled.render_icon(), None);
    assert_eq!(disabled.get_border_color(), 0xe2e8f0);
    assert_eq!(disabled.get_background_color(), 0xf1f5f9);
    assert_eq!(Checkbox::new("l".to_string(), ToggleState::Unselected).size(CheckboxSize::Large).get_box_size(), 24);
}

#[test]
fn toggle_state_inverse_and_conversions() {
    assert_eq!(ToggleState::Unselected.inverse(), ToggleState::Selected);
    assert_eq!(ToggleState::Indeterminate.inverse(), ToggleState::Selected);
    assert_eq!(ToggleState::Selected.inverse(), ToggleState::Unselected);
    assert!(ToggleState::Selected.selected());
    assert!(!ToggleState::Indeterminate.selected());
    assert_eq!(ToggleState::from(None), ToggleState::Indeterminate);
    assert_eq!(ToggleState::from(Some(false)), ToggleState::Unselected);
    assert_eq!(ToggleState::default(), ToggleState::Unselected);
}

#[test]
fn input_display_text() {
    let empty = Input::new();
    assert_eq!(empty.render_value_or_placeholder(), "Enter text...");
    let search = Input::new().input_type(InputType::Search);
    assert_eq!(search.get_placeholder_text(), "Search...");
    let hinted = Input::new().placeholder("Your name".to_string());
    assert_eq!(hinted.render_value_or_placeholder(), "Your name");
    let password = Input::new().input_type(InputType::Password).value("abc".to_string());
    assert_eq!(password.render_value_or_placeholder(), "\u{2022}\u{2022}\u{2022}");
    let text = Input::new().value("hello".to_string()).id("name".to_string());
    assert_eq!(text.render_value_or_placeholder(), "hello");
    assert_eq!(text.id.as_deref(), Some("name"));
}

#[test]
fn input_styles() {
    let input = Input::new().size(InputSize::Large).label("Email".to_string()).required(true);
    assert_eq!(input.get_padding(), 12);
    assert_eq!(input.get_text_size(), 16);
    assert_eq!(input.get_border_color(), 0xd1d5db);
    let failed = input.error("Required".to_string());
    assert_eq!(failed.variant, InputVariant::Error);
    assert_eq!(failed.get_border_color(), 0xef4444);
    let ok = Input::new().variant(InputVariant::Success).size(InputSize::Small);
    assert_eq!(ok.get_border_color(), 0x22c55e);
    assert_eq!(ok.get_text_size(), 13);
    let off = Input::new().disabled(true);
    assert_eq!(off.get_background_color(), 0xf1f5f9);
    assert_eq!(off.get_text_color(), 0x94a3b8);
    assert_eq!(Input::default().get_background_color(), 0xffffff);
    assert_eq!(Input::new().get_text_color(), 0x0f172a);
}
