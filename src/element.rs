use vstd::prelude::*;

use crate::badge::Badge;
use crate::button::Button;
use crate::card::{Card, CardContent, CardFooter, CardHeader};
use crate::checkbox::Checkbox;
use crate::dialog::{Dialog, DialogContent, DialogFooter, DialogHeader};
use crate::input::Input;

verus! {

/// A node of a component tree: plain text or one of the components.
#[derive(Debug)]
pub enum Element {
    Text(String),
    Badge(Badge),
    Button(Button),
    Checkbox(Checkbox),
    Input(Input),
    CardHeader(CardHeader),
    CardContent(CardContent),
    CardFooter(CardFooter),
    Card(Card),
    DialogHeader(DialogHeader),
    DialogContent(DialogContent),
    DialogFooter(DialogFooter),
    Dialog(Dialog),
}

} // verus!
