use vstd::prelude::*;

use crate::element::Element;

verus! {

/// The visual style of a card.
#[derive(Debug, Clone, Copy, PartialEq, Eq, Structural)]
pub enum CardVariant {
    Elevated,
    Outlined,
    Filled,
}

/// The title and description at the top of a card.
#[derive(Debug, Clone)]
pub struct CardHeader {
    pub title: Option<String>,
    pub description: Option<String>,
}

impl CardHeader {
    /// A header without title or description.
    pub fn new() -> (r: Self)
        ensures
            r.title is None && r.description is None,
    {
        CardHeader { title: None, description: None }
    }

    pub fn title(self, title: String) -> (r: Self)
        ensures
            r == (CardHeader { title: Some(title), ..self }),
    {
        CardHeader { title: Some(title), ..self }
    }

    pub fn description(self, description: String) -> (r: Self)
        ensures
            r == (CardHeader { description: Some(description), ..self }),
    {
        CardHeader { description: Some(description), ..self }
    }
}

impl Default for CardHeader {
    fn default() -> (r: Self)
        ensures
            r.title is None && r.description is None,
    {
        CardHeader::new()
    }
}

/// The body section of a card.
#[derive(Debug)]
pub struct CardContent {
    pub children: Vec<Element>,
}

impl CardContent {
    /// An empty section.
    pub fn new() -> (r: Self)
        ensures
            r.children@.len() == 0,
    {
        CardContent { children: Vec::new() }
    }

    /// Appends one child.
    pub fn child(self, child: Element) -> (r: Self)
        ensures
            r.children@ == self.children@.push(child),
    {
        let mut children = self.children;
        children.push(child);
        CardContent { children }
    }

    /// Appends the children, in order.
    pub fn children(self, children: Vec<Element>) -> (r: Self)
        ensures
            r.children@ == self.children@ + children@,
    {
        let mut all = self.children;
        let mut more = children;
        all.append(&mut more);
        CardContent { children: all }
    }
}

impl Default for CardContent {
    fn default() -> (r: Self)
        ensures
            r.children@.len() == 0,
    {
        CardContent::new()
    }
}

/// The footer section of a card.
#[derive(Debug)]
pub struct CardFooter {
    pub children: Vec<Element>,
}

impl CardFooter {
    /// An empty section.
    pub fn new() -> (r: Self)
        ensures
            r.children@.len() == 0,
    {
        CardFooter { children: Vec::new() }
    }

    /// Appends one child.
    pub fn child(self, child: Element) -> (r: Self)
        ensures
            r.children@ == self.children@.push(child),
    {
        let mut children = self.children;
        children.push(child);
        CardFooter { children }
    }

    /// Appends the children, in order.
    pub fn children(self, children: Vec<Element>) -> (r: Self)
        ensures
            r.children@ == self.children@ + children@,
    {
        let mut all = self.children;
        let mut more = children;
        all.append(&mut more);
        CardFooter { children: all }
    }
}

impl Default for CardFooter {
    fn default() -> (r: Self)
        ensures
            r.children@.len() == 0,
    {
        CardFooter::new()
    }
}

/// A container of header, content and footer sections. Colors are opaque
/// `0xRRGGBB` values.
#[derive(Debug)]
pub struct Card {
    pub variant: CardVariant,
    pub children: Vec<Element>,
}

impl Card {
    /// An empty outlined card.
    pub fn new() -> (r: Self)
        ensures
            r.variant == CardVariant::Outlined,
            r.children@.len() == 0,
    {
        Card { variant: CardVariant::Outlined, children: Vec::new() }
    }

    pub fn variant(self, variant: CardVariant) -> (r: Self)
        ensures
            r.variant == variant,
            r.children == self.children,
    {
        Card { variant, ..self }
    }

    /// Appends one child.
    pub fn child(self, child: Element) -> (r: Self)
        ensures
            r.variant == self.variant,
            r.children@ == self.children@.push(child),
    {
        let mut children = self.children;
        children.push(child);
        Card { variant: self.variant, children }
    }

    pub fn header(self, header: CardHeader) -> (r: Self)
        ensures
            r.variant == self.variant,
            r.children@ == self.children@.push(Element::CardHeader(header)),
    {
        self.child(Element::CardHeader(header))
    }

    pub fn content(self, content: CardContent) -> (r: Self)
        ensures
            r.variant == self.variant,
            r.children@ == self.children@.push(Element::CardContent(content)),
    {
        self.child(Element::CardContent(content))
    }

    pub fn footer(self, footer: CardFooter) -> (r: Self)
        ensures
            r.variant == self.variant,
            r.children@ == self.children@.push(Element::CardFooter(footer)),
    {
        self.child(Element::CardFooter(footer))
    }

    /// Background color, border color, and the opacity in percent of a black
    /// shadow.
    pub fn get_styles(&self) -> (r: (u32, Option<u32>, Option<u32>))
        ensures
            r == match self.variant {
                CardVariant::Elevated => (0xffffffu32, None, Some(10u32)),
                CardVariant::Outlined => (0xffffffu32, Some(0xe2e8f0u32), None),
                CardVariant::Filled => (0xf8fafcu32, None, None),
            },
    {
        match self.variant {
            CardVariant::Elevated => (0xffffff, None, Some(10)),
            CardVariant::Outlined => (0xffffff, Some(0xe2e8f0), None),
            CardVariant::Filled => (0xf8fafc, None, None),
        }
    }
}

impl Default for Card {
    fn default() -> (r: Self)
        ensures
            r.variant == CardVariant::Outlined,
            r.children@.len() == 0,
    {
        Card::new()
    }
}

} // verus!
