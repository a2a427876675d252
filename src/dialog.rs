use vstd::prelude::*;

use crate::element::Element;

verus! {

/// The width of a dialog.
#[derive(Debug, Clone, Copy, PartialEq, Eq, Structural)]
pub enum DialogSize {
    Small,
    Medium,
    Large,
    Full,
}

/// The title and description at the top of a dialog.
#[derive(Debug, Clone)]
pub struct DialogHeader {
    pub title: Option<String>,
    pub description: Option<String>,
}

impl DialogHeader {
    /// A header without title or description.
    pub fn new() -> (r: Self)
        ensures
            r.title is None && r.description is None,
    {
        DialogHeader { title: None, description: None }
    }

    pub fn title(self, title: String) -> (r: Self)
        ensures
            r == (DialogHeader { title: Some(title), ..self }),
    {
        DialogHeader { title: Some(title), ..self }
    }

    pub fn description(self, description: String) -> (r: Self)
        ensures
            r == (DialogHeader { description: Some(description), ..self }),
    {
        DialogHeader { description: Some(description), ..self }
    }
}

impl Default for DialogHeader {
    fn default() -> (r: Self)
        ensures
            r.title is None && r.description is None,
    {
        DialogHeader::new()
    }
}

/// The body section of a dialog.
#[derive(Debug)]
pub struct DialogContent {
    pub children: Vec<Element>,
}

impl DialogContent {
    /// An empty section.
    pub fn new() -> (r: Self)
        ensures
            r.children@.len() == 0,
    {
        DialogContent { children: Vec::new() }
    }

    /// Appends one child.
    pub fn child(self, child: Element) -> (r: Self)
        ensures
            r.children@ == self.children@.push(child),
    {
        let mut children = self.children;
        children.push(child);
        DialogContent { children }
    }

    /// Appends the children, in order.
    pub fn children(self, children: Vec<Element>) -> (r: Self)
        ensures
            r.children@ == self.children@ + children@,
    {
        let mut all = self.children;
        let mut more = children;
        all.append(&mut more);
        DialogContent { children: all }
    }
}

impl Default for DialogContent {
    fn default() -> (r: Self)
        ensures
            r.children@.len() == 0,
    {
        DialogContent::new()
    }
}

/// The button row section of a dialog.
#[derive(Debug)]
pub struct DialogFooter {
    pub children: Vec<Element>,
}

impl DialogFooter {
    /// An empty section.
    pub fn new() -> (r: Self)
        ensures
            r.children@.len() == 0,
    {
        DialogFooter { children: Vec::new() }
    }

    /// Appends one child.
    pub fn child(self, child: Element) -> (r: Self)
        ensures
            r.children@ == self.children@.push(child),
    {
        let mut children = self.children;
        children.push(child);
        DialogFooter { children }
    }

    /// Appends the children, in order.
    pub fn children(self, children: Vec<Element>) -> (r: Self)
        ensures
            r.children@ == self.children@ + children@,
    {
        let mut all = self.children;
        let mut more = children;
        all.append(&mut more);
        DialogFooter { children: all }
    }
}

impl Default for DialogFooter {
    fn default() -> (r: Self)
        ensures
            r.children@.len() == 0,
    {
        DialogFooter::new()
    }
}

/// A modal dialog over a dimmed backdrop; nothing shows while it is closed.
#[derive(Debug)]
pub struct Dialog {
    pub size: DialogSize,
    pub open: bool,
    pub children: Vec<Element>,
}

impl Dialog {
    /// An empty, open dialog of medium width.
    pub fn new() -> (r: Self)
        ensures
            r.size == DialogSize::Medium,
            r.open,
            r.children@.len() == 0,
    {
        Dialog { size: DialogSize::Medium, open: true, children: Vec::new() }
    }

    pub fn size(self, size: DialogSize) -> (r: Self)
        ensures
            r == (Dialog { size, ..self }),
    {
        Dialog { size, ..self }
    }

    pub fn open(self, open: bool) -> (r: Self)
        ensures
            r == (Dialog { open, ..self }),
    {
        Dialog { open, ..self }
    }

    /// Appends one child.
    pub fn child(self, child: Element) -> (r: Self)
        ensures
            r.size == self.size,
            r.open == self.open,
            r.children@ == self.children@.push(child),
    {
        let mut children = self.children;
        children.push(child);
        Dialog { size: self.size, open: self.open, children }
    }

    pub fn header(self, header: DialogHeader) -> (r: Self)
        ensures
            r.size == self.size,
            r.open == self.open,
            r.children@ == self.children@.push(Element::DialogHeader(header)),
    {
        self.child(Element::DialogHeader(header))
    }

    pub fn content(self, content: DialogContent) -> (r: Self)
        ensures
            r.size == self.size,
            r.open == self.open,
            r.children@ == self.children@.push(Element::DialogContent(content)),
    {
        self.child(Element::DialogContent(content))
    }

    pub fn footer(self, footer: DialogFooter) -> (r: Self)
        ensures
            r.size == self.size,
            r.open == self.open,
            r.children@ == self.children@.push(Element::DialogFooter(footer)),
    {
        self.child(Element::DialogFooter(footer))
    }

    /// The width in pixels.
    pub fn get_width(&self) -> (r: u32)
        ensures
            r == match self.size {
                DialogSize::Small => 400u32,
                DialogSize::Medium => 500u32,
                DialogSize::Large => 700u32,
                DialogSize::Full => 900u32,
            },
    {
        match self.size {
            DialogSize::Small => 400,
            DialogSize::Medium => 500,
            DialogSize::Large => 700,
            DialogSize::Full => 900,
        }
    }
}

impl Default for Dialog {
    fn default() -> (r: Self)
        ensures
            r.size == DialogSize::Medium,
            r.open,
            r.children@.len() == 0,
    {
        Dialog::new()
    }
}

} // verus!
