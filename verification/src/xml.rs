//! XML documents as trees of elements.

use vstd::prelude::*;

verus! {

/// An XML element: its qualified name, the character data directly inside it, and
/// its child elements in document order.
#[derive(Debug, PartialEq, Eq)]
pub struct XmlElement {
    pub name: String,
    pub text: Option<String>,
    pub children: Vec<XmlElement>,
}

/// What an `XmlElement` stands for.
pub struct Element {
    pub name: Seq<char>,
    pub text: Option<Seq<char>>,
    pub children: Seq<Element>,
}

/// The characters of an optional text.
pub open spec fn text_view(text: Option<String>) -> Option<Seq<char>> {
    match text {
        Some(t) => Some(t@),
        None => None,
    }
}

/// The characters of each text in a list.
pub open spec fn texts_view(texts: Seq<String>) -> Seq<Seq<char>> {
    texts.map_values(|t: String| t@)
}

/// The element that `e` stands for.
pub open spec fn element_view(e: XmlElement) -> Element
    decreases e, 0nat,
{
    Element {
        name: e.name@,
        text: text_view(e.text),
        children: elements_view(e.children@),
    }
}

/// The elements that a list stands for.
pub open spec fn elements_view(list: Seq<XmlElement>) -> Seq<Element>
    decreases list, 1nat,
{
    if list.len() == 0 {
        Seq::empty()
    } else {
        elements_view(list.drop_last()).push(element_view(list.last()))
    }
}

/// A list stands for as many elements as it has items.
pub broadcast proof fn lemma_elements_view_len(list: Seq<XmlElement>)
    ensures
        #[trigger] elements_view(list).len() == list.len(),
    decreases list.len(),
{
    if list.len() > 0 {
        lemma_elements_view_len(list.drop_last());
    }
}

/// The element at a place is the one that the item there stands for.
pub proof fn lemma_elements_view_at(list: Seq<XmlElement>, i: int)
    requires
        0 <= i < list.len(),
    ensures
        elements_view(list)[i] == list[i]@,
    decreases list.len(),
{
    lemma_elements_view_len(list.drop_last());
    if i < list.len() - 1 {
        lemma_elements_view_at(list.drop_last(), i);
    }
}

impl View for XmlElement {
    type V = Element;

    open spec fn view(&self) -> Element {
        element_view(*self)
    }
}

/// How large a document may be for it to be read.
#[derive(Debug, Clone, Copy, PartialEq, Eq, Structural)]
pub struct ParseOptions {
    /// The number of bytes.
    pub max_size: usize,
    /// How deep elements may be nested.
    pub max_depth: usize,
    /// The number of elements.
    pub max_elements: usize,
}

impl XmlElement {
    /// An element without text or children.
    pub fn new(name: &str) -> (element: XmlElement)
        ensures
            element@ == (Element { name: name@, text: None, children: Seq::empty() }),
    {
        let element: XmlElement = XmlElement {
            name: name.to_string(),
            text: None,
            children: Vec::new(),
        };
        assert(element@.children =~= Seq::<Element>::empty());
        element
    }

    /// The element with `text` as its text.
    pub fn with_text(self, text: &str) -> (element: XmlElement)
        ensures
            element@ == (Element { text: Some(text@), ..self@ }),
    {
        let element: XmlElement = XmlElement {
            name: self.name,
            text: Some(text.to_string()),
            children: self.children,
        };
        assert(element@.children =~= self@.children);
        element
    }

    /// Adds `child` after the element's children.
    pub fn push(&mut self, child: XmlElement)
        ensures
            final(self)@ == (Element { children: old(self)@.children.push(child@), ..old(self)@ }),
    {
        let ghost before = self.children@;
        self.children.push(child);
        assert(self.children@.drop_last() =~= before);
    }

    /// The element's text.
    pub fn get_text(&self) -> (text: Option<&str>)
        ensures
            match text {
                Some(t) => self@.text == Some(t@),
                None => self@.text is None,
            },
    {
        match &self.text {
            Some(t) => Some(t.as_str()),
            None => None,
        }
    }
}

} // verus!
