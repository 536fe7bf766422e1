//! Parse events: the tokens of an XML document as the decoder sees them.

use vstd::prelude::*;

verus! {

/// A qualified name: a local name and, where the document binds one, the
/// namespace it belongs to.
#[derive(Clone, Debug, PartialEq, Eq)]
pub struct Name {
    pub local_name: String,
    pub namespace: Option<String>,
}

/// The mathematical value of a [`Name`].
pub struct NameView {
    pub local_name: Seq<char>,
    pub namespace: Option<Seq<char>>,
}

impl View for Name {
    type V = NameView;

    open spec fn view(&self) -> NameView {
        NameView {
            local_name: self.local_name@,
            namespace: match self.namespace {
                Some(ns) => Some(ns@),
                None => None,
            },
        }
    }
}

/// One attribute of a start tag: its name and its text.
#[derive(Clone, Debug, PartialEq, Eq)]
pub struct Attribute {
    pub name: Name,
    pub value: String,
}

/// The mathematical value of an [`Attribute`].
pub struct AttributeView {
    pub name: NameView,
    pub value: Seq<char>,
}

impl View for Attribute {
    type V = AttributeView;

    open spec fn view(&self) -> AttributeView {
        AttributeView { name: self.name@, value: self.value@ }
    }
}

impl Attribute {
    /// The attribute with this name and this text.
    pub fn new(name: Name, value: String) -> (attribute: Attribute)
        ensures
            attribute.name == name,
            attribute.value == value,
    {
        Attribute { name, value }
    }
}

/// The views of a run of attributes, in order.
pub open spec fn attribute_views(attributes: Seq<Attribute>) -> Seq<AttributeView> {
    Seq::new(attributes.len(), |i: int| attributes[i]@)
}

/// One event of the token stream. A decoder reads the name and the
/// attributes of a start tag, the name of an end tag and the text of
/// character data; of the other events it reads the kind alone.
#[derive(Clone, Debug, PartialEq, Eq)]
pub enum Event {
    /// The start of the document, before any other event.
    StartDocument,
    /// The end of the document, behind every other event.
    EndDocument,
    ProcessingInstruction,
    /// A start tag, with its attributes in document order.
    StartElement { name: Name, attributes: Vec<Attribute> },
    /// An end tag. An element without content is a start tag and an end
    /// tag.
    EndElement { name: Name },
    /// A CDATA section, where the source does not fold these into character
    /// data.
    CData(String),
    Comment,
    /// Character data, with entities resolved.
    Characters(String),
    /// Whitespace between tags, where the source does not fold it into
    /// character data or drop it.
    Whitespace(String),
}

/// The mathematical value of an [`Event`].
pub enum EventView {
    StartDocument,
    EndDocument,
    ProcessingInstruction,
    StartElement { name: NameView, attributes: Seq<AttributeView> },
    EndElement { name: NameView },
    CData(Seq<char>),
    Comment,
    Characters(Seq<char>),
    Whitespace(Seq<char>),
}

impl View for Event {
    type V = EventView;

    open spec fn view(&self) -> EventView {
        match self {
            Event::StartDocument => EventView::StartDocument,
            Event::EndDocument => EventView::EndDocument,
            Event::ProcessingInstruction => EventView::ProcessingInstruction,
            Event::StartElement { name, attributes } => EventView::StartElement {
                name: name@,
                attributes: attribute_views(attributes@),
            },
            Event::EndElement { name } => EventView::EndElement { name: name@ },
            Event::CData(text) => EventView::CData(text@),
            Event::Comment => EventView::Comment,
            Event::Characters(text) => EventView::Characters(text@),
            Event::Whitespace(text) => EventView::Whitespace(text@),
        }
    }
}

impl EventView {
    /// Events that carry no content for a decoder: the cursor passes over them.
    pub open spec fn is_skipped(self) -> bool {
        self is StartDocument || self is ProcessingInstruction || self is Comment
    }
}

impl Name {
    /// The name with these parts.
    pub fn new(local_name: String, namespace: Option<String>) -> (name: Name)
        ensures
            name.local_name == local_name,
            name.namespace == namespace,
    {
        Name { local_name, namespace }
    }

    /// Namespace-aware equality: the local names agree, and so do the
    /// namespaces.
    pub fn same_as(&self, other: &Name) -> (same: bool)
        ensures
            same == (self@ == other@),
    {
        let locals = self.local_name == other.local_name;
        let spaces = match &self.namespace {
            Some(a) => match &other.namespace {
                Some(b) => *a == *b,
                None => false,
            },
            None => other.namespace.is_none(),
        };
        locals && spaces
    }

    /// A copy of the name.
    pub fn duplicate(&self) -> (copy: Name)
        ensures
            copy@ == self@,
    {
        Name {
            local_name: self.local_name.clone(),
            namespace: match &self.namespace {
                Some(namespace) => Some(namespace.clone()),
                None => None,
            },
        }
    }
}

impl Attribute {
    /// A copy of the attribute.
    pub fn duplicate(&self) -> (copy: Attribute)
        ensures
            copy@ == self@,
    {
        Attribute { name: self.name.duplicate(), value: self.value.clone() }
    }
}

impl Event {
    /// A copy of the event.
    pub fn duplicate(&self) -> (copy: Event)
        ensures
            copy@ == self@,
    {
        match self {
            Event::StartDocument => Event::StartDocument,
            Event::EndDocument => Event::EndDocument,
            Event::ProcessingInstruction => Event::ProcessingInstruction,
            Event::StartElement { name, attributes } => {
                let mut copies: Vec<Attribute> = Vec::new();
                let mut at: usize = 0;
                while at < attributes.len()
                    invariant
                        at <= attributes.len(),
                        copies.len() == at,
                        forall|i: int| 0 <= i < at ==> copies@[i]@ == attributes@[i]@,
                    decreases attributes.len() - at,
                {
                    copies.push(attributes[at].duplicate());
                    at = at + 1;
                }
                assert(attribute_views(copies@) =~= attribute_views(attributes@));
                Event::StartElement { name: name.duplicate(), attributes: copies }
            },
            Event::EndElement { name } => Event::EndElement { name: name.duplicate() },
            Event::CData(text) => Event::CData(text.clone()),
            Event::Comment => Event::Comment,
            Event::Characters(text) => Event::Characters(text.clone()),
            Event::Whitespace(text) => Event::Whitespace(text.clone()),
        }
    }
}

} // verus!
