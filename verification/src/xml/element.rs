use crate::xml::kind::{Kind, KindModel};
use crate::xml::occurence::Occurence;
use vstd::prelude::*;

verus! {

/// A member of a sequence, or an element at the root of the schema.
#[derive(Debug, PartialEq, Eq)]
pub struct Element {
    pub name: String,
    /// Present on very few elements; the occurrence bounds decide.
    pub nillable: Option<String>,
    pub min_occurs: i8,
    pub max_occurs: Occurence,
    /// The type of the element, where the schema gives one.
    pub kind: Option<Kind>,
}

/// What an [`Element`] stands for.
pub struct ElementModel {
    pub name: Seq<char>,
    pub nillable: Option<Seq<char>>,
    pub min_occurs: int,
    pub max_occurs: Occurence,
    pub kind: Option<KindModel>,
}

impl View for Element {
    type V = ElementModel;

    open spec fn view(&self) -> ElementModel {
        ElementModel {
            name: self.name@,
            nillable: match self.nillable {
                Some(text) => Some(text@),
                None => None,
            },
            min_occurs: self.min_occurs as int,
            max_occurs: self.max_occurs,
            kind: match self.kind {
                Some(kind) => Some(kind@),
                None => None,
            },
        }
    }
}

impl Element {
    /// An element may be left out when it need not occur at all.
    pub fn is_optional(&self) -> (r: bool)
        ensures
            r == (self@.min_occurs == 0),
    {
        self.min_occurs == 0
    }
}

/// What a list of elements holds.
pub open spec fn elements_view(elements: Seq<Element>) -> Seq<ElementModel> {
    elements.map_values(|e: Element| e@)
}

} // verus!
