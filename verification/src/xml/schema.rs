use crate::xml::complex_type::{ComplexType, ComplexTypeModel};
use crate::xml::element::{elements_view, Element, ElementModel};
use crate::xml::simple_type::{SimpleType, SimpleTypeModel};
use vstd::prelude::*;

verus! {

/// The root of a schema document.
#[derive(Debug, PartialEq, Eq)]
pub struct Schema {
    pub elements: Vec<Element>,
    pub simple_types: Vec<SimpleType>,
    pub complex_types: Vec<ComplexType>,
}

/// What a [`Schema`] stands for.
pub struct SchemaModel {
    pub elements: Seq<ElementModel>,
    pub simple_types: Seq<SimpleTypeModel>,
    pub complex_types: Seq<ComplexTypeModel>,
}

impl View for Schema {
    type V = SchemaModel;

    open spec fn view(&self) -> SchemaModel {
        SchemaModel {
            elements: elements_view(self.elements@),
            simple_types: self.simple_types@.map_values(|t: SimpleType| t@),
            complex_types: self.complex_types@.map_values(|t: ComplexType| t@),
        }
    }
}

/// An ordered list of elements.
#[derive(Debug, PartialEq, Eq)]
pub struct Sequence {
    pub elements: Vec<Element>,
}

/// What a [`Sequence`] stands for.
pub struct SequenceModel {
    pub elements: Seq<ElementModel>,
}

impl View for Sequence {
    type V = SequenceModel;

    open spec fn view(&self) -> SequenceModel {
        SequenceModel { elements: elements_view(self.elements@) }
    }
}

/// What a list of sequences holds.
pub open spec fn sequences_view(sequences: Seq<Sequence>) -> Seq<SequenceModel> {
    sequences.map_values(|s: Sequence| s@)
}

/// The content of a complex type that extends another.
#[derive(Debug, PartialEq, Eq)]
pub struct ComplexContent {
    pub mixed: bool,
    pub extensions: Vec<Extension>,
}

/// What a [`ComplexContent`] stands for.
pub struct ComplexContentModel {
    pub mixed: bool,
    pub extensions: Seq<ExtensionModel>,
}

impl View for ComplexContent {
    type V = ComplexContentModel;

    open spec fn view(&self) -> ComplexContentModel {
        ComplexContentModel {
            mixed: self.mixed,
            extensions: self.extensions@.map_values(|e: Extension| e@),
        }
    }
}

/// What a complex type adds to the type that it extends.
#[derive(Debug, PartialEq, Eq)]
pub struct Extension {
    pub base: String,
    pub sequences: Vec<Sequence>,
}

/// What an [`Extension`] stands for.
pub struct ExtensionModel {
    pub base: Seq<char>,
    pub sequences: Seq<SequenceModel>,
}

impl View for Extension {
    type V = ExtensionModel;

    open spec fn view(&self) -> ExtensionModel {
        ExtensionModel { base: self.base@, sequences: sequences_view(self.sequences@) }
    }
}

} // verus!
