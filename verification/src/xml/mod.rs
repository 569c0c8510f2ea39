pub mod complex_type;
pub mod element;
pub mod kind;
pub mod occurence;
pub mod schema;
pub mod simple_type;

pub use complex_type::{ComplexType, ComplexTypeModel};
pub use element::{Element, ElementModel};
pub use kind::{Kind, KindError, KindErrorModel, KindModel};
pub use occurence::{InvalidOccurence, Occurence};
pub use schema::{
    ComplexContent, ComplexContentModel, Extension, ExtensionModel, Schema, SchemaModel, Sequence,
    SequenceModel,
};
pub use simple_type::{
    Enumeration, EnumerationModel, Restriction, RestrictionModel, SimpleType, SimpleTypeModel,
};
