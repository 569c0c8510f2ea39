pub mod builder;
pub mod code_formatter;
pub mod diagnostic;
pub mod laws;
pub mod order;
pub mod rust_fmt;
pub mod text;
pub mod types;
pub mod xml;

pub use builder::ModelSchema;
pub use code_formatter::CodeFormatter;
pub use diagnostic::{Diagnostic, ModelError};
pub use rust_fmt::RustFmt;
pub use types::{EnumImpl, Field, Implementation, ObjectImpl, Primitive, TypeName};
