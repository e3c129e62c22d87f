//! The runtime value model of a small dynamically-typed scripting language:
//! the tagged value every expression evaluates to, and the rules for
//! converting, comparing and rendering such values.
//!
//! Floating-point numbers are held by their IEEE-754 encoding, so every rule
//! about them is stated and proved in integer arithmetic.

pub mod descriptor;
pub mod equality;
pub mod error;
pub mod float;
pub mod float_laws;
pub mod laws;
pub mod literal;
pub mod render;
pub mod text;
pub mod value;

pub use descriptor::Field;
pub use descriptor::FunctionHeader;
pub use descriptor::LoxArray;
pub use descriptor::LoxClass;
pub use descriptor::LoxFunction;
pub use descriptor::LoxObject;
pub use descriptor::LoxTrait;
pub use error::ProgramError;
pub use error::SourceCodeLocation;
pub use error::ValueError;
pub use float::Float32;
pub use literal::DataKeyword;
pub use literal::Literal;
pub use render::Segment;
pub use value::Value;
