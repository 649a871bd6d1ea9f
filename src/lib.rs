//! Generation of interactive form layouts from annotated type definitions.
//!
//! The library reads a description of a record or enumerated type, together
//! with the documentation lines and `control(...)` annotations attached to its
//! fields, and produces a generation plan: the rows of a vertical form (one
//! widget and one description per row), or a single selector over the
//! variants of an enumerated type.

pub mod descriptor;
pub mod docs;
pub mod control;
pub mod plan;
pub mod laws;

pub use descriptor::{Attribute, FieldDescriptor, Token, TypeBody, TypeDescriptor};
pub use control::{ControlAnnotation, GenError, Widget};
pub use plan::{expand, FormRow, GenerationPlan};
