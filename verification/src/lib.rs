//! Verified parts of the Inklang compiler: its error values and how they
//! are rendered with source context, the splitting of a source into lines,
//! the lowerer's constant table, the peephole pass over the final linear IR,
//! the decisions a compilation takes between its stages, and the file
//! selection and naming of a batch compilation.

pub mod error;
pub mod text;
pub mod diagnostic;
pub mod peephole;
pub mod constants;
pub mod pipeline;
pub mod batch;
