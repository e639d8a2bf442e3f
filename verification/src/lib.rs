//! Sets of the values of an enumeration, each kept in one integer: the layout that
//! gives every value its bit, the algebra of the sets, and the forms in which a set
//! is serialized.

pub mod analyzer;
pub mod bits;
pub mod derive;
pub mod descriptor;
pub mod error;
pub mod iter;
pub mod laws;
pub mod options;
pub mod serialization;
pub mod set;
pub mod text;
pub mod width;
