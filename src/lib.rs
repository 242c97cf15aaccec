//! A dynamic value tree for a self-describing binary interchange format, a
//! capturing serializer that builds such a tree call by call, and a replay of a
//! tree as a stream of protocol calls that a visitor reads back into a tree.
pub mod de;
pub mod laws;
pub mod ser;
pub mod tokens;
pub mod value;

pub use de::from_value;
pub use ser::{MapState, Serializer, StructVariantState, TupleVariantState};
pub use tokens::{BorrowedValue, Token};
pub use value::{Error, Integer, Value};
