//! Decoder from a flat tagged-node JSON document to a native value tree, with
//! unwrapping of single-attribute shorthand objects such as `{"S": "x"}`.

pub mod decode;
pub mod deserialize;
pub mod error;
pub mod laws;
pub mod layout;
pub mod node;
pub mod number;
pub mod shorthand;
pub mod value;
