//! Renders a store key's flat string collection (a mapping, a sequence or a
//! collection) as pretty JSON, an aligned text table, CSV or HTML markup.

pub mod text;
pub mod delimited;
pub mod shape;
pub mod table;
pub mod markup;
pub mod json;
pub mod command;
pub mod laws;
