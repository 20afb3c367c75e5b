//! Resolution of named, inheritable icon flavors: a structural merge of
//! semi-structured documents, the inheritance walk that feeds it, and the
//! typed icon model with its style precedence rules.

pub mod value;
pub mod names;
pub mod paths;
pub mod merge;
pub mod style;
pub mod icons;
pub mod convert;
pub mod parse;
pub mod flavor;
pub mod loader;
pub mod docs;
