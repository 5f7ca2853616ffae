//! Classification of utility-style CSS class names into class groups, and
//! merging of class lists by dropping classes that later ones supersede.

pub mod text;
pub mod validators;
pub mod types;
pub mod classify;
pub mod parse;
pub mod merge;
pub mod cache;
pub mod extend;
pub mod laws;
