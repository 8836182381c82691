//! Extraction of software release announcements: title classification into a
//! product and a semantic version, article assembly and one-line rendering.

pub mod article;
pub mod date;
pub mod links;
pub mod parse;
pub mod product;
pub mod text;
pub mod version;
