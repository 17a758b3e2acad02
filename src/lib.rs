//! A small web site: a greeting page, a stylesheet, a script and a directory
//! of embedded files, served through a fixed route table.

pub mod assets;
pub mod config;
pub mod query;
pub mod router;
pub mod site;
pub mod text;
