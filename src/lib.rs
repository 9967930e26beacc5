//! Extraction of Markdown sections by heading prefix.
//!
//! Lines are classified by their literal prefix (`# `, `## `, `###`), and two
//! extraction rules are offered over a document held as a sequence of lines:
//! one merges the body of each level-2 section into a single line, the other
//! keeps headings and bodies and closes every level-2 section with a fixed
//! practice block.
pub mod line;

pub mod sections;
pub mod quiz;
pub mod naming;
