//! What the parser extracts from a specification, and what is stored of it.

use crate::time::Timestamp;
use vstd::prelude::*;

verus! {

/// The version of the index that this build produces. An index that another
/// version produced is stale, whatever its age.
pub const INDEX_VERSION: &'static str = "0.1.0";

/// What a section of a specification is.
#[derive(Debug, Clone)]
pub enum SectionType {
    Heading,
    /// Any other kind, by the parser's name for it.
    Other(String),
}

/// A section of a specification, found under its anchor.
#[derive(Debug, Clone)]
pub struct ParsedSection {
    pub anchor: String,
    pub title: Option<String>,
    pub content_text: Option<String>,
    pub section_type: SectionType,
    pub parent_anchor: Option<String>,
    pub prev_anchor: Option<String>,
    pub next_anchor: Option<String>,
    pub depth: Option<u8>,
}

/// A link from a section to a section of some specification.
#[derive(Debug, Clone)]
pub struct ParsedReference {
    pub from_anchor: String,
    pub to_spec: String,
    pub to_anchor: String,
}

/// A definition of an interface language block.
#[derive(Debug, Clone)]
pub struct ParsedIdlDefinition {
    pub anchor: String,
    pub name: String,
    pub kind: String,
    pub text: String,
}

/// All that the parser extracts from one page or document.
#[derive(Debug, Clone)]
pub struct ParsedSpec {
    pub sections: Vec<ParsedSection>,
    pub references: Vec<ParsedReference>,
    pub idl_definitions: Vec<ParsedIdlDefinition>,
}

/// What the last check of a specification left behind.
#[derive(Debug, Clone)]
pub struct UpdateCheckState {
    pub last_checked: Timestamp,
    pub last_indexed: Option<Timestamp>,
    pub content_hash: Option<String>,
    pub index_version: Option<String>,
}

} // verus!
