//! Derives normalized, typed labels and cross-references from structured
//! bibliographic authority records, and aggregates them into concepts and
//! named collections ready for projection into an output format.

mod collection;
mod concept;
pub mod conference;
mod config;
pub mod corporate_body;
mod error;
mod norm;
mod pattern;
pub mod person;
pub mod place;
mod record;
mod relation;
pub mod subject_term;
mod synset;
mod text;
pub mod work;

pub use collection::{Collection, CollectionSpec, KeyPath};
pub use concept::{Concept, ConceptKind};
pub use config::{default_language_tag, ConceptConfig, Config, SkosifyConfig, TranslitChoice};
pub use error::Error;
pub use norm::normalize;
pub use pattern::TextPattern;
pub use record::{Field, Record, Subfield};
pub use relation::{Relation, RelationKind};
pub use synset::{SynKind, SynSet, Synonym, SynonymBuilder};
