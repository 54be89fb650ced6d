use vstd::prelude::*;

use crate::collection::CollectionSpec;

verus! {

/// The Unicode normalization form applied to finalized labels.
#[derive(Debug, Clone, Copy, PartialEq, Eq, Structural)]
pub enum TranslitChoice {
    Nfc,
    Nfd,
    Nfkc,
    Nfkd,
}

/// Options steering concept assembly and label normalization.
#[derive(Debug)]
pub struct ConceptConfig {
    /// Record-selection predicate handed to the record reader.
    pub filter: Option<String>,
    /// Base locator prepended to record keys when building identifiers.
    pub base_uri: String,
    /// Whether unreadable records are skipped instead of aborting the run.
    pub skip_invalid: bool,
    /// Normalization form applied to finalized labels, if any.
    pub translit: Option<TranslitChoice>,
    /// Labels shorter than this many bytes are dropped.
    pub min_synonym_length: Option<usize>,
    /// Labels matching this pattern are dropped.
    pub synonym_filter: Option<String>,
    /// Suppress person labels whose forename is a bare initial.
    pub person_no_initials: Option<bool>,
    /// Reserved switch kept for configuration compatibility.
    pub person_no_modern_names: Option<bool>,
}

impl ConceptConfig {
    /// The normalization form labels are finalized under.
    pub open spec fn form(&self) -> Option<TranslitChoice> {
        self.translit
    }

    /// The length floor labels are finalized under; zero when unset.
    pub open spec fn min_len(&self) -> usize {
        match self.min_synonym_length {
            Some(n) => n,
            None => 0,
        }
    }

    /// The exclusion pattern labels are finalized under.
    pub open spec fn filter_pat(&self) -> Option<Seq<char>> {
        match self.synonym_filter {
            Some(p) => Some(p@),
            None => None,
        }
    }

    /// Whether person labels with a bare-initial forename are suppressed.
    pub open spec fn no_initials(&self) -> bool {
        match self.person_no_initials {
            Some(b) => b,
            None => false,
        }
    }
}

impl Default for ConceptConfig {
    fn default() -> (r: Self)
        ensures
            r.filter is None,
            r.base_uri@ == "http://d-nb.info/gnd/"@,
            r.skip_invalid == false,
            r.translit is None,
            r.min_synonym_length is None,
            r.synonym_filter is None,
            r.person_no_initials is None,
            r.person_no_modern_names is None,
    {
        ConceptConfig {
            filter: None,
            base_uri: "http://d-nb.info/gnd/".to_owned(),
            skip_invalid: false,
            translit: None,
            min_synonym_length: None,
            synonym_filter: None,
            person_no_initials: None,
            person_no_modern_names: None,
        }
    }
}

/// Options of the semantic-graph projection.
#[derive(Debug)]
pub struct SkosifyConfig {
    /// Whether the graph writer pretty-prints its output.
    pub pretty: bool,
    /// Language tag attached to every emitted label.
    pub language_tag: String,
}

/// The language tag used when none is configured.
pub fn default_language_tag() -> (r: String)
    ensures
        r@ == "de"@,
{
    "de".to_owned()
}

impl Default for SkosifyConfig {
    fn default() -> (r: Self)
        ensures
            r.pretty == true,
            r.language_tag@ == "de"@,
    {
        SkosifyConfig { pretty: true, language_tag: default_language_tag() }
    }
}

/// The whole configuration surface of the library.
#[derive(Debug)]
pub struct Config {
    pub concept: ConceptConfig,
    pub collections: Vec<CollectionSpec>,
    pub skosify: SkosifyConfig,
}

impl Default for Config {
    fn default() -> (r: Self)
        ensures
            r.concept.base_uri@ == "http://d-nb.info/gnd/"@,
            r.concept.translit is None,
            r.concept.min_synonym_length is None,
            r.concept.synonym_filter is None,
            r.concept.person_no_initials is None,
            r.collections@.len() == 0,
            r.skosify.pretty == true,
    {
        Config {
            concept: ConceptConfig::default(),
            collections: Vec::new(),
            skosify: SkosifyConfig::default(),
        }
    }
}

} // verus!
