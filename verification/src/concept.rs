use vstd::prelude::*;

use vstd::string::StrSliceExecFns;

use crate::config::Config;
use crate::error::Error;
use crate::pattern::{regex_valid, TextPattern};
use crate::record::{rec_fields, rec_first_field, rec_first_path_value, Field, FieldV, Record};
use crate::relation::{field_relation, Relation, RelationV};
use crate::synset::{SynSet, Synonym, SynonymV};

verus! {

/// The kind of entity a concept stands for, fixed by the record's type code.
#[derive(Debug, Clone, Copy, PartialEq, Eq, Structural)]
pub enum ConceptKind {
    Person,
    CorporateBody,
    Conference,
    Place,
    SubjectTerm,
    Work,
}

impl ConceptKind {
    /// The kind's display name.
    pub open spec fn text_spec(&self) -> Seq<char> {
        match self {
            ConceptKind::Person => "Person"@,
            ConceptKind::CorporateBody => "Corporate Body"@,
            ConceptKind::Conference => "Conference"@,
            ConceptKind::Place => "Place"@,
            ConceptKind::SubjectTerm => "Subject term"@,
            ConceptKind::Work => "Work"@,
        }
    }

    /// The kind's display name.
    pub fn as_str(&self) -> (r: &'static str)
        ensures
            r@ == self.text_spec(),
    {
        match self {
            ConceptKind::Person => "Person",
            ConceptKind::CorporateBody => "Corporate Body",
            ConceptKind::Conference => "Conference",
            ConceptKind::Place => "Place",
            ConceptKind::SubjectTerm => "Subject term",
            ConceptKind::Work => "Work",
        }
    }
}

/// One semantic entity derived from a single authority record.
#[derive(Debug)]
pub struct Concept {
    pub uri: String,
    pub kind: ConceptKind,
    pub synset: SynSet,
    pub relations: Vec<Relation>,
}

impl Concept {
    /// The label set holds no duplicate (text, category) pair.
    pub open spec fn wf(&self) -> bool {
        self.synset.wf()
    }

    /// Starts a concept with an identifier, its relations, and an empty
    /// label set.
    pub fn new(uri: String, relations: Vec<Relation>, kind: ConceptKind) -> (r: Concept)
        ensures
            r.uri@ == uri@,
            r.kind == kind,
            r.relations == relations,
            r.synset@ =~= Set::<SynonymV>::empty(),
            r.synset.seq_view().len() == 0,
            r.wf(),
    {
        Concept { uri, kind, synset: SynSet::new(), relations }
    }

    /// Adds a label unless an equal one is present; reports whether the
    /// label set grew.
    pub fn add_synonym(&mut self, synonym: Synonym) -> (r: bool)
        ensures
            final(self).synset@ =~= old(self).synset@.insert(synonym@),
            r == !old(self).synset@.contains(synonym@),
            old(self).wf() ==> final(self).wf(),
            final(self).uri == old(self).uri,
            final(self).kind == old(self).kind,
            final(self).relations == old(self).relations,
            r ==> final(self).synset.seq_view() == old(self).synset.seq_view().push(synonym@),
            !r ==> final(self).synset.seq_view() == old(self).synset.seq_view(),
    {
        self.synset.insert(synonym)
    }

    /// The concept's identifier.
    pub fn uri(&self) -> (r: &str)
        ensures
            r@ == self.uri@,
    {
        self.uri.as_str()
    }

    /// The concept's kind.
    pub fn kind(&self) -> (r: &ConceptKind)
        ensures
            *r == self.kind,
    {
        &self.kind
    }

    /// The concept's label set.
    pub fn synset(&self) -> (r: &SynSet)
        ensures
            r == &self.synset,
    {
        &self.synset
    }

    /// The concept's relations, in order of first appearance.
    pub fn relations(&self) -> (r: &Vec<Relation>)
        ensures
            r == &self.relations,
    {
        &self.relations
    }
}

/// The identifier a record yields: the base locator followed by the record
/// key found under the identification tag, or nothing when the key is
/// missing.
pub open spec fn concept_uri(rv: Seq<FieldV>, base: Seq<char>) -> Option<Seq<char>> {
    match rec_first_path_value(rv, "003@"@, '0') {
        Some(idn) => Some(base + idn),
        None => None,
    }
}

/// Builds the record's identifier from the configured base locator, or
/// reports the missing record key.
pub fn build_uri(record: &Record, config: &Config) -> (r: Result<String, Error>)
    ensures
        match r {
            Ok(uri) => concept_uri(record@, config.concept.base_uri@) == Some(uri@),
            Err(e) => concept_uri(record@, config.concept.base_uri@) is None && (e matches Error::Concept(m)
                && m@ == "could not find valid idn"@),
        },
{
    match record.first_path_value("003@", '0') {
        Some(idn) => {
            let mut uri = config.concept.base_uri.clone();
            uri.append(idn.as_str());
            Ok(uri)
        },
        None => Err(Error::Concept("could not find valid idn".to_owned())),
    }
}

/// The type code of a record: the second character of the first value under
/// the identification tag.
pub open spec fn type_code(rv: Seq<FieldV>) -> Option<char> {
    match rec_first_path_value(rv, "002@"@, '0') {
        Some(v) => if v.len() >= 2 {
            Some(v[1])
        } else {
            None
        },
        None => None,
    }
}

/// The concept kind a type code selects, if the code is recognized.
pub open spec fn kind_of_code(c: char) -> Option<ConceptKind> {
    if c == 'p' {
        Some(ConceptKind::Person)
    } else if c == 'b' {
        Some(ConceptKind::CorporateBody)
    } else if c == 'f' {
        Some(ConceptKind::Conference)
    } else if c == 'g' {
        Some(ConceptKind::Place)
    } else if c == 's' {
        Some(ConceptKind::SubjectTerm)
    } else if c == 'u' {
        Some(ConceptKind::Work)
    } else {
        None
    }
}

/// The kind a record's type code selects, if the code exists and is
/// recognized.
pub open spec fn known_kind(rv: Seq<FieldV>) -> Option<ConceptKind> {
    match type_code(rv) {
        Some(c) => kind_of_code(c),
        None => None,
    }
}

/// The tag of the field a kind's extractor reads its preferred label from.
pub open spec fn primary_tag(kind: ConceptKind) -> Seq<char> {
    match kind {
        ConceptKind::Person => "028A"@,
        ConceptKind::CorporateBody => "029A"@,
        ConceptKind::Conference => "030A"@,
        ConceptKind::Place => "065A"@,
        ConceptKind::SubjectTerm => "041A"@,
        ConceptKind::Work => "022A"@,
    }
}

/// Whether the configured label-exclusion pattern fails to compile.
pub open spec fn invalid_filter(config: &Config) -> bool {
    match config.concept.synonym_filter {
        Some(p) => !regex_valid(p@),
        None => false,
    }
}

/// Compiles the configured label-exclusion pattern once, or reports it
/// unusable.
pub fn compile_filter(config: &Config) -> (r: Result<Option<TextPattern>, Error>)
    ensures
        match r {
            Ok(opt) => !invalid_filter(config) && (match opt {
                Some(tp) => config.concept.synonym_filter matches Some(p) && tp.pattern() == p@,
                None => config.concept.synonym_filter is None,
            }),
            Err(e) => invalid_filter(config) && (e matches Error::Config(m) && m@
                == "invalid synonym filter"@),
        },
{
    match &config.concept.synonym_filter {
        Some(p) => match TextPattern::new(p.as_str()) {
            Some(tp) => Ok(Some(tp)),
            None => Err(Error::Config("invalid synonym filter".to_owned())),
        },
        None => Ok(None),
    }
}

/// A relation with the base locator prepended to its target.
pub open spec fn prefixed(base: Seq<char>, r: RelationV) -> RelationV {
    RelationV { uri: base + r.uri, kind: r.kind }
}

/// The relations contributed by the fields carrying one cross-reference tag.
pub open spec fn tag_relations(rv: Seq<FieldV>, tag: Seq<char>, base: Seq<char>) -> Seq<
    RelationV,
> {
    rec_fields(rv, tag).filter_map(|f: FieldV| field_relation(f)).map_values(
        |r: RelationV| prefixed(base, r),
    )
}

/// The relations of a record: the fixed cross-reference tags are scanned in
/// a fixed order, field occurrences missing the reference or the role
/// subfield contribute nothing, and duplicates are kept.
pub open spec fn relations_spec(rv: Seq<FieldV>, base: Seq<char>) -> Seq<RelationV> {
    tag_relations(rv, "022R"@, base) + tag_relations(rv, "028R"@, base) + tag_relations(
        rv,
        "029R"@,
        base,
    ) + tag_relations(rv, "030R"@, base) + tag_relations(rv, "041R"@, base) + tag_relations(
        rv,
        "065R"@,
        base,
    )
}

/// Appends the relations carried by the fields with one tag.
fn push_tag_relations(out: &mut Vec<Relation>, record: &Record, tag: &str, base: &str)
    ensures
        final(out)@.map_values(|r: Relation| r@) == old(out)@.map_values(|r: Relation| r@)
            + tag_relations(record@, tag@, base@),
{
    let fields = record.all(tag);
    let n = fields.len();
    let ghost fv = fields@.map_values(|f: &Field| f@);
    let ghost fr = |f: FieldV| field_relation(f);
    let ghost pf = |r: RelationV| prefixed(base@, r);
    let ghost rmap = |r: Relation| r@;
    proof {
        assert(fv.take(0int) =~= Seq::empty());
        assert(fv.take(0int).filter_map(fr).map_values(pf) =~= Seq::empty());
        assert(out@.map_values(rmap) + Seq::<RelationV>::empty() =~= out@.map_values(rmap));
    }
    for i in 0..n
        invariant
            n == fields.len(),
            fv == fields@.map_values(|f: &Field| f@),
            fv == rec_fields(record@, tag@),
            fr == |f: FieldV| field_relation(f),
            pf == |r: RelationV| prefixed(base@, r),
            rmap == |r: Relation| r@,
            out@.map_values(rmap) == old(out)@.map_values(rmap) + fv.take(i as int).filter_map(
                fr,
            ).map_values(pf),
    {
        let rel = Relation::from_field(fields[i]);
        proof {
            fv.lemma_filter_map_take_succ(fr, i as int);
            assert(fields@[i as int]@ == fv[i as int]);
        }
        match rel {
            Some(rel) => {
                let mut uri = base.to_owned();
                uri.append(rel.uri.as_str());
                let ghost old_out = out@;
                out.push(Relation { uri, kind: rel.kind });
                proof {
                    old_out.lemma_push_map_commute(rmap, out@[old_out.len() as int]);
                    let prev = fv.take(i as int).filter_map(fr);
                    prev.lemma_push_map_commute(pf, rel@);
                    assert(prev + seq![rel@] =~= prev.push(rel@));
                    assert(out@.map_values(rmap) =~= old(out)@.map_values(rmap) + fv.take(
                        i as int + 1,
                    ).filter_map(fr).map_values(pf));
                }
            },
            None => {
                proof {
                    assert(out@.map_values(rmap) =~= old(out)@.map_values(rmap) + fv.take(
                        i as int + 1,
                    ).filter_map(fr).map_values(pf));
                }
            },
        }
    }
    proof {
        assert(fv.take(n as int) =~= fv);
    }
}

/// The label set a record of the given kind yields under the configured
/// policy.
pub open spec fn labels_for_kind(
    kind: ConceptKind,
    rv: Seq<FieldV>,
    form: Option<crate::config::TranslitChoice>,
    min_length: usize,
    filter: Option<Seq<char>>,
    no_initials: bool,
) -> Set<SynonymV> {
    match kind {
        ConceptKind::Person => crate::person::person_label_set(
            rv,
            form,
            min_length,
            filter,
            no_initials,
        ),
        ConceptKind::CorporateBody => crate::corporate_body::corporate_label_set(
            rv,
            form,
            min_length,
            filter,
        ),
        ConceptKind::Conference => crate::conference::conference_label_set(
            rv,
            form,
            min_length,
            filter,
        ),
        ConceptKind::Place => crate::place::place_label_set(rv, form, min_length, filter),
        ConceptKind::SubjectTerm => crate::subject_term::subject_label_set(
            rv,
            form,
            min_length,
            filter,
        ),
        ConceptKind::Work => crate::work::work_label_set(rv, form, min_length, filter),
    }
}

impl Concept {
    /// Assembles the concept a record yields: the type code selects the
    /// kind-specific extractor, the identifier comes from the record key, the
    /// relations from the cross-reference tags, and the label set from the
    /// kind's rules. A missing or unrecognized type code, a missing record
    /// key, a missing primary field, and an unusable exclusion pattern are
    /// each a per-record error.
    pub fn from_record(record: &Record, config: &Config) -> (r: Result<Concept, Error>)
        ensures
            match r {
                Ok(c) => {
                    &&& known_kind(record@) == Some(c.kind)
                    &&& concept_uri(record@, config.concept.base_uri@) == Some(c.uri@)
                    &&& rec_first_field(record@, primary_tag(c.kind)) is Some
                    &&& !invalid_filter(config)
                    &&& c.relations@.map_values(|rel: Relation| rel@) == relations_spec(
                        record@,
                        config.concept.base_uri@,
                    )
                    &&& c.synset@ == labels_for_kind(
                        c.kind,
                        record@,
                        config.concept.form(),
                        config.concept.min_len(),
                        config.concept.filter_pat(),
                        config.concept.no_initials(),
                    )
                    &&& c.wf()
                },
                Err(e) => {
                    &&& (type_code(record@) is None ==> (e matches Error::Concept(m) && m@
                        == "missing type code"@))
                    &&& (type_code(record@) is Some && known_kind(record@) is None ==> (
                    e matches Error::Concept(m) && m@ == "unknown concept kind '"@ + seq![
                        type_code(record@).unwrap(),
                    ] + "'"@))
                    &&& (known_kind(record@) is Some ==> (concept_uri(
                        record@,
                        config.concept.base_uri@,
                    ) is None || rec_first_field(
                        record@,
                        primary_tag(known_kind(record@).unwrap()),
                    ) is None || invalid_filter(config)))
                    &&& (known_kind(record@) is Some && concept_uri(
                        record@,
                        config.concept.base_uri@,
                    ) is None ==> (e matches Error::Concept(m) && m@
                        == "could not find valid idn"@))
                    &&& (known_kind(record@) is Some && concept_uri(
                        record@,
                        config.concept.base_uri@,
                    ) is Some && rec_first_field(
                        record@,
                        primary_tag(known_kind(record@).unwrap()),
                    ) is None ==> (e matches Error::Concept(m) && m@
                        == "missing primary name field"@))
                    &&& (known_kind(record@) is Some && concept_uri(
                        record@,
                        config.concept.base_uri@,
                    ) is Some && rec_first_field(
                        record@,
                        primary_tag(known_kind(record@).unwrap()),
                    ) is Some ==> (e matches Error::Config(m) && m@
                        == "invalid synonym filter"@))
                },
            },
    {
        let bbg = match record.first_path_value("002@", '0') {
            Some(v) => v,
            None => { return Err(Error::Concept("missing type code".to_owned())) },
        };
        if bbg.as_str().unicode_len() < 2 {
            return Err(Error::Concept("missing type code".to_owned()));
        }
        let code = bbg.as_str().get_char(1);
        if code == 'p' {
            crate::person::from_record(record, config)
        } else if code == 'b' {
            crate::corporate_body::from_record(record, config)
        } else if code == 'f' {
            crate::conference::from_record(record, config)
        } else if code == 'g' {
            crate::place::from_record(record, config)
        } else if code == 's' {
            crate::subject_term::from_record(record, config)
        } else if code == 'u' {
            crate::work::from_record(record, config)
        } else {
            let mut m = "unknown concept kind '".to_owned();
            crate::text::push_char(&mut m, code);
            m.append("'");
            proof {
                assert(m@ =~= "unknown concept kind '"@ + seq![code] + "'"@);
            }
            Err(Error::Concept(m))
        }
    }
}

/// Extracts the record's relations with the configured base locator
/// prepended to each target.
pub fn extract_relations(record: &Record, config: &Config) -> (r: Vec<Relation>)
    ensures
        r@.map_values(|rel: Relation| rel@) == relations_spec(
            record@,
            config.concept.base_uri@,
        ),
{
    let mut out: Vec<Relation> = Vec::new();
    let base = config.concept.base_uri.as_str();
    proof {
        assert(out@.map_values(|r: Relation| r@) =~= Seq::<RelationV>::empty());
    }
    push_tag_relations(&mut out, record, "022R", base);
    push_tag_relations(&mut out, record, "028R", base);
    push_tag_relations(&mut out, record, "029R", base);
    push_tag_relations(&mut out, record, "030R", base);
    push_tag_relations(&mut out, record, "041R", base);
    push_tag_relations(&mut out, record, "065R", base);
    proof {
        assert(out@.map_values(|r: Relation| r@) =~= relations_spec(
            record@,
            config.concept.base_uri@,
        ));
    }
    out
}

} // verus!
