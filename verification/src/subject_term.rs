use vstd::prelude::*;

use crate::concept::{
    build_uri, compile_filter, concept_uri, extract_relations, invalid_filter, relations_spec,
    Concept, ConceptKind,
};
use crate::config::{Config, TranslitChoice};
use crate::error::Error;
use crate::norm::form_view;
use crate::pattern::{pattern_view, TextPattern};
use crate::record::{
    lemma_sf_first_contains, rec_fields, rec_first_field, sf_all, sf_contains, sf_first, Field,
    FieldV, Record, SubfieldV,
};
use crate::relation::Relation;
use crate::synset::{
    built_label, opt_label_view, opt_to_set, set_union_over, SynKind, Synonym, SynonymV,
};
use crate::text::{join_exec, join_texts};

verus! {

/// The label text a subject-term field yields: nothing without the term
/// subfield; otherwise the term, one parenthetical joining every qualifier,
/// and one facet suffix joining every facet.
pub open spec fn subject_text(sfs: Seq<SubfieldV>) -> Seq<char> {
    if sf_contains(sfs, 'a') {
        let base = sf_first(sfs, 'a').unwrap();
        let gs = sf_all(sfs, 'g');
        let xs = sf_all(sfs, 'x');
        (base + (if gs.len() > 0 {
            " ("@ + join_texts(gs, ", "@) + ")"@
        } else {
            Seq::empty()
        })) + (if xs.len() > 0 {
            " / "@ + join_texts(xs, " / "@)
        } else {
            Seq::empty()
        })
    } else {
        Seq::empty()
    }
}

/// Builds the label one subject-term field yields under the given policy.
pub fn get_synonym(
    field: &Field,
    kind: SynKind,
    translit: Option<&TranslitChoice>,
    min_length: usize,
    synonym_filter: Option<&TextPattern>,
) -> (r: Option<Synonym>)
    ensures
        opt_label_view(r) == built_label(
            subject_text(field@.subfields),
            kind,
            form_view(translit),
            min_length,
            pattern_view(synonym_filter),
        ),
{
    let mut synonym = Synonym::builder(kind).translit(translit).min_length(min_length).filter(
        synonym_filter,
    );
    if field.contains_code('a') {
        proof {
            lemma_sf_first_contains(field@.subfields, 'a');
        }
        synonym = synonym.push(field.first('a'));
        let gs = field.all('g');
        if gs.len() > 0 {
            let joined = join_exec(&gs, ", ");
            synonym = synonym.push_str(" (").push_str(joined.as_str()).push_str(")");
        }
        let xs = field.all('x');
        if xs.len() > 0 {
            let joined = join_exec(&xs, " / ");
            synonym = synonym.push_str(" / ").push_str(joined.as_str());
        }
        proof {
            assert(synonym.buffer@ =~= subject_text(field@.subfields));
        }
    } else {
        proof {
            assert(synonym.buffer@ =~= subject_text(field@.subfields));
        }
    }
    synonym.build()
}

/// The labels the tradition fields of a subject-term record contribute.
pub open spec fn subject_alt_set(
    rv: Seq<FieldV>,
    form: Option<TranslitChoice>,
    min_length: usize,
    filter: Option<Seq<char>>,
) -> Set<SynonymV> {
    set_union_over(
        rec_fields(rv, "041@"@),
        |f: FieldV| opt_to_set(
            built_label(subject_text(f.subfields), SynKind::Alternative, form, min_length, filter),
        ),
    )
}

/// The whole label set a subject-term record yields: the preferred label
/// from the first term field and one alternative label per tradition field,
/// duplicates collapsed. A term field without the term subfield yields no
/// label at all.
pub open spec fn subject_label_set(
    rv: Seq<FieldV>,
    form: Option<TranslitChoice>,
    min_length: usize,
    filter: Option<Seq<char>>,
) -> Set<SynonymV> {
    (match rec_first_field(rv, "041A"@) {
        Some(f) => opt_to_set(
            built_label(subject_text(f.subfields), SynKind::Preferred, form, min_length, filter),
        ),
        None => Set::empty(),
    }).union(subject_alt_set(rv, form, min_length, filter))
}

/// Tradition fields without the term subfield contribute nothing.
proof fn lemma_subject_alt_set_empty(
    fs: Seq<FieldV>,
    form: Option<TranslitChoice>,
    min_length: usize,
    filter: Option<Seq<char>>,
)
    requires
        forall|i: int| 0 <= i < fs.len() ==> !sf_contains(#[trigger] fs[i].subfields, 'a'),
    ensures
        set_union_over(
            fs,
            |f: FieldV| opt_to_set(
                built_label(subject_text(f.subfields), SynKind::Alternative, form, min_length, filter),
            ),
        ) =~= Set::<SynonymV>::empty(),
    decreases fs.len(),
{
    if fs.len() > 0 {
        assert(forall|i: int|
            0 <= i < fs.drop_last().len() ==> !sf_contains(
                #[trigger] fs.drop_last()[i].subfields,
                'a',
            ));
        lemma_subject_alt_set_empty(fs.drop_last(), form, min_length, filter);
        assert(!sf_contains(fs[fs.len() - 1].subfields, 'a'));
        assert(subject_text(fs.last().subfields) == Seq::<char>::empty());
    }
}

/// A subject-term record whose term fields all lack the term subfield yields
/// no labels at all: the label set is empty, which is a normal data
/// condition, not an error.
pub proof fn lemma_subject_term_without_term_yields_no_labels(
    rv: Seq<FieldV>,
    form: Option<TranslitChoice>,
    min_length: usize,
    filter: Option<Seq<char>>,
)
    requires
        rec_first_field(rv, "041A"@) matches Some(f) ==> !sf_contains(f.subfields, 'a'),
        forall|i: int|
            0 <= i < rec_fields(rv, "041@"@).len() ==> !sf_contains(
                #[trigger] rec_fields(rv, "041@"@)[i].subfields,
                'a',
            ),
    ensures
        subject_label_set(rv, form, min_length, filter) =~= Set::<SynonymV>::empty(),
{
    lemma_subject_alt_set_empty(rec_fields(rv, "041@"@), form, min_length, filter);
    if rec_first_field(rv, "041A"@) is Some {
        let f = rec_first_field(rv, "041A"@).unwrap();
        assert(subject_text(f.subfields) == Seq::<char>::empty());
    }
}

/// Every label a subject-term record yields is at least the length floor
/// long, in bytes, and never matches the exclusion pattern.
pub proof fn lemma_subject_labels_respect_policy(
    rv: Seq<FieldV>,
    form: Option<TranslitChoice>,
    min_length: usize,
    filter: Option<Seq<char>>,
    sy: SynonymV,
)
    requires
        subject_label_set(rv, form, min_length, filter).contains(sy),
    ensures
        crate::synset::byte_len(sy.label) >= min_length,
        filter matches Some(p) ==> !crate::pattern::regex_matches(p, sy.label),
{
    if subject_alt_set(rv, form, min_length, filter).contains(sy) {
        let fs = rec_fields(rv, "041@"@);
        let lf = |f: FieldV| opt_to_set(
            built_label(subject_text(f.subfields), SynKind::Alternative, form, min_length, filter),
        );
        crate::synset::lemma_set_union_over_elem(fs, lf, sy);
        let i = choose|i: int| 0 <= i < fs.len() && #[trigger] lf(fs[i]).contains(sy);
        assert(built_label(subject_text(fs[i].subfields), SynKind::Alternative, form, min_length, filter)
            == Some(sy));
    }
}

/// Assembles the concept a subject-term record yields.
pub fn from_record(record: &Record, config: &Config) -> (r: Result<Concept, Error>)
    ensures
        match r {
            Ok(c) => {
                &&& concept_uri(record@, config.concept.base_uri@) == Some(c.uri@)
                &&& rec_first_field(record@, "041A"@) is Some
                &&& !invalid_filter(config)
                &&& c.kind == ConceptKind::SubjectTerm
                &&& c.relations@.map_values(|rel: Relation| rel@) == relations_spec(
                    record@,
                    config.concept.base_uri@,
                )
                &&& c.synset@ == subject_label_set(
                    record@,
                    config.concept.form(),
                    config.concept.min_len(),
                    config.concept.filter_pat(),
                )
                &&& c.wf()
            },
            Err(e) => {
                &&& (concept_uri(record@, config.concept.base_uri@) is None || rec_first_field(
                    record@,
                    "041A"@,
                ) is None || invalid_filter(config))
                &&& (concept_uri(record@, config.concept.base_uri@) is None ==> (
                e matches Error::Concept(m) && m@ == "could not find valid idn"@))
                &&& (concept_uri(record@, config.concept.base_uri@) is Some && rec_first_field(
                    record@,
                    "041A"@,
                ) is None ==> (e matches Error::Concept(m) && m@ == "missing primary name field"@))
                &&& (concept_uri(record@, config.concept.base_uri@) is Some && rec_first_field(
                    record@,
                    "041A"@,
                ) is Some ==> (e matches Error::Config(m) && m@ == "invalid synonym filter"@))
            },
        },
{
    let uri = match build_uri(record, config) {
        Ok(u) => u,
        Err(e) => { return Err(e) },
    };
    let primary = match record.first("041A") {
        Some(f) => f,
        None => { return Err(Error::Concept("missing primary name field".to_owned())) },
    };
    let filter = match compile_filter(config) {
        Ok(f) => f,
        Err(e) => { return Err(e) },
    };
    let filter_ref = filter.as_ref();
    let min_length = match config.concept.min_synonym_length {
        Some(n) => n,
        None => 0,
    };
    let translit = config.concept.translit.as_ref();
    let relations = extract_relations(record, config);
    let mut concept = Concept::new(uri, relations, ConceptKind::SubjectTerm);

    let ghost form = config.concept.form();
    let ghost pat = config.concept.filter_pat();
    let ghost pref_set = match rec_first_field(record@, "041A"@) {
        Some(f) => opt_to_set(
            built_label(subject_text(f.subfields), SynKind::Preferred, form, min_length, pat),
        ),
        None => Set::<SynonymV>::empty(),
    };

    if let Some(synonym) = get_synonym(primary, SynKind::Preferred, translit, min_length, filter_ref) {
        concept.add_synonym(synonym);
    }
    proof {
        assert(concept.synset@ =~= pref_set);
    }

    let fields = record.all("041@");
    let n = fields.len();
    let ghost fv = fields@.map_values(|f: &Field| f@);
    let ghost alt_f = |f: FieldV| opt_to_set(
        built_label(subject_text(f.subfields), SynKind::Alternative, form, min_length, pat),
    );
    proof {
        assert(set_union_over(fv.take(0int), alt_f) =~= Set::<SynonymV>::empty());
        assert(concept.synset@ =~= pref_set.union(set_union_over(fv.take(0int), alt_f)));
    }
    for i in 0..n
        invariant
            n == fields.len(),
            fv == fields@.map_values(|f: &Field| f@),
            fv == rec_fields(record@, "041@"@),
            alt_f == |f: FieldV| opt_to_set(
                built_label(subject_text(f.subfields), SynKind::Alternative, form, min_length, pat),
            ),
            concept.synset@ == pref_set.union(set_union_over(fv.take(i as int), alt_f)),
            concept.wf(),
            concept.uri@ == uri@,
            concept.kind == ConceptKind::SubjectTerm,
            concept.relations@.map_values(|rel: Relation| rel@) == relations_spec(
                record@,
                config.concept.base_uri@,
            ),
            pattern_view(filter_ref) == pat,
            form_view(translit) == form,
    {
        proof {
            assert(fv.take(i as int + 1).drop_last() =~= fv.take(i as int));
            assert(fv.take(i as int + 1).last() == fv[i as int]);
            assert(fields@[i as int]@ == fv[i as int]);
        }
        if let Some(synonym) = get_synonym(fields[i], SynKind::Alternative, translit, min_length, filter_ref) {
            concept.add_synonym(synonym);
        }
        proof {
            assert(concept.synset@ =~= pref_set.union(set_union_over(fv.take(i as int + 1), alt_f)));
        }
    }
    proof {
        assert(fv.take(n as int) =~= fv);
        assert(concept.synset@ =~= subject_label_set(
            record@,
            config.concept.form(),
            config.concept.min_len(),
            config.concept.filter_pat(),
        ));
    }
    Ok(concept)
}

} // verus!
