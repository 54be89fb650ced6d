use vstd::prelude::*;

use crate::concept::{
    build_uri, compile_filter, concept_uri, extract_relations, invalid_filter, relations_spec,
    Concept, ConceptKind,
};
use crate::config::{Config, TranslitChoice};
use crate::error::Error;
use crate::norm::form_view;
use crate::pattern::{pattern_view, TextPattern};
use crate::record::{rec_fields, rec_first_field, Field, FieldV, Record, SubfieldV};
use crate::relation::Relation;
use crate::synset::{
    built_label, opt_label_view, opt_to_set, set_union_over, SynKind, Synonym, SynonymV,
};
use crate::text::{strip_at, strip_at_exec};

verus! {

/// The fragment one subfield contributes to a corporate-body label: the name
/// with at signs stripped, a parenthesized qualifier, a subordinate unit, or
/// a numbering.
pub open spec fn corporate_piece(sf: SubfieldV) -> Seq<char> {
    if sf.code == 'a' {
        strip_at(sf.value)
    } else if sf.code == 'g' {
        " ("@ + sf.value + ")"@
    } else if sf.code == 'x' || sf.code == 'b' {
        " / "@ + sf.value
    } else if sf.code == 'n' {
        ", "@ + sf.value
    } else {
        Seq::empty()
    }
}

/// The label text a corporate-body field yields: its subfields' fragments in
/// source order.
pub open spec fn corporate_text(sfs: Seq<SubfieldV>) -> Seq<char>
    decreases sfs.len(),
{
    if sfs.len() == 0 {
        Seq::empty()
    } else {
        corporate_text(sfs.drop_last()) + corporate_piece(sfs.last())
    }
}

/// Builds the label one corporate-body field yields under the given policy.
pub fn get_synonym(
    field: &Field,
    kind: SynKind,
    translit: Option<&TranslitChoice>,
    min_length: usize,
    synonym_filter: Option<&TextPattern>,
) -> (r: Option<Synonym>)
    ensures
        opt_label_view(r) == built_label(
            corporate_text(field@.subfields),
            kind,
            form_view(translit),
            min_length,
            pattern_view(synonym_filter),
        ),
{
    let mut synonym = Synonym::builder(kind).translit(translit).min_length(min_length).filter(
        synonym_filter,
    );
    let n = field.subfields.len();
    proof {
        assert(field@.subfields.take(0int) =~= Seq::empty());
    }
    for i in 0..n
        invariant
            n == field.subfields.len(),
            synonym.buffer@ == corporate_text(field@.subfields.take(i as int)),
            synonym.kind == kind,
            synonym.translit == form_view(translit),
            synonym.min_length == min_length,
            pattern_view(synonym.filter) == pattern_view(synonym_filter),
    {
        proof {
            assert(field@.subfields.take(i as int + 1).drop_last() =~= field@.subfields.take(
                i as int,
            ));
            assert(field@.subfields.take(i as int + 1).last() == field@.subfields[i as int]);
            assert(field@.subfields[i as int] == field.subfields@[i as int]@);
        }
        let sf = &field.subfields[i];
        if sf.code == 'a' {
            let stripped = strip_at_exec(sf.value.as_str());
            synonym = synonym.push_str(stripped.as_str());
        } else if sf.code == 'g' {
            synonym = synonym.push_str(" (").push(Some(&sf.value)).push_str(")");
        } else if sf.code == 'x' || sf.code == 'b' {
            synonym = synonym.push_str(" / ").push(Some(&sf.value));
        } else if sf.code == 'n' {
            synonym = synonym.push_str(", ").push(Some(&sf.value));
        }
        proof {
            assert(synonym.buffer@ =~= corporate_text(field@.subfields.take(i as int + 1)));
        }
    }
    proof {
        assert(field@.subfields.take(n as int) =~= field@.subfields);
    }
    synonym.build()
}

/// The labels the tradition fields of a corporate-body record contribute.
pub open spec fn corporate_alt_set(
    rv: Seq<FieldV>,
    form: Option<TranslitChoice>,
    min_length: usize,
    filter: Option<Seq<char>>,
) -> Set<SynonymV> {
    set_union_over(
        rec_fields(rv, "029@"@),
        |f: FieldV| opt_to_set(
            built_label(corporate_text(f.subfields), SynKind::Alternative, form, min_length, filter),
        ),
    )
}

/// The whole label set a corporate-body record yields: the preferred label
/// from the first name field and one alternative label per tradition field,
/// duplicates collapsed.
pub open spec fn corporate_label_set(
    rv: Seq<FieldV>,
    form: Option<TranslitChoice>,
    min_length: usize,
    filter: Option<Seq<char>>,
) -> Set<SynonymV> {
    (match rec_first_field(rv, "029A"@) {
        Some(f) => opt_to_set(
            built_label(corporate_text(f.subfields), SynKind::Preferred, form, min_length, filter),
        ),
        None => Set::empty(),
    }).union(corporate_alt_set(rv, form, min_length, filter))
}

/// Every label a corporate-body record yields is at least the length floor
/// long, in bytes, and never matches the exclusion pattern.
pub proof fn lemma_corporate_labels_respect_policy(
    rv: Seq<FieldV>,
    form: Option<TranslitChoice>,
    min_length: usize,
    filter: Option<Seq<char>>,
    sy: SynonymV,
)
    requires
        corporate_label_set(rv, form, min_length, filter).contains(sy),
    ensures
        crate::synset::byte_len(sy.label) >= min_length,
        filter matches Some(p) ==> !crate::pattern::regex_matches(p, sy.label),
{
    if corporate_alt_set(rv, form, min_length, filter).contains(sy) {
        let fs = rec_fields(rv, "029@"@);
        let lf = |f: FieldV| opt_to_set(
            built_label(corporate_text(f.subfields), SynKind::Alternative, form, min_length, filter),
        );
        crate::synset::lemma_set_union_over_elem(fs, lf, sy);
        let i = choose|i: int| 0 <= i < fs.len() && #[trigger] lf(fs[i]).contains(sy);
        assert(built_label(corporate_text(fs[i].subfields), SynKind::Alternative, form, min_length, filter)
            == Some(sy));
    }
}

/// Assembles the concept a corporate-body record yields.
pub fn from_record(record: &Record, config: &Config) -> (r: Result<Concept, Error>)
    ensures
        match r {
            Ok(c) => {
                &&& concept_uri(record@, config.concept.base_uri@) == Some(c.uri@)
                &&& rec_first_field(record@, "029A"@) is Some
                &&& !invalid_filter(config)
                &&& c.kind == ConceptKind::CorporateBody
                &&& c.relations@.map_values(|rel: Relation| rel@) == relations_spec(
                    record@,
                    config.concept.base_uri@,
                )
                &&& c.synset@ == corporate_label_set(
                    record@,
                    config.concept.form(),
                    config.concept.min_len(),
                    config.concept.filter_pat(),
                )
                &&& c.wf()
            },
            Err(e) => {
                &&& (concept_uri(record@, config.concept.base_uri@) is None || rec_first_field(
                    record@,
                    "029A"@,
                ) is None || invalid_filter(config))
                &&& (concept_uri(record@, config.concept.base_uri@) is None ==> (
                e matches Error::Concept(m) && m@ == "could not find valid idn"@))
                &&& (concept_uri(record@, config.concept.base_uri@) is Some && rec_first_field(
                    record@,
                    "029A"@,
                ) is None ==> (e matches Error::Concept(m) && m@ == "missing primary name field"@))
                &&& (concept_uri(record@, config.concept.base_uri@) is Some && rec_first_field(
                    record@,
                    "029A"@,
                ) is Some ==> (e matches Error::Config(m) && m@ == "invalid synonym filter"@))
            },
        },
{
    let uri = match build_uri(record, config) {
        Ok(u) => u,
        Err(e) => { return Err(e) },
    };
    let primary = match record.first("029A") {
        Some(f) => f,
        None => { return Err(Error::Concept("missing primary name field".to_owned())) },
    };
    let filter = match compile_filter(config) {
        Ok(f) => f,
        Err(e) => { return Err(e) },
    };
    let filter_ref = filter.as_ref();
    let min_length = match config.concept.min_synonym_length {
        Some(n) => n,
        None => 0,
    };
    let translit = config.concept.translit.as_ref();
    let relations = extract_relations(record, config);
    let mut concept = Concept::new(uri, relations, ConceptKind::CorporateBody);

    let ghost form = config.concept.form();
    let ghost pat = config.concept.filter_pat();
    let ghost pref_set = match rec_first_field(record@, "029A"@) {
        Some(f) => opt_to_set(
            built_label(corporate_text(f.subfields), SynKind::Preferred, form, min_length, pat),
        ),
        None => Set::<SynonymV>::empty(),
    };

    if let Some(synonym) = get_synonym(primary, SynKind::Preferred, translit, min_length, filter_ref) {
        concept.add_synonym(synonym);
    }
    proof {
        assert(concept.synset@ =~= pref_set);
    }

    let fields = record.all("029@");
    let n = fields.len();
    let ghost fv = fields@.map_values(|f: &Field| f@);
    let ghost alt_f = |f: FieldV| opt_to_set(
        built_label(corporate_text(f.subfields), SynKind::Alternative, form, min_length, pat),
    );
    proof {
        assert(set_union_over(fv.take(0int), alt_f) =~= Set::<SynonymV>::empty());
        assert(concept.synset@ =~= pref_set.union(set_union_over(fv.take(0int), alt_f)));
    }
    for i in 0..n
        invariant
            n == fields.len(),
            fv == fields@.map_values(|f: &Field| f@),
            fv == rec_fields(record@, "029@"@),
            alt_f == |f: FieldV| opt_to_set(
                built_label(corporate_text(f.subfields), SynKind::Alternative, form, min_length, pat),
            ),
            concept.synset@ == pref_set.union(set_union_over(fv.take(i as int), alt_f)),
            concept.wf(),
            concept.uri@ == uri@,
            concept.kind == ConceptKind::CorporateBody,
            concept.relations@.map_values(|rel: Relation| rel@) == relations_spec(
                record@,
                config.concept.base_uri@,
            ),
            pattern_view(filter_ref) == pat,
            form_view(translit) == form,
    {
        proof {
            assert(fv.take(i as int + 1).drop_last() =~= fv.take(i as int));
            assert(fv.take(i as int + 1).last() == fv[i as int]);
            assert(fields@[i as int]@ == fv[i as int]);
        }
        if let Some(synonym) = get_synonym(fields[i], SynKind::Alternative, translit, min_length, filter_ref) {
            concept.add_synonym(synonym);
        }
        proof {
            assert(concept.synset@ =~= pref_set.union(set_union_over(fv.take(i as int + 1), alt_f)));
        }
    }
    proof {
        assert(fv.take(n as int) =~= fv);
        assert(concept.synset@ =~= corporate_label_set(
            record@,
            config.concept.form(),
            config.concept.min_len(),
            config.concept.filter_pat(),
        ));
    }
    Ok(concept)
}

} // verus!
