use vstd::prelude::*;

use crate::concept::{
    build_uri, compile_filter, concept_uri, extract_relations, invalid_filter, relations_spec,
    Concept, ConceptKind,
};
use crate::config::{Config, TranslitChoice};
use crate::error::Error;
use crate::norm::form_view;
use crate::pattern::{pattern_view, TextPattern};
use crate::record::{rec_fields, rec_first_field, Field, FieldV, Record, SubfieldV};
use crate::relation::Relation;
use crate::synset::{
    built_label, opt_label_view, opt_to_set, set_union_over, SynKind, Synonym, SynonymV,
};
use crate::text::{strip_at, strip_at_exec};

verus! {

/// Whether a code contributes to the pending number/date parenthetical
/// instead of flushing it.
pub open spec fn conf_pending_code(code: char) -> bool {
    code == 'n' || code == 'd' || code == 'c'
}

/// One step of the conference accumulation. The state is the label text
/// built so far and the pending parenthetical content: every code outside
/// the parenthetical group first flushes a pending parenthetical; the name,
/// units and locations then extend the text as the code directs, a location
/// standing in a parenthetical of its own.
pub open spec fn conf_step(state: (Seq<char>, Seq<char>), sf: SubfieldV) -> (Seq<char>, Seq<
    char,
>) {
    let flushed: (Seq<char>, Seq<char>) = if !conf_pending_code(sf.code) && state.1.len() > 0 {
        (state.0 + " ("@ + state.1 + ")"@, Seq::empty())
    } else {
        state
    };
    let buf = flushed.0;
    let parens = flushed.1;
    if sf.code == 'a' {
        (buf + strip_at(sf.value), parens)
    } else if sf.code == 'x' || sf.code == 'b' {
        (buf + " / "@ + sf.value, parens)
    } else if sf.code == 'g' {
        (buf + " ("@ + sf.value + ")"@, parens)
    } else if sf.code == 'n' || sf.code == 'd' || sf.code == 'c' {
        if parens.len() == 0 {
            (buf, sf.value)
        } else {
            (buf, parens + ", "@ + sf.value)
        }
    } else {
        (buf, parens)
    }
}

/// The accumulation state after walking the subfields in source order.
pub open spec fn conf_fold(sfs: Seq<SubfieldV>) -> (Seq<char>, Seq<char>)
    decreases sfs.len(),
{
    if sfs.len() == 0 {
        (Seq::empty(), Seq::empty())
    } else {
        conf_step(conf_fold(sfs.drop_last()), sfs.last())
    }
}

/// The label text a conference field yields: the folded text, with a still
/// pending parenthetical flushed at the end.
pub open spec fn conference_text(sfs: Seq<SubfieldV>) -> Seq<char> {
    let state = conf_fold(sfs);
    if state.1.len() > 0 {
        state.0 + " ("@ + state.1 + ")"@
    } else {
        state.0
    }
}

/// Builds the label one conference field yields under the given policy.
pub fn get_synonym(
    field: &Field,
    kind: SynKind,
    translit: Option<&TranslitChoice>,
    min_length: usize,
    synonym_filter: Option<&TextPattern>,
) -> (r: Option<Synonym>)
    ensures
        opt_label_view(r) == built_label(
            conference_text(field@.subfields),
            kind,
            form_view(translit),
            min_length,
            pattern_view(synonym_filter),
        ),
{
    let mut synonym = Synonym::builder(kind).translit(translit).min_length(min_length).filter(
        synonym_filter,
    );
    let mut parens = String::new();
    let n = field.subfields.len();
    proof {
        assert(field@.subfields.take(0int) =~= Seq::empty());
    }
    for i in 0..n
        invariant
            n == field.subfields.len(),
            synonym.buffer@ == conf_fold(field@.subfields.take(i as int)).0,
            parens@ == conf_fold(field@.subfields.take(i as int)).1,
            synonym.kind == kind,
            synonym.translit == form_view(translit),
            synonym.min_length == min_length,
            pattern_view(synonym.filter) == pattern_view(synonym_filter),
    {
        proof {
            assert(field@.subfields.take(i as int + 1).drop_last() =~= field@.subfields.take(
                i as int,
            ));
            assert(field@.subfields.take(i as int + 1).last() == field@.subfields[i as int]);
            assert(field@.subfields[i as int] == field.subfields@[i as int]@);
        }
        let sf = &field.subfields[i];
        let code = sf.code;
        if !(code == 'n' || code == 'd' || code == 'c') && !parens.as_str().is_empty() {
            synonym = synonym.push_str(" (").push_str(parens.as_str()).push_str(")");
            parens = String::new();
        }
        if code == 'a' {
            let stripped = strip_at_exec(sf.value.as_str());
            synonym = synonym.push_str(stripped.as_str());
        } else if code == 'x' || code == 'b' {
            synonym = synonym.push_str(" / ").push(Some(&sf.value));
        } else if code == 'g' {
            synonym = synonym.push_str(" (").push(Some(&sf.value)).push_str(")");
        } else if code == 'n' || code == 'd' || code == 'c' {
            if !parens.as_str().is_empty() {
                parens.append(", ");
            }
            parens.append(sf.value.as_str());
        }
        proof {
            assert(synonym.buffer@ =~= conf_fold(field@.subfields.take(i as int + 1)).0);
            assert(parens@ =~= conf_fold(field@.subfields.take(i as int + 1)).1);
        }
    }
    proof {
        assert(field@.subfields.take(n as int) =~= field@.subfields);
    }
    if !parens.as_str().is_empty() {
        synonym = synonym.push_str(" (").push_str(parens.as_str()).push_str(")");
    }
    proof {
        assert(synonym.buffer@ =~= conference_text(field@.subfields));
    }
    synonym.build()
}

/// The labels the tradition fields of a conference record contribute.
pub open spec fn conference_alt_set(
    rv: Seq<FieldV>,
    form: Option<TranslitChoice>,
    min_length: usize,
    filter: Option<Seq<char>>,
) -> Set<SynonymV> {
    set_union_over(
        rec_fields(rv, "030@"@),
        |f: FieldV| opt_to_set(
            built_label(conference_text(f.subfields), SynKind::Alternative, form, min_length, filter),
        ),
    )
}

/// The whole label set a conference record yields: the preferred label from
/// the first name field and one alternative label per tradition field,
/// duplicates collapsed.
pub open spec fn conference_label_set(
    rv: Seq<FieldV>,
    form: Option<TranslitChoice>,
    min_length: usize,
    filter: Option<Seq<char>>,
) -> Set<SynonymV> {
    (match rec_first_field(rv, "030A"@) {
        Some(f) => opt_to_set(
            built_label(conference_text(f.subfields), SynKind::Preferred, form, min_length, filter),
        ),
        None => Set::empty(),
    }).union(conference_alt_set(rv, form, min_length, filter))
}

/// Every label a conference record yields is at least the length floor long,
/// in bytes, and never matches the exclusion pattern.
pub proof fn lemma_conference_labels_respect_policy(
    rv: Seq<FieldV>,
    form: Option<TranslitChoice>,
    min_length: usize,
    filter: Option<Seq<char>>,
    sy: SynonymV,
)
    requires
        conference_label_set(rv, form, min_length, filter).contains(sy),
    ensures
        crate::synset::byte_len(sy.label) >= min_length,
        filter matches Some(p) ==> !crate::pattern::regex_matches(p, sy.label),
{
    if conference_alt_set(rv, form, min_length, filter).contains(sy) {
        let fs = rec_fields(rv, "030@"@);
        let lf = |f: FieldV| opt_to_set(
            built_label(conference_text(f.subfields), SynKind::Alternative, form, min_length, filter),
        );
        crate::synset::lemma_set_union_over_elem(fs, lf, sy);
        let i = choose|i: int| 0 <= i < fs.len() && #[trigger] lf(fs[i]).contains(sy);
        assert(built_label(conference_text(fs[i].subfields), SynKind::Alternative, form, min_length, filter)
            == Some(sy));
    }
}

/// Assembles the concept a conference record yields.
pub fn from_record(record: &Record, config: &Config) -> (r: Result<Concept, Error>)
    ensures
        match r {
            Ok(c) => {
                &&& concept_uri(record@, config.concept.base_uri@) == Some(c.uri@)
                &&& rec_first_field(record@, "030A"@) is Some
                &&& !invalid_filter(config)
                &&& c.kind == ConceptKind::Conference
                &&& c.relations@.map_values(|rel: Relation| rel@) == relations_spec(
                    record@,
                    config.concept.base_uri@,
                )
                &&& c.synset@ == conference_label_set(
                    record@,
                    config.concept.form(),
                    config.concept.min_len(),
                    config.concept.filter_pat(),
                )
                &&& c.wf()
            },
            Err(e) => {
                &&& (concept_uri(record@, config.concept.base_uri@) is None || rec_first_field(
                    record@,
                    "030A"@,
                ) is None || invalid_filter(config))
                &&& (concept_uri(record@, config.concept.base_uri@) is None ==> (
                e matches Error::Concept(m) && m@ == "could not find valid idn"@))
                &&& (concept_uri(record@, config.concept.base_uri@) is Some && rec_first_field(
                    record@,
                    "030A"@,
                ) is None ==> (e matches Error::Concept(m) && m@ == "missing primary name field"@))
                &&& (concept_uri(record@, config.concept.base_uri@) is Some && rec_first_field(
                    record@,
                    "030A"@,
                ) is Some ==> (e matches Error::Config(m) && m@ == "invalid synonym filter"@))
            },
        },
{
    let uri = match build_uri(record, config) {
        Ok(u) => u,
        Err(e) => { return Err(e) },
    };
    let primary = match record.first("030A") {
        Some(f) => f,
        None => { return Err(Error::Concept("missing primary name field".to_owned())) },
    };
    let filter = match compile_filter(config) {
        Ok(f) => f,
        Err(e) => { return Err(e) },
    };
    let filter_ref = filter.as_ref();
    let min_length = match config.concept.min_synonym_length {
        Some(n) => n,
        None => 0,
    };
    let translit = config.concept.translit.as_ref();
    let relations = extract_relations(record, config);
    let mut concept = Concept::new(uri, relations, ConceptKind::Conference);

    let ghost form = config.concept.form();
    let ghost pat = config.concept.filter_pat();
    let ghost pref_set = match rec_first_field(record@, "030A"@) {
        Some(f) => opt_to_set(
            built_label(conference_text(f.subfields), SynKind::Preferred, form, min_length, pat),
        ),
        None => Set::<SynonymV>::empty(),
    };

    if let Some(synonym) = get_synonym(primary, SynKind::Preferred, translit, min_length, filter_ref) {
        concept.add_synonym(synonym);
    }
    proof {
        assert(concept.synset@ =~= pref_set);
    }

    let fields = record.all("030@");
    let n = fields.len();
    let ghost fv = fields@.map_values(|f: &Field| f@);
    let ghost alt_f = |f: FieldV| opt_to_set(
        built_label(conference_text(f.subfields), SynKind::Alternative, form, min_length, pat),
    );
    proof {
        assert(set_union_over(fv.take(0int), alt_f) =~= Set::<SynonymV>::empty());
        assert(concept.synset@ =~= pref_set.union(set_union_over(fv.take(0int), alt_f)));
    }
    for i in 0..n
        invariant
            n == fields.len(),
            fv == fields@.map_values(|f: &Field| f@),
            fv == rec_fields(record@, "030@"@),
            alt_f == |f: FieldV| opt_to_set(
                built_label(conference_text(f.subfields), SynKind::Alternative, form, min_length, pat),
            ),
            concept.synset@ == pref_set.union(set_union_over(fv.take(i as int), alt_f)),
            concept.wf(),
            concept.uri@ == uri@,
            concept.kind == ConceptKind::Conference,
            concept.relations@.map_values(|rel: Relation| rel@) == relations_spec(
                record@,
                config.concept.base_uri@,
            ),
            pattern_view(filter_ref) == pat,
            form_view(translit) == form,
    {
        proof {
            assert(fv.take(i as int + 1).drop_last() =~= fv.take(i as int));
            assert(fv.take(i as int + 1).last() == fv[i as int]);
            assert(fields@[i as int]@ == fv[i as int]);
        }
        if let Some(synonym) = get_synonym(fields[i], SynKind::Alternative, translit, min_length, filter_ref) {
            concept.add_synonym(synonym);
        }
        proof {
            assert(concept.synset@ =~= pref_set.union(set_union_over(fv.take(i as int + 1), alt_f)));
        }
    }
    proof {
        assert(fv.take(n as int) =~= fv);
        assert(concept.synset@ =~= conference_label_set(
            record@,
            config.concept.form(),
            config.concept.min_len(),
            config.concept.filter_pat(),
        ));
    }
    Ok(concept)
}

} // verus!
