use vstd::prelude::*;

use crate::concept::{
    build_uri, compile_filter, concept_uri, extract_relations, invalid_filter, relations_spec,
    Concept, ConceptKind,
};
use crate::config::{Config, TranslitChoice};
use crate::error::Error;
use crate::norm::form_view;
use crate::pattern::{pattern_view, TextPattern};
use crate::record::{
    rec_fields, rec_first_field, sf_has_pair, Field, FieldV, Record, SubfieldV,
};
use crate::relation::Relation;
use crate::synset::{
    built_label, opt_label_view, opt_to_set, set_union_over, SynKind, Synonym, SynonymV,
};
use crate::text::{str_eq, strip_at, strip_at_exec};

verus! {

/// The fragment one subfield contributes to a work label: the title with at
/// signs stripped, a parenthesized qualifier, a number, a medium, or a part.
pub open spec fn work_piece(sf: SubfieldV) -> Seq<char> {
    if sf.code == 'a' {
        strip_at(sf.value)
    } else if sf.code == 'g' {
        " ("@ + sf.value + ")"@
    } else if sf.code == 'n' {
        " "@ + sf.value
    } else if sf.code == 'h' || sf.code == 'f' {
        ", "@ + sf.value
    } else if sf.code == 'p' || sf.code == 's' || sf.code == 'x' {
        " / "@ + sf.value
    } else {
        Seq::empty()
    }
}

/// The label text a work title field yields: its subfields' fragments in
/// source order.
pub open spec fn work_text(sfs: Seq<SubfieldV>) -> Seq<char>
    decreases sfs.len(),
{
    if sfs.len() == 0 {
        Seq::empty()
    } else {
        work_text(sfs.drop_last()) + work_piece(sfs.last())
    }
}

/// Builds the label one work title field yields under the given policy.
pub fn get_synonym(
    field: &Field,
    kind: SynKind,
    translit: Option<&TranslitChoice>,
    min_length: usize,
    synonym_filter: Option<&TextPattern>,
) -> (r: Option<Synonym>)
    ensures
        opt_label_view(r) == built_label(
            work_text(field@.subfields),
            kind,
            form_view(translit),
            min_length,
            pattern_view(synonym_filter),
        ),
{
    let mut synonym = Synonym::builder(kind).translit(translit).min_length(min_length).filter(
        synonym_filter,
    );
    let n = field.subfields.len();
    proof {
        assert(field@.subfields.take(0int) =~= Seq::empty());
    }
    for i in 0..n
        invariant
            n == field.subfields.len(),
            synonym.buffer@ == work_text(field@.subfields.take(i as int)),
            synonym.kind == kind,
            synonym.translit == form_view(translit),
            synonym.min_length == min_length,
            pattern_view(synonym.filter) == pattern_view(synonym_filter),
    {
        proof {
            assert(field@.subfields.take(i as int + 1).drop_last() =~= field@.subfields.take(
                i as int,
            ));
            assert(field@.subfields.take(i as int + 1).last() == field@.subfields[i as int]);
            assert(field@.subfields[i as int] == field.subfields@[i as int]@);
        }
        let sf = &field.subfields[i];
        if sf.code == 'a' {
            let stripped = strip_at_exec(sf.value.as_str());
            synonym = synonym.push_str(stripped.as_str());
        } else if sf.code == 'g' {
            synonym = synonym.push_str(" (").push(Some(&sf.value)).push_str(")");
        } else if sf.code == 'n' {
            synonym = synonym.push_str(" ").push(Some(&sf.value));
        } else if sf.code == 'h' || sf.code == 'f' {
            synonym = synonym.push_str(", ").push(Some(&sf.value));
        } else if sf.code == 'p' || sf.code == 's' || sf.code == 'x' {
            synonym = synonym.push_str(" / ").push(Some(&sf.value));
        }
        proof {
            assert(synonym.buffer@ =~= work_text(field@.subfields.take(i as int + 1)));
        }
    }
    proof {
        assert(field@.subfields.take(n as int) =~= field@.subfields);
    }
    synonym.build()
}

/// Whether a related-entity field carries an author, composer or artist role
/// marker.
pub open spec fn role_marked(sfs: Seq<SubfieldV>) -> bool {
    sf_has_pair(sfs, '4', "aut1"@) || sf_has_pair(sfs, '4', "kom1"@) || sf_has_pair(
        sfs,
        '4',
        "kue1"@,
    )
}

/// The hidden label a related-entity field yields under its own kind's
/// rules, with no normalization, length floor or exclusion pattern.
pub open spec fn hidden_label_for_tag(tag: Seq<char>, sfs: Seq<SubfieldV>) -> Option<SynonymV> {
    if tag == "028R"@ {
        built_label(crate::person::person_text(sfs), SynKind::Hidden, None, 0, None)
    } else if tag == "065R"@ {
        built_label(crate::place::place_text(sfs), SynKind::Hidden, None, 0, None)
    } else if tag == "029R"@ {
        built_label(crate::corporate_body::corporate_text(sfs), SynKind::Hidden, None, 0, None)
    } else {
        built_label(crate::conference::conference_text(sfs), SynKind::Hidden, None, 0, None)
    }
}

/// The prefix the fields of one related-entity tag yield: the first
/// role-marked field whose hidden label finalizes.
pub open spec fn tag_prefix(fields: Seq<FieldV>, tag: Seq<char>) -> Option<Seq<char>>
    decreases fields.len(),
{
    if fields.len() == 0 {
        None
    } else if role_marked(fields[0].subfields) && hidden_label_for_tag(
        tag,
        fields[0].subfields,
    ) is Some {
        Some(hidden_label_for_tag(tag, fields[0].subfields).unwrap().label)
    } else {
        tag_prefix(fields.drop_first(), tag)
    }
}

/// The author prefix of a work record: the related-entity tags are tried in
/// a fixed order, persons first.
pub open spec fn work_prefix(rv: Seq<FieldV>) -> Option<Seq<char>> {
    match tag_prefix(rec_fields(rv, "028R"@), "028R"@) {
        Some(p) => Some(p),
        None => match tag_prefix(rec_fields(rv, "065R"@), "065R"@) {
            Some(p) => Some(p),
            None => match tag_prefix(rec_fields(rv, "029R"@), "029R"@) {
                Some(p) => Some(p),
                None => tag_prefix(rec_fields(rv, "030R"@), "030R"@),
            },
        },
    }
}

/// Scans the fields of one related-entity tag for a usable author prefix.
fn prefix_for_tag(record: &Record, tag: &str) -> (r: Option<String>)
    ensures
        match r {
            Some(p) => tag_prefix(rec_fields(record@, tag@), tag@) == Some(p@),
            None => tag_prefix(rec_fields(record@, tag@), tag@) is None,
        },
{
    let fields = record.all(tag);
    let n = fields.len();
    let ghost fv = fields@.map_values(|f: &Field| f@);
    proof {
        assert(fv.skip(0int) =~= fv);
    }
    for i in 0..n
        invariant
            n == fields.len(),
            fv == fields@.map_values(|f: &Field| f@),
            fv == rec_fields(record@, tag@),
            tag_prefix(fv, tag@) == tag_prefix(fv.skip(i as int), tag@),
    {
        proof {
            assert(fv.skip(i as int)[0] == fv[i as int]);
            assert(fields@[i as int]@ == fv[i as int]);
        }
        let field = fields[i];
        if field.has_pair('4', "aut1") || field.has_pair('4', "kom1") || field.has_pair(
            '4',
            "kue1",
        ) {
            let result = if str_eq(tag, "028R") {
                crate::person::get_synonym(field, SynKind::Hidden, None, 0, None, false)
            } else if str_eq(tag, "065R") {
                crate::place::get_synonym(field, SynKind::Hidden, None, 0, None)
            } else if str_eq(tag, "029R") {
                crate::corporate_body::get_synonym(field, SynKind::Hidden, None, 0, None)
            } else {
                crate::conference::get_synonym(field, SynKind::Hidden, None, 0, None)
            };
            if let Some(synonym) = result {
                return Some(synonym.label);
            }
        }
        proof {
            assert(fv.skip(i as int).drop_first() =~= fv.skip(i as int + 1));
        }
    }
    proof {
        assert(fv.skip(n as int).len() == 0);
    }
    None
}

/// Extracts the author prefix of a work record, if any related entity
/// carries the role marker and yields a label.
fn get_prefix(record: &Record) -> (r: Option<String>)
    ensures
        match r {
            Some(p) => work_prefix(record@) == Some(p@),
            None => work_prefix(record@) is None,
        },
{
    if let Some(p) = prefix_for_tag(record, "028R") {
        return Some(p);
    }
    if let Some(p) = prefix_for_tag(record, "065R") {
        return Some(p);
    }
    if let Some(p) = prefix_for_tag(record, "029R") {
        return Some(p);
    }
    prefix_for_tag(record, "030R")
}

/// The labels the primary title field of a work record contributes: the
/// title, prefixed by the author prefix when one exists; the prefixed form
/// is finalized under the same length floor and exclusion pattern.
pub open spec fn work_pref_set(
    rv: Seq<FieldV>,
    form: Option<TranslitChoice>,
    min_length: usize,
    filter: Option<Seq<char>>,
) -> Set<SynonymV> {
    match rec_first_field(rv, "022A"@) {
        Some(f) => match built_label(work_text(f.subfields), SynKind::Preferred, form, min_length, filter) {
            Some(sy) => match work_prefix(rv) {
                Some(p) => opt_to_set(
                    built_label(p + " : "@ + sy.label, SynKind::Preferred, None, min_length, filter),
                ),
                None => Set::empty().insert(sy),
            },
            None => Set::empty(),
        },
        None => Set::empty(),
    }
}

/// The labels one tradition field of a work record contributes.
pub open spec fn work_alt_one(
    f: FieldV,
    prefix: Option<Seq<char>>,
    form: Option<TranslitChoice>,
    min_length: usize,
    filter: Option<Seq<char>>,
) -> Set<SynonymV> {
    match built_label(work_text(f.subfields), SynKind::Alternative, form, min_length, filter) {
        Some(sy) => match prefix {
            Some(p) => opt_to_set(
                built_label(p + " : "@ + sy.label, SynKind::Alternative, None, min_length, filter),
            ),
            None => Set::empty().insert(sy),
        },
        None => Set::empty(),
    }
}

/// The labels the tradition fields of a work record contribute.
pub open spec fn work_alt_set(
    rv: Seq<FieldV>,
    form: Option<TranslitChoice>,
    min_length: usize,
    filter: Option<Seq<char>>,
) -> Set<SynonymV> {
    set_union_over(
        rec_fields(rv, "022@"@),
        |f: FieldV| work_alt_one(f, work_prefix(rv), form, min_length, filter),
    )
}

/// The whole label set a work record yields, duplicates collapsed.
pub open spec fn work_label_set(
    rv: Seq<FieldV>,
    form: Option<TranslitChoice>,
    min_length: usize,
    filter: Option<Seq<char>>,
) -> Set<SynonymV> {
    work_pref_set(rv, form, min_length, filter).union(work_alt_set(rv, form, min_length, filter))
}

/// Every label a work record yields is at least the length floor long, in
/// bytes, and never matches the exclusion pattern: the author-prefixed forms
/// are finalized under the same policy as the plain titles.
pub proof fn lemma_work_labels_respect_policy(
    rv: Seq<FieldV>,
    form: Option<TranslitChoice>,
    min_length: usize,
    filter: Option<Seq<char>>,
    sy: SynonymV,
)
    requires
        work_label_set(rv, form, min_length, filter).contains(sy),
    ensures
        crate::synset::byte_len(sy.label) >= min_length,
        filter matches Some(p) ==> !crate::pattern::regex_matches(p, sy.label),
{
    if work_alt_set(rv, form, min_length, filter).contains(sy) {
        let fs = rec_fields(rv, "022@"@);
        let lf = |f: FieldV| work_alt_one(f, work_prefix(rv), form, min_length, filter);
        crate::synset::lemma_set_union_over_elem(fs, lf, sy);
        let i = choose|i: int| 0 <= i < fs.len() && #[trigger] lf(fs[i]).contains(sy);
        assert(work_alt_one(fs[i], work_prefix(rv), form, min_length, filter).contains(sy));
    }
}

/// Assembles the concept a work record yields.
pub fn from_record(record: &Record, config: &Config) -> (r: Result<Concept, Error>)
    ensures
        match r {
            Ok(c) => {
                &&& concept_uri(record@, config.concept.base_uri@) == Some(c.uri@)
                &&& rec_first_field(record@, "022A"@) is Some
                &&& !invalid_filter(config)
                &&& c.kind == ConceptKind::Work
                &&& c.relations@.map_values(|rel: Relation| rel@) == relations_spec(
                    record@,
                    config.concept.base_uri@,
                )
                &&& c.synset@ == work_label_set(
                    record@,
                    config.concept.form(),
                    config.concept.min_len(),
                    config.concept.filter_pat(),
                )
                &&& c.wf()
            },
            Err(e) => {
                &&& (concept_uri(record@, config.concept.base_uri@) is None || rec_first_field(
                    record@,
                    "022A"@,
                ) is None || invalid_filter(config))
                &&& (concept_uri(record@, config.concept.base_uri@) is None ==> (
                e matches Error::Concept(m) && m@ == "could not find valid idn"@))
                &&& (concept_uri(record@, config.concept.base_uri@) is Some && rec_first_field(
                    record@,
                    "022A"@,
                ) is None ==> (e matches Error::Concept(m) && m@ == "missing primary name field"@))
                &&& (concept_uri(record@, config.concept.base_uri@) is Some && rec_first_field(
                    record@,
                    "022A"@,
                ) is Some ==> (e matches Error::Config(m) && m@ == "invalid synonym filter"@))
            },
        },
{
    let uri = match build_uri(record, config) {
        Ok(u) => u,
        Err(e) => { return Err(e) },
    };
    let primary = match record.first("022A") {
        Some(f) => f,
        None => { return Err(Error::Concept("missing primary name field".to_owned())) },
    };
    let filter = match compile_filter(config) {
        Ok(f) => f,
        Err(e) => { return Err(e) },
    };
    let filter_ref = filter.as_ref();
    let min_length = match config.concept.min_synonym_length {
        Some(n) => n,
        None => 0,
    };
    let translit = config.concept.translit.as_ref();
    let relations = extract_relations(record, config);
    let mut concept = Concept::new(uri, relations, ConceptKind::Work);

    let ghost form = config.concept.form();
    let ghost pat = config.concept.filter_pat();
    let ghost pref_set = work_pref_set(record@, form, min_length, pat);

    let prefix = get_prefix(record);

    if let Some(synonym) = get_synonym(primary, SynKind::Preferred, translit, min_length, filter_ref) {
        match &prefix {
            Some(p) => {
                let mut t = p.clone();
                t.append(" : ");
                t.append(synonym.label.as_str());
                if let Some(prefixed) = Synonym::builder(SynKind::Preferred).min_length(
                    min_length,
                ).filter(filter_ref).push_str(t.as_str()).build() {
                    concept.add_synonym(prefixed);
                }
            },
            None => {
                concept.add_synonym(synonym);
            },
        }
    }
    proof {
        assert(concept.synset@ =~= pref_set);
    }

    let fields = record.all("022@");
    let n = fields.len();
    let ghost fv = fields@.map_values(|f: &Field| f@);
    let ghost alt_f = |f: FieldV| work_alt_one(f, work_prefix(record@), form, min_length, pat);
    proof {
        assert(set_union_over(fv.take(0int), alt_f) =~= Set::<SynonymV>::empty());
        assert(concept.synset@ =~= pref_set.union(set_union_over(fv.take(0int), alt_f)));
    }
    for i in 0..n
        invariant
            n == fields.len(),
            fv == fields@.map_values(|f: &Field| f@),
            fv == rec_fields(record@, "022@"@),
            alt_f == |f: FieldV| work_alt_one(f, work_prefix(record@), form, min_length, pat),
            concept.synset@ == pref_set.union(set_union_over(fv.take(i as int), alt_f)),
            concept.wf(),
            concept.uri@ == uri@,
            concept.kind == ConceptKind::Work,
            concept.relations@.map_values(|rel: Relation| rel@) == relations_spec(
                record@,
                config.concept.base_uri@,
            ),
            pattern_view(filter_ref) == pat,
            form_view(translit) == form,
            match prefix {
                Some(p) => work_prefix(record@) == Some(p@),
                None => work_prefix(record@) is None,
            },
    {
        proof {
            assert(fv.take(i as int + 1).drop_last() =~= fv.take(i as int));
            assert(fv.take(i as int + 1).last() == fv[i as int]);
            assert(fields@[i as int]@ == fv[i as int]);
        }
        if let Some(synonym) = get_synonym(fields[i], SynKind::Alternative, translit, min_length, filter_ref) {
            match &prefix {
                Some(p) => {
                    let mut t = p.clone();
                    t.append(" : ");
                    t.append(synonym.label.as_str());
                    if let Some(prefixed) = Synonym::builder(SynKind::Alternative).min_length(
                        min_length,
                    ).filter(filter_ref).push_str(t.as_str()).build() {
                        concept.add_synonym(prefixed);
                    }
                },
                None => {
                    concept.add_synonym(synonym);
                },
            }
        }
        proof {
            assert(concept.synset@ =~= pref_set.union(set_union_over(fv.take(i as int + 1), alt_f)));
        }
    }
    proof {
        assert(fv.take(n as int) =~= fv);
        assert(concept.synset@ =~= work_label_set(
            record@,
            config.concept.form(),
            config.concept.min_len(),
            config.concept.filter_pat(),
        ));
    }
    Ok(concept)
}

} // verus!
