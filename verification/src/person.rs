use vstd::prelude::*;

use vstd::string::StrSliceExecFns;

use crate::concept::{
    build_uri, compile_filter, concept_uri, extract_relations, invalid_filter, relations_spec,
    Concept, ConceptKind,
};
use crate::config::{Config, TranslitChoice};
use crate::error::Error;
use crate::norm::form_view;
use crate::pattern::{pattern_view, TextPattern};
use crate::record::{
    lemma_sf_first_contains, rec_fields, rec_first_field, sf_contains, sf_first, sf_has_pair,
    Field, FieldV, Record, SubfieldV,
};
use crate::relation::Relation;
use crate::synset::{
    built_label, opt_label_view, opt_to_set, set_union_over, SynKind, Synonym, SynonymV,
};
use crate::text::push_char;

verus! {

/// The optional text, or the empty text when absent.
pub open spec fn opt_text(o: Option<Seq<char>>) -> Seq<char> {
    match o {
        Some(v) => v,
        None => Seq::empty(),
    }
}

/// The parenthetical a pseudonym's numeration and title yield.
pub open spec fn person_paren(n: Option<Seq<char>>, l: Option<Seq<char>>) -> Seq<char> {
    match (n, l) {
        (Some(nu), Some(ti)) => " ("@ + nu + ", "@ + ti + ")"@,
        (Some(nu), None) => " ("@ + nu + ")"@,
        (None, Some(ti)) => " ("@ + ti + ")"@,
        (None, None) => Seq::empty(),
    }
}

/// The label text a person name field yields: surname, forename and
/// addition; or else a pseudonym with its numeration and title.
pub open spec fn person_text(sfs: Seq<SubfieldV>) -> Seq<char> {
    if sf_contains(sfs, 'a') {
        (opt_text(sf_first(sfs, 'a')) + (match sf_first(sfs, 'd') {
            Some(d) => ", "@ + d,
            None => Seq::empty(),
        })) + (match sf_first(sfs, 'c') {
            Some(c) => " "@ + c,
            None => Seq::empty(),
        })
    } else if sf_contains(sfs, 'P') {
        opt_text(sf_first(sfs, 'P')) + person_paren(sf_first(sfs, 'n'), sf_first(sfs, 'l'))
    } else {
        Seq::empty()
    }
}

/// Whether a forename value is a bare initial: two bytes, the second a full
/// stop.
pub open spec fn bare_initial(v: Seq<char>) -> bool {
    vstd::utf8::encode_utf8(v).len() == 2 && vstd::utf8::encode_utf8(v)[1] == 46u8
}

/// Whether the whole label is suppressed: the suppression switch is on and
/// the field carries a surname and a bare-initial forename.
pub open spec fn suppressed(sfs: Seq<SubfieldV>, no_initials: bool) -> bool {
    no_initials && sf_contains(sfs, 'a') && sf_contains(sfs, 'd') && bare_initial(
        sf_first(sfs, 'd').unwrap(),
    )
}

/// Builds the label one person name field yields under the given policy;
/// nothing at all when the bare-initial suppression strikes.
pub fn get_synonym(
    field: &Field,
    kind: SynKind,
    translit: Option<&TranslitChoice>,
    min_length: usize,
    synonym_filter: Option<&TextPattern>,
    no_initials: bool,
) -> (r: Option<Synonym>)
    ensures
        opt_label_view(r) == (if suppressed(field@.subfields, no_initials) {
            None
        } else {
            built_label(
                person_text(field@.subfields),
                kind,
                form_view(translit),
                min_length,
                pattern_view(synonym_filter),
            )
        }),
{
    let mut synonym = Synonym::builder(kind).translit(translit).min_length(min_length).filter(
        synonym_filter,
    );
    if field.contains_code('a') {
        if no_initials && field.contains_code('d') {
            proof {
                lemma_sf_first_contains(field@.subfields, 'd');
            }
            if let Some(forename) = field.first('d') {
                // A bare initial: two bytes, the second the full stop (byte 46).
                let bytes = forename.as_str().as_bytes();
                if bytes.len() == 2 && bytes[1] == 46u8 {
                    return None;
                }
            }
        }
        proof {
            lemma_sf_first_contains(field@.subfields, 'a');
        }
        synonym = synonym.push(field.first('a')).push_with_prefix(
            field.first('d'),
            ", ",
        ).push_with_prefix(field.first('c'), " ");
        proof {
            assert(synonym.buffer@ =~= person_text(field@.subfields));
        }
    } else if field.contains_code('P') {
        proof {
            lemma_sf_first_contains(field@.subfields, 'P');
        }
        synonym = synonym.push(field.first('P'));
        let numeration = field.first('n');
        let title = field.first('l');
        match (numeration, title) {
            (Some(nu), Some(ti)) => {
                synonym = synonym.push_str(" (").push(Some(nu)).push_str(", ").push(
                    Some(ti),
                ).push_str(")");
            },
            (Some(nu), None) => {
                synonym = synonym.push_str(" (").push(Some(nu)).push_str(")");
            },
            (None, Some(ti)) => {
                synonym = synonym.push_str(" (").push(Some(ti)).push_str(")");
            },
            (None, None) => {},
        }
        proof {
            assert(synonym.buffer@ =~= person_text(field@.subfields));
        }
    } else {
        proof {
            assert(synonym.buffer@ =~= person_text(field@.subfields));
        }
    }
    synonym.build()
}

/// Whether a character may stand inside a name segment of the inversion
/// rule: anything but a comma or a parenthesis.
pub open spec fn seg_ok(c: char) -> bool {
    c != ',' && c != '(' && c != ')'
}

/// Whether a character counts as white space between the two segments.
pub open spec fn space_char(c: char) -> bool {
    let u = c as u32;
    u == 0x20 || (0x9 <= u && u <= 0xD) || u == 0x85 || u == 0xA0 || u == 0x1680 || (0x2000 <= u
        && u <= 0x200A) || u == 0x2028 || u == 0x2029 || u == 0x202F || u == 0x205F || u == 0x3000
}

/// The index of the last comma, or -1 when there is none.
pub open spec fn last_comma(s: Seq<char>) -> int
    decreases s.len(),
{
    if s.len() == 0 {
        -1
    } else if s.last() == ',' {
        s.len() - 1
    } else {
        last_comma(s.drop_last())
    }
}

/// The start of the longest run of segment characters ending just before
/// position `k`.
pub open spec fn seg_start(s: Seq<char>, k: int) -> int
    decreases k,
{
    if k <= 0 {
        0
    } else if seg_ok(s[k - 1]) {
        seg_start(s, k - 1)
    } else {
        k
    }
}

/// How the inversion rule reads a label: the longest segment ending at the
/// last comma, one white-space character, then a final segment reaching the
/// end; neither segment holds a comma or parenthesis.
pub open spec fn inversion_of(s: Seq<char>) -> Option<(Seq<char>, Seq<char>)> {
    let k = last_comma(s);
    if k >= 1 && seg_ok(s[k - 1]) && k + 2 < s.len() && space_char(s[k + 1]) && (forall|i: int|
        k + 2 <= i < s.len() ==> seg_ok(s[i])) {
        Some((s.subrange(seg_start(s, k), k), s.subrange(k + 2, s.len() as int)))
    } else {
        None
    }
}

/// The swapped lookup text the inversion rule yields: the segment after the
/// comma, a space, then the segment before it.
pub open spec fn inverted_text(s: Seq<char>) -> Option<Seq<char>> {
    match inversion_of(s) {
        Some(p) => Some(p.1 + " "@ + p.0),
        None => None,
    }
}

/// Whether a character is a space of the inversion rule's white-space class.
fn is_space_char(c: char) -> (r: bool)
    ensures
        r == space_char(c),
{
    let u = c as u32;
    u == 0x20 || (0x9 <= u && u <= 0xD) || u == 0x85 || u == 0xA0 || u == 0x1680 || (0x2000 <= u
        && u <= 0x200A) || u == 0x2028 || u == 0x2029 || u == 0x202F || u == 0x205F || u == 0x3000
}

/// Whether a character may stand inside a name segment.
fn is_seg_ok(c: char) -> (r: bool)
    ensures
        r == seg_ok(c),
{
    c != ',' && c != '(' && c != ')'
}

/// Applies the inversion rule to a label text, yielding the swapped lookup
/// text when the label has the form the rule asks for.
#[verifier::loop_isolation(false)]
pub fn invert_label(s: &str) -> (r: Option<String>)
    ensures
        match r {
            Some(t) => inverted_text(s@) == Some(t@),
            None => inverted_text(s@) is None,
        },
{
    let n = s.unicode_len();
    let mut last: usize = 0;
    let mut found = false;
    proof {
        assert(s@.take(0int) =~= Seq::<char>::empty());
    }
    for i in 0..n
        invariant
            n == s@.len(),
            found ==> last_comma(s@.take(i as int)) == last && last < i,
            !found ==> last_comma(s@.take(i as int)) == -1,
    {
        proof {
            assert(s@.take(i as int + 1).drop_last() =~= s@.take(i as int));
            assert(s@.take(i as int + 1).last() == s@[i as int]);
        }
        if s.get_char(i) == ',' {
            last = i;
            found = true;
        }
    }
    proof {
        assert(s@.take(n as int) =~= s@);
    }
    if !found {
        return None;
    }
    let k = last;
    if k < 1 || !is_seg_ok(s.get_char(k - 1)) {
        return None;
    }
    if n < 3 || k > n - 3 {
        return None;
    }
    if !is_space_char(s.get_char(k + 1)) {
        return None;
    }
    let mut i = k + 2;
    while i < n
        invariant
            n == s@.len(),
            k + 2 <= i <= n,
            forall|j: int| k + 2 <= j < i ==> seg_ok(s@[j]),
        decreases n - i,
    {
        if !is_seg_ok(s.get_char(i)) {
            proof {
                assert(!seg_ok(s@[i as int]));
            }
            return None;
        }
        i = i + 1;
    }
    let mut j = k;
    while j > 0 && is_seg_ok(s.get_char(j - 1))
        invariant
            n == s@.len(),
            0 <= j <= k < n,
            seg_start(s@, k as int) == seg_start(s@, j as int),
        decreases j,
    {
        j = j - 1;
    }
    proof {
        assert(seg_start(s@, k as int) == j as int);
    }
    let g1 = s.substring_char(j, k);
    let g2 = s.substring_char(k + 2, n);
    let mut t = g2.to_owned();
    t.append(" ");
    t.append(g1);
    proof {
        assert(inversion_of(s@) == Some(
            (s@.subrange(j as int, k as int), s@.subrange(k as int + 2, n as int)),
        ));
    }
    Some(t)
}

/// Whether a field carries the life-span role marker.
pub open spec fn bio_field(f: FieldV) -> bool {
    f.tag == "060R"@ && sf_has_pair(f.subfields, '4', "datl"@)
}

/// The first field carrying the life-span marker, if any.
pub open spec fn first_bio_field(rv: Seq<FieldV>) -> Option<FieldV>
    decreases rv.len(),
{
    if rv.len() == 0 {
        None
    } else if bio_field(rv[0]) {
        Some(rv[0])
    } else {
        first_bio_field(rv.drop_first())
    }
}

/// The life-span decoration a record yields: birth and death years from the
/// first marked field, parenthesized; nothing when the field or both years
/// are missing.
pub open spec fn bio_suffix(rv: Seq<FieldV>) -> Option<Seq<char>> {
    match first_bio_field(rv) {
        Some(f) => match (sf_first(f.subfields, 'a'), sf_first(f.subfields, 'b')) {
            (Some(from), Some(to)) => Some(" ("@ + from + "-"@ + to + ")"@),
            (Some(from), None) => Some(" ("@ + from + ")"@),
            (None, Some(to)) => Some(" ("@ + to + ")"@),
            (None, None) => None,
        },
        None => None,
    }
}

/// Extracts the life-span decoration of a person record.
fn get_biographical_data(record: &Record) -> (r: Option<String>)
    ensures
        match r {
            Some(t) => bio_suffix(record@) == Some(t@),
            None => bio_suffix(record@) is None,
        },
{
    let n = record.fields.len();
    proof {
        assert(record@.skip(0int) =~= record@);
    }
    for i in 0..n
        invariant
            n == record.fields.len(),
            first_bio_field(record@) == first_bio_field(record@.skip(i as int)),
    {
        proof {
            assert(record@.skip(i as int)[0] == record@[i as int]);
        }
        let f = &record.fields[i];
        if crate::text::str_eq(f.tag.as_str(), "060R") && f.has_pair('4', "datl") {
            let from = f.first('a');
            let to = f.first('b');
            return match (from, to) {
                (Some(from), Some(to)) => {
                    let mut t = " (".to_owned();
                    t.append(from.as_str());
                    t.append("-");
                    t.append(to.as_str());
                    t.append(")");
                    Some(t)
                },
                (Some(from), None) => {
                    let mut t = " (".to_owned();
                    t.append(from.as_str());
                    t.append(")");
                    Some(t)
                },
                (None, Some(to)) => {
                    let mut t = " (".to_owned();
                    t.append(to.as_str());
                    t.append(")");
                    Some(t)
                },
                (None, None) => None,
            };
        }
        proof {
            assert(record@.skip(i as int).drop_first() =~= record@.skip(i as int + 1));
        }
    }
    proof {
        assert(record@.skip(n as int).len() == 0);
    }
    None
}

/// The hidden inverted label derived from a label text, finalized under the
/// same policy as every other label.
pub open spec fn inv_hidden_set(
    label: Seq<char>,
    form: Option<TranslitChoice>,
    min_length: usize,
    filter: Option<Seq<char>>,
) -> Set<SynonymV> {
    match inverted_text(label) {
        Some(t) => opt_to_set(built_label(t, SynKind::Hidden, form, min_length, filter)),
        None => Set::empty(),
    }
}

/// The labels the primary name field of a person record contributes: the
/// preferred label, its hidden inversion, and the life-span decoration with
/// the undecorated text kept as a hidden duplicate. Every derived label is
/// finalized under the configured length floor and exclusion pattern.
pub open spec fn person_primary_set(
    rv: Seq<FieldV>,
    form: Option<TranslitChoice>,
    min_length: usize,
    filter: Option<Seq<char>>,
    no_initials: bool,
) -> Set<SynonymV> {
    match rec_first_field(rv, "028A"@) {
        Some(f) => if suppressed(f.subfields, no_initials) {
            Set::empty()
        } else {
            match built_label(person_text(f.subfields), SynKind::Preferred, form, min_length, filter) {
                Some(sy) => inv_hidden_set(sy.label, form, min_length, filter).union(
                    match bio_suffix(rv) {
                        Some(suffix) => match built_label(
                            sy.label + suffix,
                            SynKind::Preferred,
                            None,
                            min_length,
                            filter,
                        ) {
                            Some(dec) => Set::empty().insert(dec).union(
                                opt_to_set(
                                    built_label(sy.label, SynKind::Hidden, None, min_length, filter),
                                ),
                            ),
                            None => Set::empty(),
                        },
                        None => Set::empty().insert(sy),
                    },
                ),
                None => Set::empty(),
            }
        },
        None => Set::empty(),
    }
}

/// The labels one tradition field of a person record contributes: the
/// alternative label and its hidden inversion.
pub open spec fn person_alt_one(
    f: FieldV,
    form: Option<TranslitChoice>,
    min_length: usize,
    filter: Option<Seq<char>>,
    no_initials: bool,
) -> Set<SynonymV> {
    if suppressed(f.subfields, no_initials) {
        Set::empty()
    } else {
        match built_label(person_text(f.subfields), SynKind::Alternative, form, min_length, filter) {
            Some(sy) => inv_hidden_set(sy.label, form, min_length, filter).insert(sy),
            None => Set::empty(),
        }
    }
}

/// The labels the tradition fields of a person record contribute.
pub open spec fn person_alt_set(
    rv: Seq<FieldV>,
    form: Option<TranslitChoice>,
    min_length: usize,
    filter: Option<Seq<char>>,
    no_initials: bool,
) -> Set<SynonymV> {
    set_union_over(
        rec_fields(rv, "028@"@),
        |f: FieldV| person_alt_one(f, form, min_length, filter, no_initials),
    )
}

/// The whole label set a person record yields, duplicates collapsed.
pub open spec fn person_label_set(
    rv: Seq<FieldV>,
    form: Option<TranslitChoice>,
    min_length: usize,
    filter: Option<Seq<char>>,
    no_initials: bool,
) -> Set<SynonymV> {
    person_primary_set(rv, form, min_length, filter, no_initials).union(
        person_alt_set(rv, form, min_length, filter, no_initials),
    )
}

/// The inversion law: whenever a person record's primary name field yields a
/// preferred label whose text reads as two comma-separated segments, and the
/// swapped form of that text survives the configured length floor and
/// exclusion pattern, the record's label set also holds it as a hidden
/// label.
pub proof fn lemma_person_inversion(
    rv: Seq<FieldV>,
    form: Option<TranslitChoice>,
    min_length: usize,
    filter: Option<Seq<char>>,
    no_initials: bool,
)
    requires
        rec_first_field(rv, "028A"@) is Some,
        !suppressed(rec_first_field(rv, "028A"@).unwrap().subfields, no_initials),
        built_label(
            person_text(rec_first_field(rv, "028A"@).unwrap().subfields),
            SynKind::Preferred,
            form,
            min_length,
            filter,
        ) is Some,
        inversion_of(
            built_label(
                person_text(rec_first_field(rv, "028A"@).unwrap().subfields),
                SynKind::Preferred,
                form,
                min_length,
                filter,
            ).unwrap().label,
        ) is Some,
    ensures
        ({
            let label = built_label(
                person_text(rec_first_field(rv, "028A"@).unwrap().subfields),
                SynKind::Preferred,
                form,
                min_length,
                filter,
            ).unwrap().label;
            built_label(
                inverted_text(label).unwrap(),
                SynKind::Hidden,
                form,
                min_length,
                filter,
            ) matches Some(hidden) ==> person_label_set(
                rv,
                form,
                min_length,
                filter,
                no_initials,
            ).contains(hidden)
        }),
{
    let label = built_label(
        person_text(rec_first_field(rv, "028A"@).unwrap().subfields),
        SynKind::Preferred,
        form,
        min_length,
        filter,
    ).unwrap().label;
    let t = inverted_text(label).unwrap();
    let hidden = built_label(t, SynKind::Hidden, form, min_length, filter);
    if hidden is Some {
        assert(inv_hidden_set(label, form, min_length, filter).contains(hidden.unwrap()));
        assert(person_primary_set(rv, form, min_length, filter, no_initials).contains(
            hidden.unwrap(),
        ));
    }
}

/// Every label a person record yields is at least the length floor long, in
/// bytes, and never matches the exclusion pattern: the derived hidden and
/// decorated labels are finalized under the same policy as the base labels.
pub proof fn lemma_person_labels_respect_policy(
    rv: Seq<FieldV>,
    form: Option<TranslitChoice>,
    min_length: usize,
    filter: Option<Seq<char>>,
    no_initials: bool,
    sy: SynonymV,
)
    requires
        person_label_set(rv, form, min_length, filter, no_initials).contains(sy),
    ensures
        crate::synset::byte_len(sy.label) >= min_length,
        filter matches Some(p) ==> !crate::pattern::regex_matches(p, sy.label),
{
    if person_alt_set(rv, form, min_length, filter, no_initials).contains(sy) {
        let fs = rec_fields(rv, "028@"@);
        let lf = |f: FieldV| person_alt_one(f, form, min_length, filter, no_initials);
        crate::synset::lemma_set_union_over_elem(fs, lf, sy);
        let i = choose|i: int| 0 <= i < fs.len() && #[trigger] lf(fs[i]).contains(sy);
        assert(person_alt_one(fs[i], form, min_length, filter, no_initials).contains(sy));
    }
}

/// Assembles the concept a person record yields.
pub fn from_record(record: &Record, config: &Config) -> (r: Result<Concept, Error>)
    ensures
        match r {
            Ok(c) => {
                &&& concept_uri(record@, config.concept.base_uri@) == Some(c.uri@)
                &&& rec_first_field(record@, "028A"@) is Some
                &&& !invalid_filter(config)
                &&& c.kind == ConceptKind::Person
                &&& c.relations@.map_values(|rel: Relation| rel@) == relations_spec(
                    record@,
                    config.concept.base_uri@,
                )
                &&& c.synset@ == person_label_set(
                    record@,
                    config.concept.form(),
                    config.concept.min_len(),
                    config.concept.filter_pat(),
                    config.concept.no_initials(),
                )
                &&& c.wf()
            },
            Err(e) => {
                &&& (concept_uri(record@, config.concept.base_uri@) is None || rec_first_field(
                    record@,
                    "028A"@,
                ) is None || invalid_filter(config))
                &&& (concept_uri(record@, config.concept.base_uri@) is None ==> (
                e matches Error::Concept(m) && m@ == "could not find valid idn"@))
                &&& (concept_uri(record@, config.concept.base_uri@) is Some && rec_first_field(
                    record@,
                    "028A"@,
                ) is None ==> (e matches Error::Concept(m) && m@ == "missing primary name field"@))
                &&& (concept_uri(record@, config.concept.base_uri@) is Some && rec_first_field(
                    record@,
                    "028A"@,
                ) is Some ==> (e matches Error::Config(m) && m@ == "invalid synonym filter"@))
            },
        },
{
    let uri = match build_uri(record, config) {
        Ok(u) => u,
        Err(e) => { return Err(e) },
    };
    let primary = match record.first("028A") {
        Some(f) => f,
        None => { return Err(Error::Concept("missing primary name field".to_owned())) },
    };
    let filter = match compile_filter(config) {
        Ok(f) => f,
        Err(e) => { return Err(e) },
    };
    let filter_ref = filter.as_ref();
    let min_length = match config.concept.min_synonym_length {
        Some(n) => n,
        None => 0,
    };
    let no_initials = match config.concept.person_no_initials {
        Some(b) => b,
        None => false,
    };
    let translit = config.concept.translit.as_ref();
    let relations = extract_relations(record, config);
    let mut concept = Concept::new(uri, relations, ConceptKind::Person);

    let ghost form = config.concept.form();
    let ghost pat = config.concept.filter_pat();
    let ghost pref_set = person_primary_set(record@, form, min_length, pat, no_initials);

    if let Some(synonym) = get_synonym(
        primary,
        SynKind::Preferred,
        translit,
        min_length,
        filter_ref,
        no_initials,
    ) {
        if let Some(inverted) = invert_label(synonym.label()) {
            if let Some(hidden) = Synonym::builder(SynKind::Hidden).translit(translit).min_length(
                min_length,
            ).filter(filter_ref).push_str(inverted.as_str()).build() {
                concept.add_synonym(hidden);
            }
        }
        if let Some(bio) = get_biographical_data(record) {
            if let Some(decorated) = synonym.to_builder().min_length(min_length).filter(
                filter_ref,
            ).push_str(bio.as_str()).build() {
                concept.add_synonym(decorated);
                if let Some(hidden_dup) = synonym.to_builder().kind(SynKind::Hidden).min_length(
                    min_length,
                ).filter(filter_ref).build() {
                    concept.add_synonym(hidden_dup);
                }
            }
        } else {
            concept.add_synonym(synonym);
        }
    }
    proof {
        assert(concept.synset@ =~= pref_set);
    }

    let fields = record.all("028@");
    let n = fields.len();
    let ghost fv = fields@.map_values(|f: &Field| f@);
    let ghost alt_f = |f: FieldV| person_alt_one(f, form, min_length, pat, no_initials);
    proof {
        assert(set_union_over(fv.take(0int), alt_f) =~= Set::<SynonymV>::empty());
        assert(concept.synset@ =~= pref_set.union(set_union_over(fv.take(0int), alt_f)));
    }
    for i in 0..n
        invariant
            n == fields.len(),
            fv == fields@.map_values(|f: &Field| f@),
            fv == rec_fields(record@, "028@"@),
            alt_f == |f: FieldV| person_alt_one(f, form, min_length, pat, no_initials),
            concept.synset@ == pref_set.union(set_union_over(fv.take(i as int), alt_f)),
            concept.wf(),
            concept.uri@ == uri@,
            concept.kind == ConceptKind::Person,
            concept.relations@.map_values(|rel: Relation| rel@) == relations_spec(
                record@,
                config.concept.base_uri@,
            ),
            pattern_view(filter_ref) == pat,
            form_view(translit) == form,
    {
        proof {
            assert(fv.take(i as int + 1).drop_last() =~= fv.take(i as int));
            assert(fv.take(i as int + 1).last() == fv[i as int]);
            assert(fields@[i as int]@ == fv[i as int]);
        }
        if let Some(synonym) = get_synonym(
            fields[i],
            SynKind::Alternative,
            translit,
            min_length,
            filter_ref,
            no_initials,
        ) {
            if let Some(inverted) = invert_label(synonym.label()) {
                if let Some(hidden) = Synonym::builder(SynKind::Hidden).translit(translit).min_length(
                    min_length,
                ).filter(filter_ref).push_str(inverted.as_str()).build() {
                    concept.add_synonym(hidden);
                }
            }
            concept.add_synonym(synonym);
        }
        proof {
            assert(concept.synset@ =~= pref_set.union(set_union_over(fv.take(i as int + 1), alt_f)));
        }
    }
    proof {
        assert(fv.take(n as int) =~= fv);
        assert(concept.synset@ =~= person_label_set(
            record@,
            config.concept.form(),
            config.concept.min_len(),
            config.concept.filter_pat(),
            config.concept.no_initials(),
        ));
    }
    Ok(concept)
}

} // verus!
