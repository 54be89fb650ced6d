use vstd::prelude::*;

use crate::config::TranslitChoice;
use crate::norm::{form_view, normalize, normalize_spec};
use crate::pattern::{pattern_view, regex_matches, TextPattern};

verus! {

/// The category of a label.
#[derive(Debug, Clone, Copy, PartialEq, Eq, Structural)]
pub enum SynKind {
    /// The authoritative display form.
    Preferred,
    /// A further explicitly recorded form.
    Alternative,
    /// A machine-derived lookup form not meant for display.
    Hidden,
}

impl SynKind {
    /// The category's display name.
    pub open spec fn text_spec(&self) -> Seq<char> {
        match self {
            SynKind::Preferred => "preferred"@,
            SynKind::Alternative => "alternative"@,
            SynKind::Hidden => "hidden"@,
        }
    }

    /// The category's display name.
    pub fn as_str(&self) -> (r: &'static str)
        ensures
            r@ == self.text_spec(),
    {
        match self {
            SynKind::Preferred => "preferred",
            SynKind::Alternative => "alternative",
            SynKind::Hidden => "hidden",
        }
    }
}

/// Ghost image of a label: its text and its category.
pub struct SynonymV {
    pub label: Seq<char>,
    pub kind: SynKind,
}

/// One label attached to a concept.
#[derive(Debug)]
pub struct Synonym {
    pub label: String,
    pub kind: SynKind,
}

impl View for Synonym {
    type V = SynonymV;

    open spec fn view(&self) -> SynonymV {
        SynonymV { label: self.label@, kind: self.kind }
    }
}

impl PartialEq for Synonym {
    fn eq(&self, other: &Synonym) -> bool {
        self.label == other.label && self.kind == other.kind
    }
}

impl vstd::std_specs::cmp::PartialEqSpecImpl for Synonym {
    open spec fn obeys_eq_spec() -> bool {
        true
    }

    open spec fn eq_spec(&self, other: &Synonym) -> bool {
        self.label@ == other.label@ && self.kind == other.kind
    }
}

impl Synonym {
    /// Builds a label from its text and category.
    pub fn new(label: String, kind: SynKind) -> (r: Synonym)
        ensures
            r@.label == label@,
            r@.kind == kind,
    {
        Synonym { label, kind }
    }

    /// Starts an empty accumulator for the given category.
    pub fn builder(kind: SynKind) -> (r: SynonymBuilder<'static>)
        ensures
            r.buffer@.len() == 0,
            r.kind == kind,
            r.translit is None,
            r.min_length == 0,
            r.filter is None,
    {
        SynonymBuilder::new(kind)
    }

    /// Starts an accumulator holding this label's text, with no
    /// post-processing configured.
    pub fn to_builder(&self) -> (r: SynonymBuilder<'static>)
        ensures
            r.buffer@ == self@.label,
            r.kind == self@.kind,
            r.translit is None,
            r.min_length == 0,
            r.filter is None,
    {
        SynonymBuilder {
            buffer: self.label.clone(),
            kind: self.kind,
            translit: None,
            min_length: 0,
            filter: None,
        }
    }

    /// The label's text.
    pub fn label(&self) -> (r: &str)
        ensures
            r@ == self@.label,
    {
        self.label.as_str()
    }

    /// The label's category.
    pub fn kind(&self) -> (r: &SynKind)
        ensures
            *r == self@.kind,
    {
        &self.kind
    }
}

/// The UTF-8 byte length of a text, the unit in which the length floor is
/// measured.
pub open spec fn byte_len(s: Seq<char>) -> usize {
    vstd::utf8::encode_utf8(s).len() as usize
}

/// Whether a finalized text passes the optional exclusion pattern.
pub open spec fn passes_filter(text: Seq<char>, filter: Option<Seq<char>>) -> bool {
    match filter {
        Some(p) => !regex_matches(p, text),
        None => true,
    }
}

/// What finalizing an accumulated buffer yields: nothing for an empty buffer,
/// nothing for a normalized text that is too short or excluded by the
/// pattern, and otherwise the normalized text with the given category.
pub open spec fn built_label(
    buf: Seq<char>,
    kind: SynKind,
    form: Option<TranslitChoice>,
    min_length: usize,
    filter: Option<Seq<char>>,
) -> Option<SynonymV> {
    if buf.len() == 0 {
        None
    } else {
        let text = normalize_spec(buf, form);
        if byte_len(text) < min_length {
            None
        } else if !passes_filter(text, filter) {
            None
        } else {
            Some(SynonymV { label: text, kind })
        }
    }
}

/// The view of an optional label.
pub open spec fn opt_label_view(r: Option<Synonym>) -> Option<SynonymV> {
    match r {
        Some(sy) => Some(sy@),
        None => None,
    }
}

/// Accumulates text fragments and finalizes them into an optional label.
pub struct SynonymBuilder<'a> {
    /// The text accumulated so far.
    pub buffer: String,
    /// The category of the finalized label.
    pub kind: SynKind,
    /// The normalization form applied on finalizing.
    pub translit: Option<TranslitChoice>,
    /// The least byte length a finalized text may have.
    pub min_length: usize,
    /// Texts matching this pattern are dropped on finalizing.
    pub filter: Option<&'a TextPattern>,
}

impl<'a> SynonymBuilder<'a> {
    /// What finalizing this accumulator yields.
    pub open spec fn built(&self) -> Option<SynonymV> {
        built_label(
            self.buffer@,
            self.kind,
            self.translit,
            self.min_length,
            pattern_view(self.filter),
        )
    }

    /// Starts an empty accumulator for the given category.
    pub fn new(kind: SynKind) -> (r: SynonymBuilder<'a>)
        ensures
            r.buffer@.len() == 0,
            r.kind == kind,
            r.translit is None,
            r.min_length == 0,
            r.filter is None,
    {
        SynonymBuilder { buffer: String::new(), kind, translit: None, min_length: 0, filter: None }
    }

    /// Replaces the category.
    pub fn kind(self, kind: SynKind) -> (r: SynonymBuilder<'a>)
        ensures
            r == (SynonymBuilder { kind, ..self }),
    {
        SynonymBuilder { kind, ..self }
    }

    /// Replaces the normalization form.
    pub fn translit(self, translit: Option<&TranslitChoice>) -> (r: SynonymBuilder<'a>)
        ensures
            r == (SynonymBuilder { translit: form_view(translit), ..self }),
    {
        match translit {
            Some(t) => SynonymBuilder { translit: Some(*t), ..self },
            None => SynonymBuilder { translit: None, ..self },
        }
    }

    /// Replaces the length floor.
    pub fn min_length(self, min_length: usize) -> (r: SynonymBuilder<'a>)
        ensures
            r == (SynonymBuilder { min_length, ..self }),
    {
        SynonymBuilder { min_length, ..self }
    }

    /// Replaces the exclusion pattern.
    pub fn filter(self, filter: Option<&'a TextPattern>) -> (r: SynonymBuilder<'a>)
        ensures
            r == (SynonymBuilder { filter, ..self }),
    {
        SynonymBuilder { filter, ..self }
    }

    /// Appends the fragment if it is present; an absent fragment is a no-op.
    pub fn push(self, value: Option<&String>) -> (r: SynonymBuilder<'a>)
        ensures
            match value {
                Some(v) => r == (SynonymBuilder { buffer: r.buffer, ..self }) && r.buffer@
                    == self.buffer@ + v@,
                None => r == self,
            },
    {
        match value {
            Some(v) => {
                let mut buffer = self.buffer;
                buffer.append(v.as_str());
                SynonymBuilder { buffer, ..self }
            },
            None => self,
        }
    }

    /// Appends a literal fragment unconditionally.
    pub fn push_str(self, value: &str) -> (r: SynonymBuilder<'a>)
        ensures
            r == (SynonymBuilder { buffer: r.buffer, ..self }),
            r.buffer@ == self.buffer@ + value@,
    {
        let mut buffer = self.buffer;
        buffer.append(value);
        SynonymBuilder { buffer, ..self }
    }

    /// Appends `prefix` then the fragment, if the fragment is present.
    pub fn push_with_prefix(self, value: Option<&String>, prefix: &str) -> (r: SynonymBuilder<'a>)
        ensures
            match value {
                Some(v) => r == (SynonymBuilder { buffer: r.buffer, ..self }) && r.buffer@
                    == self.buffer@ + prefix@ + v@,
                None => r == self,
            },
    {
        match value {
            Some(v) => {
                let mut buffer = self.buffer;
                buffer.append(prefix);
                buffer.append(v.as_str());
                SynonymBuilder { buffer, ..self }
            },
            None => self,
        }
    }

    /// Finalizes the accumulated text into an optional label: nothing when
    /// the buffer is empty, when the normalized text is shorter than the
    /// length floor, or when it matches the exclusion pattern. A finalized
    /// label's text is never empty.
    pub fn build(self) -> (r: Option<Synonym>)
        ensures
            opt_label_view(r) == self.built(),
            r matches Some(sy) ==> sy@.label.len() > 0,
    {
        if self.buffer.as_str().is_empty() {
            return None;
        }
        let label = normalize(self.buffer.as_str(), self.translit.as_ref());
        if label.as_str().len() < self.min_length {
            return None;
        }
        if let Some(filter) = self.filter {
            if filter.is_match(label.as_str()) {
                return None;
            }
        }
        Some(Synonym { label, kind: self.kind })
    }
}

/// A finalized label is never shorter than the length floor it was finalized
/// under.
pub proof fn lemma_built_label_min_length(
    buf: Seq<char>,
    kind: SynKind,
    form: Option<TranslitChoice>,
    min_length: usize,
    filter: Option<Seq<char>>,
)
    ensures
        built_label(buf, kind, form, min_length, filter) matches Some(sy) ==> byte_len(sy.label)
            >= min_length,
{
}

/// No finalized label matches the exclusion pattern it was finalized under.
pub proof fn lemma_built_label_excluded(
    buf: Seq<char>,
    kind: SynKind,
    form: Option<TranslitChoice>,
    min_length: usize,
    pattern: Seq<char>,
)
    ensures
        built_label(buf, kind, form, min_length, Some(pattern)) matches Some(sy)
            ==> !regex_matches(pattern, sy.label),
{
}

/// The singleton set of a finalized label, or the empty set when finalizing
/// yielded nothing.
pub open spec fn opt_to_set(o: Option<SynonymV>) -> Set<SynonymV> {
    match o {
        Some(s) => Set::empty().insert(s),
        None => Set::empty(),
    }
}

/// The union of the label sets that the elements of a sequence contribute.
pub open spec fn set_union_over<A>(s: Seq<A>, f: spec_fn(A) -> Set<SynonymV>) -> Set<SynonymV>
    decreases s.len(),
{
    if s.len() == 0 {
        Set::empty()
    } else {
        set_union_over(s.drop_last(), f).union(f(s.last()))
    }
}

/// A label found in the union over a sequence was contributed by one of its
/// elements.
pub proof fn lemma_set_union_over_elem<A>(s: Seq<A>, f: spec_fn(A) -> Set<SynonymV>, sy: SynonymV)
    requires
        set_union_over(s, f).contains(sy),
    ensures
        exists|i: int| 0 <= i < s.len() && #[trigger] f(s[i]).contains(sy),
    decreases s.len(),
{
    if s.len() > 0 {
        if f(s.last()).contains(sy) {
            assert(f(s[s.len() - 1]).contains(sy));
        } else {
            lemma_set_union_over_elem(s.drop_last(), f, sy);
            let i = choose|i: int| 0 <= i < s.drop_last().len() && #[trigger] f(
                s.drop_last()[i],
            ).contains(sy);
            assert(f(s[i]).contains(sy));
        }
    }
}

/// The set of labels attached to a concept; two entries never share both
/// text and category.
#[derive(Debug)]
pub struct SynSet {
    pub entries: Vec<Synonym>,
}

impl View for SynSet {
    type V = Set<SynonymV>;

    open spec fn view(&self) -> Set<SynonymV> {
        self.seq_view().to_set()
    }
}

impl SynSet {
    /// The entries in insertion order.
    pub open spec fn seq_view(&self) -> Seq<SynonymV> {
        self.entries@.map_values(|s: Synonym| s@)
    }

    /// No two entries agree on both text and category.
    pub open spec fn wf(&self) -> bool {
        forall|i: int, j: int|
            0 <= i < j < self.seq_view().len() ==> self.seq_view()[i] != self.seq_view()[j]
    }

    /// Starts an empty label set.
    pub fn new() -> (r: SynSet)
        ensures
            r@ =~= Set::<SynonymV>::empty(),
            r.seq_view().len() == 0,
            r.wf(),
    {
        let r = SynSet { entries: Vec::new() };
        proof {
            assert(r.seq_view() =~= Seq::empty());
            assert(r.seq_view().to_set() =~= Set::empty());
        }
        r
    }

    /// How many labels the set holds.
    pub fn len(&self) -> (r: usize)
        ensures
            r == self.seq_view().len(),
    {
        self.entries.len()
    }

    /// The label at the given position, in insertion order.
    pub fn get(&self, i: usize) -> (r: &Synonym)
        requires
            i < self.seq_view().len(),
        ensures
            r@ == self.seq_view()[i as int],
    {
        &self.entries[i]
    }

    /// Whether a label with the same text and category is present.
    pub fn contains(&self, s: &Synonym) -> (r: bool)
        ensures
            r == self@.contains(s@),
    {
        let n = self.entries.len();
        for i in 0..n
            invariant
                n == self.entries.len(),
                forall|j: int| 0 <= j < i ==> self.seq_view()[j] != s@,
        {
            if self.entries[i].eq(s) {
                assert(self.seq_view()[i as int] == s@);
                assert(self.seq_view().contains(s@));
                return true;
            }
        }
        proof {
            if self.seq_view().contains(s@) {
                let k = choose|k: int|
                    0 <= k < self.seq_view().len() && self.seq_view()[k] == s@;
                assert(false);
            }
        }
        false
    }

    /// Inserts a label unless an equal one is present; reports whether the
    /// set grew. Uniqueness of (text, category) pairs is preserved.
    pub fn insert(&mut self, s: Synonym) -> (r: bool)
        ensures
            final(self)@ =~= old(self)@.insert(s@),
            r == !old(self)@.contains(s@),
            old(self).wf() ==> final(self).wf(),
            r ==> final(self).seq_view() == old(self).seq_view().push(s@),
            !r ==> final(self).seq_view() == old(self).seq_view(),
    {
        broadcast use vstd::seq_lib::group_seq_properties;

        if self.contains(&s) {
            proof {
                assert(old(self)@.insert(s@) =~= old(self)@);
            }
            false
        } else {
            let ghost old_seq = self.seq_view();
            self.entries.push(s);
            proof {
                old(self).entries@.lemma_push_map_commute(
                    |sy: Synonym| sy@,
                    self.entries@[old(self).entries@.len() as int],
                );
                assert(self.seq_view() =~= old_seq.push(s@));
                old_seq.lemma_push_to_set_commute(s@);
                assert(self@ =~= old(self)@.insert(s@));
                if old(self).wf() {
                    assert forall|i: int, j: int|
                        0 <= i < j < self.seq_view().len() implies self.seq_view()[i]
                        != self.seq_view()[j] by {
                        if j == self.seq_view().len() - 1 {
                            assert(!old_seq.to_set().contains(s@));
                            assert(old_seq.contains(old_seq[i]));
                        }
                    }
                }
            }
            true
        }
    }
}

/// A well-formed label set never holds two labels with identical text and
/// category.
pub proof fn lemma_synset_unique(s: &SynSet)
    requires
        s.wf(),
    ensures
        forall|i: int, j: int|
            0 <= i < j < s.seq_view().len() ==> !(s.seq_view()[i].label == s.seq_view()[j].label
                && s.seq_view()[i].kind == s.seq_view()[j].kind),
{
}

} // verus!
