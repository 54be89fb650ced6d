use vstd::prelude::*;

use crate::text::str_eq;

verus! {

/// One coded value inside a field.
#[derive(Debug)]
pub struct Subfield {
    pub code: char,
    pub value: String,
}

/// Ghost image of a subfield.
pub struct SubfieldV {
    pub code: char,
    pub value: Seq<char>,
}

impl View for Subfield {
    type V = SubfieldV;

    open spec fn view(&self) -> SubfieldV {
        SubfieldV { code: self.code, value: self.value@ }
    }
}

/// One tagged group of subfields.
#[derive(Debug)]
pub struct Field {
    pub tag: String,
    pub subfields: Vec<Subfield>,
}

/// Ghost image of a field.
pub struct FieldV {
    pub tag: Seq<char>,
    pub subfields: Seq<SubfieldV>,
}

impl View for Field {
    type V = FieldV;

    open spec fn view(&self) -> FieldV {
        FieldV { tag: self.tag@, subfields: self.subfields@.map_values(|s: Subfield| s@) }
    }
}

/// One authority record: a sequence of fields in source order.
#[derive(Debug)]
pub struct Record {
    pub fields: Vec<Field>,
}

impl View for Record {
    type V = Seq<FieldV>;

    open spec fn view(&self) -> Seq<FieldV> {
        self.fields@.map_values(|f: Field| f@)
    }
}

/// The value of the first subfield carrying `code`, if any.
pub open spec fn sf_first(sfs: Seq<SubfieldV>, code: char) -> Option<Seq<char>>
    decreases sfs.len(),
{
    if sfs.len() == 0 {
        None
    } else if sfs[0].code == code {
        Some(sfs[0].value)
    } else {
        sf_first(sfs.drop_first(), code)
    }
}

/// Whether some subfield carries `code`.
pub open spec fn sf_contains(sfs: Seq<SubfieldV>, code: char) -> bool {
    exists|i: int| 0 <= i < sfs.len() && sfs[i].code == code
}

/// The values of all subfields carrying `code`, in order.
pub open spec fn sf_all(sfs: Seq<SubfieldV>, code: char) -> Seq<Seq<char>> {
    sfs.filter(|s: SubfieldV| s.code == code).map_values(|s: SubfieldV| s.value)
}

/// Whether some subfield carries both the code and exactly the value.
pub open spec fn sf_has_pair(sfs: Seq<SubfieldV>, code: char, value: Seq<char>) -> bool {
    exists|i: int| 0 <= i < sfs.len() && sfs[i].code == code && sfs[i].value == value
}

/// A field carries a first value for `code` exactly when it carries the code
/// at all.
pub proof fn lemma_sf_first_contains(sfs: Seq<SubfieldV>, code: char)
    ensures
        sf_first(sfs, code) is Some <==> sf_contains(sfs, code),
    decreases sfs.len(),
{
    if sfs.len() == 0 {
    } else if sfs[0].code == code {
    } else {
        lemma_sf_first_contains(sfs.drop_first(), code);
        if sf_contains(sfs.drop_first(), code) {
            let i = choose|i: int|
                0 <= i < sfs.drop_first().len() && sfs.drop_first()[i].code == code;
            assert(sfs[i + 1].code == code);
        }
        if sf_contains(sfs, code) {
            let i = choose|i: int| 0 <= i < sfs.len() && sfs[i].code == code;
            assert(sfs.drop_first()[i - 1].code == code);
        }
    }
}

/// The first field carrying `tag`, if any.
pub open spec fn rec_first_field(fields: Seq<FieldV>, tag: Seq<char>) -> Option<FieldV>
    decreases fields.len(),
{
    if fields.len() == 0 {
        None
    } else if fields[0].tag == tag {
        Some(fields[0])
    } else {
        rec_first_field(fields.drop_first(), tag)
    }
}

/// All fields carrying `tag`, in record order.
pub open spec fn rec_fields(fields: Seq<FieldV>, tag: Seq<char>) -> Seq<FieldV> {
    fields.filter(|f: FieldV| f.tag == tag)
}

/// The first value found by walking the record's fields with `tag` and taking
/// each one's first subfield with `code`.
pub open spec fn rec_first_path_value(
    fields: Seq<FieldV>,
    tag: Seq<char>,
    code: char,
) -> Option<Seq<char>>
    decreases fields.len(),
{
    if fields.len() == 0 {
        None
    } else if fields[0].tag == tag && sf_first(fields[0].subfields, code) is Some {
        sf_first(fields[0].subfields, code)
    } else {
        rec_first_path_value(fields.drop_first(), tag, code)
    }
}

/// Every value reachable under `tag` and `code`, in record order.
pub open spec fn rec_path_values(fields: Seq<FieldV>, tag: Seq<char>, code: char) -> Seq<
    Seq<char>,
>
    decreases fields.len(),
{
    if fields.len() == 0 {
        Seq::empty()
    } else {
        rec_path_values(fields.drop_last(), tag, code) + (if fields.last().tag == tag {
            sf_all(fields.last().subfields, code)
        } else {
            Seq::empty()
        })
    }
}

impl Field {
    /// Whether the field carries a subfield with the given code.
    pub fn contains_code(&self, code: char) -> (r: bool)
        ensures
            r == sf_contains(self@.subfields, code),
    {
        let n = self.subfields.len();
        for i in 0..n
            invariant
                n == self.subfields.len(),
                forall|j: int| 0 <= j < i ==> self@.subfields[j].code != code,
        {
            if self.subfields[i].code == code {
                assert(self@.subfields[i as int].code == code);
                return true;
            }
        }
        false
    }

    /// Whether some subfield carries both the given code and exactly the
    /// given value.
    pub fn has_pair(&self, code: char, value: &str) -> (r: bool)
        ensures
            r == sf_has_pair(self@.subfields, code, value@),
    {
        let n = self.subfields.len();
        for i in 0..n
            invariant
                n == self.subfields.len(),
                forall|j: int|
                    0 <= j < i ==> !(self@.subfields[j].code == code && self@.subfields[j].value
                        == value@),
        {
            if self.subfields[i].code == code && str_eq(self.subfields[i].value.as_str(), value) {
                assert(self@.subfields[i as int].code == code && self@.subfields[i as int].value
                    == value@);
                return true;
            }
        }
        false
    }

    /// The value of the first subfield with the given code.
    pub fn first(&self, code: char) -> (r: Option<&String>)
        ensures
            match r {
                Some(v) => sf_first(self@.subfields, code) == Some(v@),
                None => sf_first(self@.subfields, code) is None,
            },
    {
        let n = self.subfields.len();
        assert(self@.subfields.skip(0int) =~= self@.subfields);
        for i in 0..n
            invariant
                n == self.subfields.len(),
                sf_first(self@.subfields, code) == sf_first(
                    self@.subfields.skip(i as int),
                    code,
                ),
        {
            if self.subfields[i].code == code {
                assert(self@.subfields.skip(i as int)[0] == self@.subfields[i as int]);
                return Some(&self.subfields[i].value);
            }
            proof {
                assert(self@.subfields.skip(i as int)[0] == self@.subfields[i as int]);
                assert(self@.subfields.skip(i as int).drop_first() =~= self@.subfields.skip(
                    i as int + 1,
                ));
            }
        }
        proof {
            assert(self@.subfields.skip(n as int).len() == 0);
        }
        None
    }

    /// Clones the values of all subfields with the given code, in order.
    pub fn all(&self, code: char) -> (r: Vec<String>)
        ensures
            r@.map_values(|v: String| v@) == sf_all(self@.subfields, code),
    {
        broadcast use vstd::seq_lib::group_seq_properties;

        let mut r: Vec<String> = Vec::new();
        let n = self.subfields.len();
        assert(self@.subfields.take(0int) =~= Seq::empty());
        for i in 0..n
            invariant
                n == self.subfields.len(),
                r@.map_values(|v: String| v@) == sf_all(self@.subfields.take(i as int), code),
        {
            proof {
                assert(self@.subfields.take(i as int + 1) =~= self@.subfields.take(
                    i as int,
                ).push(self@.subfields[i as int]));
            }
            let ghost old_r = r@;
            if self.subfields[i].code == code {
                r.push(self.subfields[i].value.clone());
                proof {
                    old_r.lemma_push_map_commute(
                        |v: String| v@,
                        r@[old_r.len() as int],
                    );
                }
            }
            proof {
                let pred = |s: SubfieldV| s.code == code;
                let vf = |s: SubfieldV| s.value;
                self@.subfields.take(i as int).lemma_filter_push(
                    self@.subfields[i as int],
                    pred,
                );
                self@.subfields.take(i as int).filter(pred).lemma_push_map_commute(
                    vf,
                    self@.subfields[i as int],
                );
                assert(sf_all(self@.subfields.take(i as int), code) == self@.subfields.take(
                    i as int,
                ).filter(pred).map_values(|s: SubfieldV| s.value));
                assert(r@.map_values(|v: String| v@) =~= sf_all(
                    self@.subfields.take(i as int + 1),
                    code,
                ));
            }
        }
        proof {
            assert(self@.subfields.take(n as int) =~= self@.subfields);
        }
        r
    }
}

impl Record {
    /// The first field carrying the given tag.
    pub fn first(&self, tag: &str) -> (r: Option<&Field>)
        ensures
            match r {
                Some(f) => rec_first_field(self@, tag@) == Some(f@),
                None => rec_first_field(self@, tag@) is None,
            },
    {
        let n = self.fields.len();
        assert(self@.skip(0int) =~= self@);
        for i in 0..n
            invariant
                n == self.fields.len(),
                rec_first_field(self@, tag@) == rec_first_field(self@.skip(i as int), tag@),
        {
            proof {
                assert(self@.skip(i as int)[0] == self@[i as int]);
            }
            if str_eq(self.fields[i].tag.as_str(), tag) {
                return Some(&self.fields[i]);
            }
            proof {
                assert(self@.skip(i as int).drop_first() =~= self@.skip(i as int + 1));
            }
        }
        proof {
            assert(self@.skip(n as int).len() == 0);
        }
        None
    }

    /// All fields carrying the given tag, in record order.
    pub fn all(&self, tag: &str) -> (r: Vec<&Field>)
        ensures
            r@.map_values(|f: &Field| f@) == rec_fields(self@, tag@),
    {
        let mut r: Vec<&Field> = Vec::new();
        let n = self.fields.len();
        assert(self@.take(0int) =~= Seq::empty());
        for i in 0..n
            invariant
                n == self.fields.len(),
                r@.map_values(|f: &Field| f@) == rec_fields(self@.take(i as int), tag@),
        {
            proof {
                assert(self@.take(i as int + 1) =~= self@.take(i as int).push(self@[i as int]));
            }
            if str_eq(self.fields[i].tag.as_str(), tag) {
                r.push(&self.fields[i]);
            }
            proof {
                let pred = |f: FieldV| f.tag == tag@;
                self@.take(i as int).lemma_filter_push(self@[i as int], pred);
                assert(r@.map_values(|f: &Field| f@) =~= rec_fields(
                    self@.take(i as int + 1),
                    tag@,
                ));
            }
        }
        proof {
            assert(self@.take(n as int) =~= self@);
        }
        r
    }

    /// The first value reachable under the given tag and subfield code.
    pub fn first_path_value(&self, tag: &str, code: char) -> (r: Option<&String>)
        ensures
            match r {
                Some(v) => rec_first_path_value(self@, tag@, code) == Some(v@),
                None => rec_first_path_value(self@, tag@, code) is None,
            },
    {
        let n = self.fields.len();
        assert(self@.skip(0int) =~= self@);
        for i in 0..n
            invariant
                n == self.fields.len(),
                rec_first_path_value(self@, tag@, code) == rec_first_path_value(
                    self@.skip(i as int),
                    tag@,
                    code,
                ),
        {
            proof {
                assert(self@.skip(i as int)[0] == self@[i as int]);
            }
            if str_eq(self.fields[i].tag.as_str(), tag) {
                let v = self.fields[i].first(code);
                if let Some(v) = v {
                    return Some(v);
                }
            }
            proof {
                assert(self@.skip(i as int).drop_first() =~= self@.skip(i as int + 1));
            }
        }
        proof {
            assert(self@.skip(n as int).len() == 0);
        }
        None
    }

    /// Every value reachable under the given tag and subfield code, cloned,
    /// in record order.
    pub fn path_values(&self, tag: &str, code: char) -> (r: Vec<String>)
        ensures
            r@.map_values(|v: String| v@) == rec_path_values(self@, tag@, code),
    {
        let mut r: Vec<String> = Vec::new();
        let n = self.fields.len();
        assert(rec_path_values(self@.take(0int), tag@, code) =~= Seq::empty());
        for i in 0..n
            invariant
                n == self.fields.len(),
                r@.map_values(|v: String| v@) == rec_path_values(self@.take(i as int), tag@, code),
        {
            proof {
                assert(self@.take(i as int + 1).drop_last() =~= self@.take(i as int));
                assert(self@.take(i as int + 1).last() == self@[i as int]);
            }
            if str_eq(self.fields[i].tag.as_str(), tag) {
                let mut vs = self.fields[i].all(code);
                let m = vs.len();
                proof {
                    assert(r@.map_values(|v: String| v@) + vs@.map_values(|v: String| v@).take(
                        0int,
                    ) =~= r@.map_values(|v: String| v@));
                }
                for k in 0..m
                    invariant
                        m == vs.len(),
                        r@.map_values(|v: String| v@) == rec_path_values(
                            self@.take(i as int),
                            tag@,
                            code,
                        ) + vs@.map_values(|v: String| v@).take(k as int),
                        vs@.map_values(|v: String| v@) == sf_all(
                            self@.take(i as int + 1).last().subfields,
                            code,
                        ),
                {
                    proof {
                        assert(vs@.map_values(|v: String| v@).take(k as int + 1)
                            =~= vs@.map_values(|v: String| v@).take(k as int).push(vs@[k as int]@));
                    }
                    let ghost old_r = r@;
                    r.push(vs[k].clone());
                    proof {
                        old_r.lemma_push_map_commute(|v: String| v@, r@[old_r.len() as int]);
                        assert(r@.map_values(|v: String| v@) =~= rec_path_values(
                            self@.take(i as int),
                            tag@,
                            code,
                        ) + vs@.map_values(|v: String| v@).take(k as int + 1));
                    }
                }
                proof {
                    assert(vs@.map_values(|v: String| v@).take(m as int) =~= vs@.map_values(
                        |v: String| v@,
                    ));
                    assert(r@.map_values(|v: String| v@) =~= rec_path_values(
                        self@.take(i as int + 1),
                        tag@,
                        code,
                    ));
                }
            } else {
                proof {
                    assert(r@.map_values(|v: String| v@) + Seq::<Seq<char>>::empty() =~= r@
                        .map_values(|v: String| v@));
                    assert(r@.map_values(|v: String| v@) =~= rec_path_values(
                        self@.take(i as int + 1),
                        tag@,
                        code,
                    ));
                }
            }
        }
        proof {
            assert(self@.take(n as int) =~= self@);
        }
        r
    }
}

} // verus!
