use vstd::prelude::*;

use vstd::string::StrSliceExecFns;

use crate::concept::{build_uri, concept_uri};
use crate::config::Config;
use crate::pattern::{regex_matches, regex_valid, TextPattern};
use crate::record::{rec_path_values, Record};
use crate::text::push_char;

verus! {

/// Static description of one named collection, as it appears in the
/// configuration file.
#[derive(Debug)]
pub struct CollectionSpec {
    /// Display name of the collection.
    pub name: String,
    /// Base locator prepended to extracted group keys.
    pub base_uri: String,
    /// Field path (tag and subfield code, written `tag.code`) whose values
    /// key the groups.
    pub path: String,
    /// Keys are kept only when they match this pattern.
    pub filter: Option<String>,
    /// Smallest member count a group needs to appear in the projection.
    pub minimum: Option<usize>,
    /// Largest member count a group may have to appear in the projection.
    pub maximum: Option<usize>,
}

/// The index of the first full stop, or -1 when there is none.
pub open spec fn first_dot(s: Seq<char>) -> int
    decreases s.len(),
{
    if s.len() == 0 {
        -1
    } else if s[0] == '.' {
        0
    } else if first_dot(s.drop_first()) == -1 {
        -1
    } else {
        first_dot(s.drop_first()) + 1
    }
}

/// How a path text reads: a nonempty tag, one full stop, and exactly one
/// subfield code after it.
pub open spec fn parse_path(s: Seq<char>) -> Option<(Seq<char>, char)> {
    let d = first_dot(s);
    if d >= 1 && s.len() == d + 2 {
        Some((s.subrange(0, d), s[d + 1]))
    } else {
        None
    }
}

/// A `tag.code` path selecting values across a record.
#[derive(Debug)]
pub struct KeyPath {
    pub tag: String,
    pub code: char,
}

impl KeyPath {
    /// Reads a path text of the form `tag.code`.
    #[verifier::loop_isolation(false)]
    pub fn parse(s: &str) -> (r: Option<KeyPath>)
        ensures
            match r {
                Some(p) => parse_path(s@) == Some((p.tag@, p.code)),
                None => parse_path(s@) is None,
            },
    {
        let n = s.unicode_len();
        let mut d: usize = 0;
        let mut found = false;
        proof {
            assert(s@.skip(0int) =~= s@);
        }
        for i in 0..n
            invariant
                n == s@.len(),
                !found ==> forall|j: int| 0 <= j < i ==> s@[j] != '.',
                found ==> d < i && s@[d as int] == '.' && (forall|j: int|
                    0 <= j < d ==> s@[j] != '.'),
        {
            if !found && s.get_char(i) == '.' {
                d = i;
                found = true;
            }
        }
        proof {
            if found {
                lemma_first_dot_at(s@, d as int);
            } else {
                lemma_first_dot_none(s@);
            }
        }
        if !found {
            return None;
        }
        if d < 1 || n < 2 || d != n - 2 {
            return None;
        }
        let tag_str = s.substring_char(0, d);
        let code = s.get_char(d + 1);
        let mut tag = String::new();
        tag.append(tag_str);
        proof {
            assert(tag@ =~= s@.subrange(0, d as int));
        }
        Some(KeyPath { tag, code })
    }
}

/// Where the first full stop stands, given a witness.
proof fn lemma_first_dot_at(s: Seq<char>, d: int)
    requires
        0 <= d < s.len(),
        s[d] == '.',
        forall|j: int| 0 <= j < d ==> s[j] != '.',
    ensures
        first_dot(s) == d,
    decreases s.len(),
{
    if d > 0 {
        lemma_first_dot_at(s.drop_first(), d - 1);
    }
}

/// A text without a full stop has none to find.
proof fn lemma_first_dot_none(s: Seq<char>)
    requires
        forall|j: int| 0 <= j < s.len() ==> s[j] != '.',
    ensures
        first_dot(s) == -1,
    decreases s.len(),
{
    if s.len() > 0 {
        lemma_first_dot_none(s.drop_first());
    }
}

/// The group table as a map from group key to member list.
pub open spec fn map_of_pairs(s: Seq<(Seq<char>, Seq<Seq<char>>)>) -> Map<
    Seq<char>,
    Seq<Seq<char>>,
>
    decreases s.len(),
{
    if s.len() == 0 {
        Map::empty()
    } else {
        map_of_pairs(s.drop_last()).insert(s.last().0, s.last().1)
    }
}

/// No two entries of the table share a key.
pub open spec fn unique_keys(s: Seq<(Seq<char>, Seq<Seq<char>>)>) -> bool {
    forall|a: int, b: int| 0 <= a < b < s.len() ==> s[a].0 != s[b].0
}

/// With unique keys, the map reads each entry back.
proof fn lemma_map_of_pairs_lookup(s: Seq<(Seq<char>, Seq<Seq<char>>)>, i: int)
    requires
        0 <= i < s.len(),
        unique_keys(s),
    ensures
        map_of_pairs(s).dom().contains(s[i].0),
        map_of_pairs(s)[s[i].0] == s[i].1,
    decreases s.len(),
{
    if i < s.len() - 1 {
        assert(unique_keys(s.drop_last()));
        lemma_map_of_pairs_lookup(s.drop_last(), i);
        assert(s.drop_last()[i] == s[i]);
        assert(s.last().0 != s[i].0);
    }
}

/// A key on no entry is not in the map.
proof fn lemma_map_of_pairs_absent(s: Seq<(Seq<char>, Seq<Seq<char>>)>, k: Seq<char>)
    requires
        forall|i: int| 0 <= i < s.len() ==> s[i].0 != k,
    ensures
        !map_of_pairs(s).dom().contains(k),
    decreases s.len(),
{
    if s.len() > 0 {
        lemma_map_of_pairs_absent(s.drop_last(), k);
    }
}

/// With unique keys, replacing one entry's members is one map insertion.
proof fn lemma_map_of_pairs_update(
    s: Seq<(Seq<char>, Seq<Seq<char>>)>,
    i: int,
    v: Seq<Seq<char>>,
)
    requires
        0 <= i < s.len(),
        unique_keys(s),
    ensures
        map_of_pairs(s.update(i, (s[i].0, v))) =~= map_of_pairs(s).insert(s[i].0, v),
    decreases s.len(),
{
    let u = s.update(i, (s[i].0, v));
    if i == s.len() - 1 {
        assert(u.drop_last() =~= s.drop_last());
        assert(u.last() == (s[i].0, v));
    } else {
        assert(unique_keys(s.drop_last()));
        lemma_map_of_pairs_update(s.drop_last(), i, v);
        assert(u.drop_last() =~= s.drop_last().update(i, (s[i].0, v)));
        assert(u.last() == s.last());
        assert(s.last().0 != s[i].0);
        assert(map_of_pairs(u) =~= map_of_pairs(s).insert(s[i].0, v));
    }
}

/// Appending an entry with a fresh key is one map insertion.
proof fn lemma_map_of_pairs_push(
    s: Seq<(Seq<char>, Seq<Seq<char>>)>,
    k: Seq<char>,
    v: Seq<Seq<char>>,
)
    ensures
        map_of_pairs(s.push((k, v))) =~= map_of_pairs(s).insert(k, v),
{
    assert(s.push((k, v)).drop_last() =~= s);
}

/// The keys a list of path values yields: values matching the filter, each
/// prefixed with the base locator, in order.
pub open spec fn keys_of_values(
    vals: Seq<Seq<char>>,
    filter: Option<Seq<char>>,
    base: Seq<char>,
) -> Seq<Seq<char>>
    decreases vals.len(),
{
    if vals.len() == 0 {
        Seq::empty()
    } else if (match filter {
        Some(p) => regex_matches(p, vals.last()),
        None => true,
    }) {
        keys_of_values(vals.drop_last(), filter, base).push(base + vals.last())
    } else {
        keys_of_values(vals.drop_last(), filter, base)
    }
}

/// The group keys a record contributes to a collection: the values at the
/// configured path, kept when they match the filter, each prefixed with the
/// collection's base locator.
pub open spec fn group_keys(
    rv: Seq<crate::record::FieldV>,
    tag: Seq<char>,
    code: char,
    filter: Option<Seq<char>>,
    base: Seq<char>,
) -> Seq<Seq<char>> {
    keys_of_values(rec_path_values(rv, tag, code), filter, base)
}

/// The group table after appending one member under every listed key,
/// creating groups as needed.
pub open spec fn after_add(
    m: Map<Seq<char>, Seq<Seq<char>>>,
    keys: Seq<Seq<char>>,
    uri: Seq<char>,
) -> Map<Seq<char>, Seq<Seq<char>>>
    decreases keys.len(),
{
    if keys.len() == 0 {
        m
    } else {
        let m2 = after_add(m, keys.drop_last(), uri);
        m2.insert(
            keys.last(),
            (if m2.dom().contains(keys.last()) {
                m2[keys.last()]
            } else {
                Seq::empty()
            }).push(uri),
        )
    }
}

/// Whether a member count lies within the configured bounds; an absent bound
/// is unbounded on that side.
pub open spec fn within_bounds(count: int, minimum: Option<usize>, maximum: Option<usize>) -> bool {
    (match minimum {
        Some(lo) => count >= lo,
        None => true,
    }) && (match maximum {
        Some(hi) => count <= hi,
        None => true,
    })
}

/// The groups whose member counts lie within the bounds, in table order.
pub open spec fn projected(
    s: Seq<(Seq<char>, Seq<Seq<char>>)>,
    minimum: Option<usize>,
    maximum: Option<usize>,
) -> Seq<(Seq<char>, Seq<Seq<char>>)>
    decreases s.len(),
{
    if s.len() == 0 {
        Seq::empty()
    } else if within_bounds(s.last().1.len() as int, minimum, maximum) {
        projected(s.drop_last(), minimum, maximum).push(s.last())
    } else {
        projected(s.drop_last(), minimum, maximum)
    }
}

/// One named collection with its accumulated group table.
#[derive(Debug)]
pub struct Collection {
    pub name: String,
    pub base_uri: String,
    pub filter: Option<TextPattern>,
    pub path: KeyPath,
    pub items: Vec<(String, Vec<String>)>,
    pub minimum: Option<usize>,
    pub maximum: Option<usize>,
}

impl Collection {
    /// The group table as a sequence of (key, members) pairs, in key
    /// insertion order.
    pub open spec fn items_seq(&self) -> Seq<(Seq<char>, Seq<Seq<char>>)> {
        self.items@.map_values(
            |p: (String, Vec<String>)| (p.0@, p.1@.map_values(|v: String| v@)),
        )
    }

    /// The group table as a map.
    pub open spec fn items_map(&self) -> Map<Seq<char>, Seq<Seq<char>>> {
        map_of_pairs(self.items_seq())
    }

    /// The configured filter's pattern, if one is set.
    pub open spec fn filter_pat(&self) -> Option<Seq<char>> {
        match self.filter {
            Some(p) => Some(p.pattern()),
            None => None,
        }
    }

    /// No two groups share a key.
    pub open spec fn wf(&self) -> bool {
        unique_keys(self.items_seq())
    }

    /// Starts a collection with an empty group table.
    pub fn new(
        name: String,
        base_uri: String,
        filter: Option<TextPattern>,
        path: KeyPath,
        minimum: Option<usize>,
        maximum: Option<usize>,
    ) -> (r: Collection)
        ensures
            r.name@ == name@,
            r.base_uri@ == base_uri@,
            r.filter == filter,
            r.path == path,
            r.minimum == minimum,
            r.maximum == maximum,
            r.items_seq().len() == 0,
            r.items_map() =~= Map::<Seq<char>, Seq<Seq<char>>>::empty(),
            r.wf(),
    {
        let r = Collection { name, base_uri, filter, path, items: Vec::new(), minimum, maximum };
        proof {
            assert(r.items_seq() =~= Seq::empty());
        }
        r
    }

    /// Builds a collection from its configured description: the path must
    /// read as `tag.code` and the filter, when given, must compile.
    pub fn try_new(cs: &CollectionSpec) -> (r: Result<Collection, String>)
        ensures
            match r {
                Ok(c) => {
                    &&& parse_path(cs.path@) == Some((c.path.tag@, c.path.code))
                    &&& match cs.filter {
                        Some(p) => regex_valid(p@) && c.filter_pat() == Some(p@),
                        None => c.filter is None,
                    }
                    &&& c.name@ == cs.name@
                    &&& c.base_uri@ == cs.base_uri@
                    &&& c.minimum == cs.minimum
                    &&& c.maximum == cs.maximum
                    &&& c.items_seq().len() == 0
                    &&& c.wf()
                },
                Err(m) => {
                    &&& (parse_path(cs.path@) is None || (cs.filter matches Some(p)
                        && !regex_valid(p@)))
                    &&& (parse_path(cs.path@) is None ==> m@ == "Invalid path"@)
                    &&& (parse_path(cs.path@) is Some ==> m@ == "Invalid Regex"@)
                },
            },
    {
        let path = match KeyPath::parse(cs.path.as_str()) {
            Some(p) => p,
            None => { return Err("Invalid path".to_owned()) },
        };
        let filter = match &cs.filter {
            Some(p) => match TextPattern::new(p.as_str()) {
                Some(tp) => Some(tp),
                None => { return Err("Invalid Regex".to_owned()) },
            },
            None => None,
        };
        Ok(
            Collection::new(
                cs.name.clone(),
                cs.base_uri.clone(),
                filter,
                path,
                cs.minimum,
                cs.maximum,
            ),
        )
    }

    /// The collection's display name.
    pub fn name(&self) -> (r: &str)
        ensures
            r@ == self.name@,
    {
        self.name.as_str()
    }

    /// The base locator group keys are built with.
    pub fn base_uri(&self) -> (r: &str)
        ensures
            r@ == self.base_uri@,
    {
        self.base_uri.as_str()
    }

    /// The configured field path.
    pub fn path(&self) -> (r: &KeyPath)
        ensures
            r == &self.path,
    {
        &self.path
    }

    /// The accumulated group table.
    pub fn items(&self) -> (r: &Vec<(String, Vec<String>)>)
        ensures
            r == &self.items,
    {
        &self.items
    }

    /// The configured lower size bound.
    pub fn minimum(&self) -> (r: &Option<usize>)
        ensures
            r == &self.minimum,
    {
        &self.minimum
    }

    /// The configured upper size bound.
    pub fn maximum(&self) -> (r: &Option<usize>)
        ensures
            r == &self.maximum,
    {
        &self.maximum
    }

    /// Appends one member under a key, creating the group when it is new.
    #[verifier::loop_isolation(false)]
    fn push_member(&mut self, key: String, uri: &String)
        requires
            old(self).wf(),
        ensures
            final(self).wf(),
            final(self).items_map() =~= old(self).items_map().insert(
                key@,
                (if old(self).items_map().dom().contains(key@) {
                    old(self).items_map()[key@]
                } else {
                    Seq::empty()
                }).push(uri@),
            ),
            final(self).name == old(self).name,
            final(self).base_uri == old(self).base_uri,
            final(self).filter == old(self).filter,
            final(self).path == old(self).path,
            final(self).minimum == old(self).minimum,
            final(self).maximum == old(self).maximum,
    {
        let n = self.items.len();
        for i in 0..n
            invariant
                n == self.items.len(),
                forall|j: int| 0 <= j < i ==> self.items_seq()[j].0 != key@,
                self == old(self),
        {
            if crate::text::str_eq(self.items[i].0.as_str(), key.as_str()) {
                let mut pair = self.items.remove(i);
                pair.1.push(uri.clone());
                self.items.insert(i, pair);
                proof {
                    let osq = old(self).items_seq();
                    let upd = (osq[i as int].0, osq[i as int].1.push(uri@));
                    old(self).items@[i as int].1@.lemma_push_map_commute(
                        |v: String| v@,
                        self.items@[i as int].1@.last(),
                    );
                    assert(self.items_seq() =~= osq.update(i as int, upd));
                    lemma_map_of_pairs_lookup(osq, i as int);
                    lemma_map_of_pairs_update(osq, i as int, osq[i as int].1.push(uri@));
                    assert forall|a: int, b: int|
                        0 <= a < b < self.items_seq().len() implies self.items_seq()[a].0
                        != self.items_seq()[b].0 by {
                        assert(osq[a].0 != osq[b].0);
                    }
                }
                return ;
            }
        }
        let mut members: Vec<String> = Vec::new();
        members.push(uri.clone());
        let ghost osq = old(self).items_seq();
        self.items.push((key, members));
        proof {
            assert(members@.map_values(|v: String| v@) =~= seq![uri@]);
            assert(self.items_seq() =~= osq.push((key@, seq![uri@])));
            lemma_map_of_pairs_absent(osq, key@);
            lemma_map_of_pairs_push(osq, key@, seq![uri@]);
            assert(Seq::<Seq<char>>::empty().push(uri@) =~= seq![uri@]);
            assert forall|a: int, b: int|
                0 <= a < b < self.items_seq().len() implies self.items_seq()[a].0
                != self.items_seq()[b].0 by {
                if b < osq.len() {
                    assert(osq[a].0 != osq[b].0);
                } else {
                    assert(osq[a].0 != key@);
                }
            }
        }
    }

    /// Observes one record: every value at the configured path that passes
    /// the filter names a group, and the record's own identifier is appended
    /// to each named group. A record whose identifier cannot be built
    /// contributes nothing.
    #[verifier::loop_isolation(false)]
    pub fn add_record(&mut self, record: &Record, config: &Config)
        requires
            old(self).wf(),
        ensures
            final(self).wf(),
            final(self).items_map() =~= (if group_keys(
                record@,
                old(self).path.tag@,
                old(self).path.code,
                old(self).filter_pat(),
                old(self).base_uri@,
            ).len() > 0 && concept_uri(record@, config.concept.base_uri@) is Some {
                after_add(
                    old(self).items_map(),
                    group_keys(
                        record@,
                        old(self).path.tag@,
                        old(self).path.code,
                        old(self).filter_pat(),
                        old(self).base_uri@,
                    ),
                    concept_uri(record@, config.concept.base_uri@).unwrap(),
                )
            } else {
                old(self).items_map()
            }),
            final(self).name == old(self).name,
            final(self).base_uri == old(self).base_uri,
            final(self).filter == old(self).filter,
            final(self).path == old(self).path,
            final(self).minimum == old(self).minimum,
            final(self).maximum == old(self).maximum,
    {
        let values = record.path_values(self.path.tag.as_str(), self.path.code);
        let ghost vv = values@.map_values(|v: String| v@);
        let mut keys: Vec<String> = Vec::new();
        let n = values.len();
        proof {
            assert(vv.take(0int) =~= Seq::empty());
            assert(keys@.map_values(|v: String| v@) =~= keys_of_values(
                vv.take(0int),
                old(self).filter_pat(),
                old(self).base_uri@,
            ));
        }
        for i in 0..n
            invariant
                n == values.len(),
                vv == values@.map_values(|v: String| v@),
                keys@.map_values(|v: String| v@) == keys_of_values(
                    vv.take(i as int),
                    old(self).filter_pat(),
                    old(self).base_uri@,
                ),
                self == old(self),
        {
            proof {
                assert(vv.take(i as int + 1).drop_last() =~= vv.take(i as int));
                assert(vv.take(i as int + 1).last() == vv[i as int]);
                assert(values@[i as int]@ == vv[i as int]);
            }
            let kept = match &self.filter {
                Some(f) => f.is_match(values[i].as_str()),
                None => true,
            };
            if kept {
                let mut key = self.base_uri.clone();
                key.append(values[i].as_str());
                let ghost old_keys = keys@;
                keys.push(key);
                proof {
                    old_keys.lemma_push_map_commute(
                        |v: String| v@,
                        keys@[old_keys.len() as int],
                    );
                }
            }
            proof {
                assert(keys@.map_values(|v: String| v@) =~= keys_of_values(
                    vv.take(i as int + 1),
                    old(self).filter_pat(),
                    old(self).base_uri@,
                ));
            }
        }
        proof {
            assert(vv.take(n as int) =~= vv);
        }
        let ghost gk = keys@.map_values(|v: String| v@);
        proof {
            assert(gk =~= group_keys(
                record@,
                old(self).path.tag@,
                old(self).path.code,
                old(self).filter_pat(),
                old(self).base_uri@,
            ));
        }
        if keys.is_empty() {
            return ;
        }
        let uri = match build_uri(record, config) {
            Ok(u) => u,
            Err(_) => { return },
        };
        let m = keys.len();
        proof {
            assert(after_add(old(self).items_map(), gk.take(0int), uri@) =~= old(
                self,
            ).items_map());
        }
        for i in 0..m
            invariant
                m == keys.len(),
                gk == keys@.map_values(|v: String| v@),
                self.items_map() =~= after_add(old(self).items_map(), gk.take(i as int), uri@),
                self.wf(),
                uri@ == concept_uri(record@, config.concept.base_uri@).unwrap(),
                self.name == old(self).name,
                self.base_uri == old(self).base_uri,
                self.filter == old(self).filter,
                self.path == old(self).path,
                self.minimum == old(self).minimum,
                self.maximum == old(self).maximum,
        {
            proof {
                assert(gk.take(i as int + 1).drop_last() =~= gk.take(i as int));
                assert(gk.take(i as int + 1).last() == gk[i as int]);
                assert(keys@[i as int]@ == gk[i as int]);
            }
            let key = keys[i].clone();
            self.push_member(key, &uri);
            proof {
                assert(self.items_map() =~= after_add(
                    old(self).items_map(),
                    gk.take(i as int + 1),
                    uri@,
                ));
            }
        }
        proof {
            assert(gk.take(m as int) =~= gk);
        }
    }

    /// The final group table: only groups whose member count lies within the
    /// configured bounds survive; the others were tracked but are left out.
    #[verifier::loop_isolation(false)]
    pub fn projection(&self) -> (r: Vec<(String, Vec<String>)>)
        ensures
            r@.map_values(|p: (String, Vec<String>)| (p.0@, p.1@.map_values(|v: String| v@)))
                == projected(self.items_seq(), self.minimum, self.maximum),
    {
        let mut r: Vec<(String, Vec<String>)> = Vec::new();
        let n = self.items.len();
        proof {
            assert(self.items_seq().take(0int) =~= Seq::empty());
            assert(r@.map_values(|p: (String, Vec<String>)| (p.0@, p.1@.map_values(|v: String| v@)))
                =~= projected(self.items_seq().take(0int), self.minimum, self.maximum));
        }
        for i in 0..n
            invariant
                n == self.items.len(),
                r@.map_values(|p: (String, Vec<String>)| (p.0@, p.1@.map_values(|v: String| v@)))
                    == projected(self.items_seq().take(i as int), self.minimum, self.maximum),
        {
            proof {
                assert(self.items_seq().take(i as int + 1).drop_last() =~= self.items_seq().take(
                    i as int,
                ));
                assert(self.items_seq().take(i as int + 1).last() == self.items_seq()[i as int]);
            }
            let count = self.items[i].1.len();
            let lo_ok = match self.minimum {
                Some(lo) => count >= lo,
                None => true,
            };
            let hi_ok = match self.maximum {
                Some(hi) => count <= hi,
                None => true,
            };
            if lo_ok && hi_ok {
                let key = self.items[i].0.clone();
                let mut members: Vec<String> = Vec::new();
                let k = self.items[i].1.len();
                proof {
                    assert(self.items@[i as int].1@.take(0int) =~= Seq::empty());
                    assert(members@.map_values(|v: String| v@) =~= self.items@[
                        i as int].1@.map_values(|v: String| v@).take(0int));
                }
                for j in 0..k
                    invariant
                        k == self.items@[i as int].1.len(),
                        i < self.items.len(),
                        n == self.items.len(),
                        members@.map_values(|v: String| v@) == self.items@[
                            i as int].1@.map_values(|v: String| v@).take(j as int),
                {
                    let ghost old_members = members@;
                    members.push(self.items[i].1[j].clone());
                    proof {
                        old_members.lemma_push_map_commute(
                            |v: String| v@,
                            members@[old_members.len() as int],
                        );
                        assert(members@.map_values(|v: String| v@) =~= self.items@[
                            i as int].1@.map_values(|v: String| v@).take(j as int + 1));
                    }
                }
                proof {
                    assert(self.items@[i as int].1@.map_values(|v: String| v@).take(k as int)
                        =~= self.items@[i as int].1@.map_values(|v: String| v@));
                }
                let ghost old_r = r@;
                r.push((key, members));
                proof {
                    old_r.lemma_push_map_commute(
                        |p: (String, Vec<String>)| (p.0@, p.1@.map_values(|v: String| v@)),
                        r@[old_r.len() as int],
                    );
                }
            }
            proof {
                assert(r@.map_values(
                    |p: (String, Vec<String>)| (p.0@, p.1@.map_values(|v: String| v@)),
                ) =~= projected(self.items_seq().take(i as int + 1), self.minimum, self.maximum));
            }
        }
        proof {
            assert(self.items_seq().take(n as int) =~= self.items_seq());
        }
        r
    }
}

} // verus!
