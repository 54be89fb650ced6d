use vstd::prelude::*;

use vstd::string::StrSliceExecFns;

use crate::record::{sf_contains, sf_first, Field, FieldV};

verus! {

/// The direction of a cross-reference edge.
#[derive(Debug, Clone, Copy, PartialEq, Eq, Structural)]
pub enum RelationKind {
    /// The target is the broader entity.
    Broader,
    /// The target is the narrower entity.
    Narrower,
    /// The target is otherwise related.
    Related,
}

/// How a role text classifies: roles starting with the broader marker map to
/// `Broader`, every other role maps to `Related`.
pub open spec fn role_kind(role: Seq<char>) -> RelationKind {
    if role.len() >= 2 && role[0] == 'o' && role[1] == 'b' {
        RelationKind::Broader
    } else {
        RelationKind::Related
    }
}

impl RelationKind {
    /// Classifies a role text by its prefix.
    pub fn from_role(role: &str) -> (r: RelationKind)
        ensures
            r == role_kind(role@),
    {
        if role.unicode_len() >= 2 && role.get_char(0) == 'o' && role.get_char(1) == 'b' {
            RelationKind::Broader
        } else {
            RelationKind::Related
        }
    }
}

/// Ghost image of a relation.
pub struct RelationV {
    pub uri: Seq<char>,
    pub kind: RelationKind,
}

/// A typed edge from a concept to another record's identifier.
#[derive(Debug)]
pub struct Relation {
    pub uri: String,
    pub kind: RelationKind,
}

impl View for Relation {
    type V = RelationV;

    open spec fn view(&self) -> RelationV {
        RelationV { uri: self.uri@, kind: self.kind }
    }
}

/// The relation one field occurrence contributes, before the base locator is
/// prepended: nothing unless both the reference subfield and the role
/// subfield are present.
pub open spec fn field_relation(f: FieldV) -> Option<RelationV> {
    if sf_contains(f.subfields, '9') && sf_contains(f.subfields, '4') {
        Some(
            RelationV {
                uri: sf_first(f.subfields, '9').unwrap(),
                kind: role_kind(sf_first(f.subfields, '4').unwrap()),
            },
        )
    } else {
        None
    }
}

impl Relation {
    /// Builds a relation from a target identifier and a direction.
    pub fn new(uri: String, kind: RelationKind) -> (r: Relation)
        ensures
            r@.uri == uri@,
            r@.kind == kind,
    {
        Relation { uri, kind }
    }

    /// The target identifier.
    pub fn uri(&self) -> (r: &str)
        ensures
            r@ == self@.uri,
    {
        self.uri.as_str()
    }

    /// The direction of the edge.
    pub fn kind(&self) -> (r: &RelationKind)
        ensures
            *r == self@.kind,
    {
        &self.kind
    }

    /// Extracts the relation one field occurrence carries: nothing when the
    /// reference subfield or the role subfield is missing.
    pub fn from_field(field: &Field) -> (r: Option<Relation>)
        ensures
            match r {
                Some(rel) => field_relation(field@) == Some(rel@),
                None => field_relation(field@) is None,
            },
    {
        if !field.contains_code('9') || !field.contains_code('4') {
            return None;
        }
        let idn = field.first('9');
        let role = field.first('4');
        proof {
            crate::record::lemma_sf_first_contains(field@.subfields, '9');
            crate::record::lemma_sf_first_contains(field@.subfields, '4');
        }
        match (idn, role) {
            (Some(idn), Some(role)) => Some(
                Relation { uri: idn.clone(), kind: RelationKind::from_role(role.as_str()) },
            ),
            _ => {
                proof {
                    assert(false);
                }
                None
            },
        }
    }
}

} // verus!
