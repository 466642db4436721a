//! The schema snapshot: attribute definitions keyed both by entid and by
//! ident, with bidirectional lookup.

use vstd::prelude::*;
use crate::types::{Entid, KnownEntid, KeywordV, NamespacedKeyword, ValueType};

verus! {

/// Uniqueness constraint of an attribute.
#[derive(Clone, Copy, PartialEq, Eq, Structural, Debug)]
pub enum Uniqueness {
    NonUnique,
    UniqueValue,
    UniqueIdentity,
}

/// The definition of an attribute: value type, cardinality, uniqueness and
/// indexing hints.
#[derive(Clone, Copy, PartialEq, Eq, Structural, Debug)]
pub struct Attribute {
    pub value_type: ValueType,
    pub multival: bool,
    pub unique: Uniqueness,
    pub index: bool,
    pub fulltext: bool,
    pub component: bool,
}

impl Attribute {
    /// A cardinality-one, non-unique, unindexed attribute of the given
    /// value type.
    pub fn simple(value_type: ValueType) -> (r: Attribute)
        ensures
            r == (Attribute {
                value_type,
                multival: false,
                unique: Uniqueness::NonUnique,
                index: false,
                fulltext: false,
                component: false,
            }),
    {
        Attribute {
            value_type,
            multival: false,
            unique: Uniqueness::NonUnique,
            index: false,
            fulltext: false,
            component: false,
        }
    }
}

/// One schema row: an attribute definition under its entid and its ident.
#[derive(Debug)]
pub struct SchemaEntry {
    pub entid: Entid,
    pub ident: NamespacedKeyword,
    pub attribute: Attribute,
}

/// The mathematical value of a [`SchemaEntry`].
#[verifier::ext_equal]
pub struct SchemaEntryV {
    pub entid: Entid,
    pub ident: KeywordV,
    pub attribute: Attribute,
}

impl View for SchemaEntry {
    type V = SchemaEntryV;

    open spec fn view(&self) -> SchemaEntryV {
        SchemaEntryV { entid: self.entid, ident: self.ident@, attribute: self.attribute }
    }
}

impl Clone for SchemaEntry {
    fn clone(&self) -> (r: Self)
        ensures
            r@ == self@,
    {
        SchemaEntry { entid: self.entid, ident: self.ident.clone(), attribute: self.attribute }
    }
}

/// An immutable snapshot of the store's schema.
#[derive(Debug)]
pub struct Schema {
    pub entries: Vec<SchemaEntry>,
}

impl View for Schema {
    type V = Seq<SchemaEntryV>;

    open spec fn view(&self) -> Seq<SchemaEntryV> {
        self.entries@.map_values(|e: SchemaEntry| e@)
    }
}

impl Schema {
    pub open spec fn spec_len(&self) -> nat {
        self@.len()
    }

    /// Some row carries `entid`.
    pub open spec fn contains_entid(&self, entid: Entid) -> bool {
        exists|i: int| 0 <= i < self@.len() && self@[i].entid == entid
    }

    /// Some row carries `ident`.
    pub open spec fn contains_ident(&self, ident: KeywordV) -> bool {
        exists|i: int| 0 <= i < self@.len() && self@[i].ident == ident
    }

    /// The row carrying `entid`, if any.
    pub open spec fn entry_for_entid(&self, entid: Entid) -> Option<SchemaEntryV> {
        if self.contains_entid(entid) {
            Some(self@[choose|i: int| 0 <= i < self@.len() && self@[i].entid == entid])
        } else {
            None
        }
    }

    /// The row carrying `ident`, if any.
    pub open spec fn entry_for_ident(&self, ident: KeywordV) -> Option<SchemaEntryV> {
        if self.contains_ident(ident) {
            Some(self@[choose|i: int| 0 <= i < self@.len() && self@[i].ident == ident])
        } else {
            None
        }
    }

    /// Entids and idents are both keys: no two rows share either.
    pub open spec fn wf(&self) -> bool {
        forall|i: int, j: int|
            0 <= i < j < self@.len()
                ==> self@[i].entid != self@[j].entid && self@[i].ident != self@[j].ident
    }

    proof fn lemma_entry_at_entid(&self, i: int)
        requires
            self.wf(),
            0 <= i < self@.len(),
        ensures
            self.entry_for_entid(self@[i].entid) == Some(self@[i]),
    {
        let e = self@[i].entid;
        assert(self.contains_entid(e));
        let j = choose|j: int| 0 <= j < self@.len() && self@[j].entid == e;
        if i < j {
            assert(self@[i].entid != self@[j].entid);
        } else if j < i {
            assert(self@[j].entid != self@[i].entid);
        }
    }

    proof fn lemma_entry_at_ident(&self, i: int)
        requires
            self.wf(),
            0 <= i < self@.len(),
        ensures
            self.entry_for_ident(self@[i].ident) == Some(self@[i]),
    {
        let k = self@[i].ident;
        assert(self.contains_ident(k));
        let j = choose|j: int| 0 <= j < self@.len() && self@[j].ident == k;
        if i < j {
            assert(self@[i].ident != self@[j].ident);
        } else if j < i {
            assert(self@[j].ident != self@[i].ident);
        }
    }

    /// An empty schema.
    pub fn new() -> (r: Schema)
        ensures
            r.wf(),
            r@.len() == 0,
    {
        Schema { entries: Vec::new() }
    }

    fn find_by_entid(&self, entid: Entid) -> (r: Option<usize>)
        requires
            self.wf(),
        ensures
            match r {
                Some(i) => i < self@.len() && self@[i as int].entid == entid
                    && self.entry_for_entid(entid) == Some(self@[i as int]),
                None => !self.contains_entid(entid),
            },
    {
        let n = self.entries.len();
        for i in 0..n
            invariant
                n == self@.len(),
                self.wf(),
                forall|j: int| 0 <= j < i ==> self@[j].entid != entid,
        {
            if self.entries[i].entid == entid {
                proof {
                    self.lemma_entry_at_entid(i as int);
                }
                return Some(i);
            }
        }
        None
    }

    fn find_by_ident(&self, ident: &NamespacedKeyword) -> (r: Option<usize>)
        requires
            self.wf(),
        ensures
            match r {
                Some(i) => i < self@.len() && self@[i as int].ident == ident@
                    && self.entry_for_ident(ident@) == Some(self@[i as int]),
                None => !self.contains_ident(ident@),
            },
    {
        let n = self.entries.len();
        for i in 0..n
            invariant
                n == self@.len(),
                self.wf(),
                forall|j: int| 0 <= j < i ==> self@[j].ident != ident@,
        {
            if self.entries[i].ident.same(ident) {
                proof {
                    self.lemma_entry_at_ident(i as int);
                }
                return Some(i);
            }
        }
        None
    }

    /// The entid aliased by `ident`, if the schema knows it.
    pub fn get_entid(&self, ident: &NamespacedKeyword) -> (r: Option<KnownEntid>)
        requires
            self.wf(),
        ensures
            match r {
                Some(k) => self.entry_for_ident(ident@) is Some
                    && k.0 == self.entry_for_ident(ident@)->Some_0.entid,
                None => self.entry_for_ident(ident@) is None,
            },
    {
        match self.find_by_ident(ident) {
            Some(i) => Some(KnownEntid(self.entries[i].entid)),
            None => None,
        }
    }

    /// The ident aliasing `entid`, if the schema knows it.
    pub fn get_ident(&self, entid: Entid) -> (r: Option<&NamespacedKeyword>)
        requires
            self.wf(),
        ensures
            match r {
                Some(k) => self.entry_for_entid(entid) is Some
                    && k@ == self.entry_for_entid(entid)->Some_0.ident,
                None => self.entry_for_entid(entid) is None,
            },
    {
        match self.find_by_entid(entid) {
            Some(i) => Some(&self.entries[i].ident),
            None => None,
        }
    }

    /// The attribute definition under `entid`, if any.
    pub fn attribute_for_entid(&self, entid: Entid) -> (r: Option<&Attribute>)
        requires
            self.wf(),
        ensures
            match r {
                Some(a) => self.entry_for_entid(entid) is Some
                    && *a == self.entry_for_entid(entid)->Some_0.attribute,
                None => self.entry_for_entid(entid) is None,
            },
    {
        match self.find_by_entid(entid) {
            Some(i) => Some(&self.entries[i].attribute),
            None => None,
        }
    }

    /// The attribute definition under `ident`, with its entid.
    pub fn attribute_for_ident(&self, ident: &NamespacedKeyword) -> (r: Option<(
        &Attribute,
        KnownEntid,
    )>)
        requires
            self.wf(),
        ensures
            match r {
                Some(p) => self.entry_for_ident(ident@) is Some
                    && *p.0 == self.entry_for_ident(ident@)->Some_0.attribute
                    && p.1.0 == self.entry_for_ident(ident@)->Some_0.entid,
                None => self.entry_for_ident(ident@) is None,
            },
    {
        match self.find_by_ident(ident) {
            Some(i) => Some((&self.entries[i].attribute, KnownEntid(self.entries[i].entid))),
            None => None,
        }
    }

    /// True exactly when `entid` identifies an attribute in this schema.
    pub fn is_attribute(&self, entid: Entid) -> (r: bool)
        requires
            self.wf(),
        ensures
            r == self.contains_entid(entid),
    {
        self.find_by_entid(entid).is_some()
    }

    /// True exactly when `ident` identifies an attribute in this schema.
    pub fn identifies_attribute(&self, ident: &NamespacedKeyword) -> (r: bool)
        requires
            self.wf(),
    ensures
            r == self.contains_ident(ident@),
    {
        self.find_by_ident(ident).is_some()
    }

    /// The entid of the ident naming a value type, such as `:db.type/long`.
    pub fn entid_for_type(&self, t: ValueType) -> (r: Option<KnownEntid>)
        requires
            self.wf(),
        ensures
            match r {
                Some(k) => self.entry_for_ident(value_type_keyword_v(t)) is Some
                    && k.0 == self.entry_for_ident(value_type_keyword_v(t))->Some_0.entid,
                None => self.entry_for_ident(value_type_keyword_v(t)) is None,
            },
    {
        let kw = value_type_keyword(t);
        self.get_entid(&kw)
    }

    /// Add a row; refused when either key is already present.
    pub fn define(&mut self, entid: Entid, ident: NamespacedKeyword, attribute: Attribute) -> (r:
        bool)
        requires
            old(self).wf(),
        ensures
            final(self).wf(),
            r == (!old(self).contains_entid(entid) && !old(self).contains_ident(ident@)),
            r ==> final(self)@ == old(self)@.push(
                SchemaEntryV { entid, ident: ident@, attribute },
            ),
            !r ==> final(self)@ == old(self)@,
    {
        let by_entid = self.find_by_entid(entid);
        let by_ident = self.find_by_ident(&ident);
        if by_entid.is_none() && by_ident.is_none() {
            let ghost pre = self@;
            self.entries.push(SchemaEntry { entid, ident, attribute });
            proof {
                assert(self@ =~= pre.push(self@[pre.len() as int]));
                assert(self.wf());
            }
            true
        } else {
            false
        }
    }

    /// Structural equality of two snapshots, row by row.
    pub fn same(&self, other: &Schema) -> (r: bool)
        ensures
            r == (self@ == other@),
    {
        let n = self.entries.len();
        if n != other.entries.len() {
            proof {
                assert(self@.len() != other@.len());
            }
            return false;
        }
        for i in 0..n
            invariant
                n == self@.len(),
                n == other@.len(),
                forall|j: int| 0 <= j < i ==> self@[j] == other@[j],
        {
            let a = &self.entries[i];
            let b = &other.entries[i];
            if !(a.entid == b.entid && a.ident.same(&b.ident) && a.attribute == b.attribute) {
                proof {
                    assert(self@[i as int] != other@[i as int]);
                }
                return false;
            }
            proof {
                assert(self@[i as int] =~= other@[i as int]);
            }
        }
        proof {
            assert(self@ =~= other@);
        }
        true
    }
}

impl Clone for Schema {
    fn clone(&self) -> (r: Self)
        ensures
            r@ == self@,
    {
        let mut entries: Vec<SchemaEntry> = Vec::new();
        let len = self.entries.len();
        for i in 0..len
            invariant
                len == self@.len(),
                entries@.len() == i,
                forall|j: int| 0 <= j < i ==> entries@[j]@ == self@[j],
        {
            entries.push(self.entries[i].clone());
        }
        let r = Schema { entries };
        proof {
            assert(r@ =~= self@);
        }
        r
    }
}

/// The value-type idents of the store, such as `:db.type/long`.
pub fn value_type_keyword(t: ValueType) -> (r: NamespacedKeyword)
    ensures
        r@ == value_type_keyword_v(t),
{
    match t {
        ValueType::Ref => NamespacedKeyword::new("db.type", "ref"),
        ValueType::Boolean => NamespacedKeyword::new("db.type", "boolean"),
        ValueType::Long => NamespacedKeyword::new("db.type", "long"),
        ValueType::Text => NamespacedKeyword::new("db.type", "string"),
        ValueType::Keyword => NamespacedKeyword::new("db.type", "keyword"),
    }
}

/// The keyword value naming each value type.
pub open spec fn value_type_keyword_v(t: ValueType) -> KeywordV {
    match t {
        ValueType::Ref => KeywordV { namespace: "db.type"@, name: "ref"@ },
        ValueType::Boolean => KeywordV { namespace: "db.type"@, name: "boolean"@ },
        ValueType::Long => KeywordV { namespace: "db.type"@, name: "long"@ },
        ValueType::Text => KeywordV { namespace: "db.type"@, name: "string"@ },
        ValueType::Keyword => KeywordV { namespace: "db.type"@, name: "keyword"@ },
    }
}

} // verus!
