//! Plain value types shared by the whole library: entity ids, namespaced
//! keywords, value types and typed values.

use vstd::prelude::*;

verus! {

/// A 64-bit numeric entity identifier.
pub type Entid = i64;

/// An entid that is known to exist in the schema.
#[derive(Clone, Copy, PartialEq, Eq, Structural, Debug)]
pub struct KnownEntid(pub Entid);

/// The value type of an attribute.
#[derive(Clone, Copy, PartialEq, Eq, Structural, Debug)]
pub enum ValueType {
    Ref,
    Boolean,
    Long,
    Text,
    Keyword,
}

/// A namespaced keyword such as `:db/ident`, split into its namespace
/// (`db`) and name (`ident`).
#[derive(Debug, PartialEq, Eq)]
pub struct NamespacedKeyword {
    pub namespace: String,
    pub name: String,
}

/// The mathematical value of a [`NamespacedKeyword`]: both components as
/// character sequences.
#[verifier::ext_equal]
pub struct KeywordV {
    pub namespace: Seq<char>,
    pub name: Seq<char>,
}

impl View for NamespacedKeyword {
    type V = KeywordV;

    open spec fn view(&self) -> KeywordV {
        KeywordV { namespace: self.namespace@, name: self.name@ }
    }
}

impl NamespacedKeyword {
    /// Build a keyword from its two components.
    pub fn new(namespace: &str, name: &str) -> (r: Self)
        ensures
            r@.namespace == namespace@,
            r@.name == name@,
    {
        NamespacedKeyword {
            namespace: namespace.to_owned(),
            name: name.to_owned(),
        }
    }

    /// Equality of two keywords, component by component.
    pub fn same(&self, other: &Self) -> (r: bool)
        ensures
            r == (self@ == other@),
    {
        let r = self.namespace == other.namespace && self.name == other.name;
        proof {
            if self@.namespace == other@.namespace && self@.name == other@.name {
                assert(self@ =~= other@);
            }
        }
        r
    }

    /// The textual rendering `:namespace/name`.
    pub fn render(&self) -> (r: String)
        ensures
            r@ == kw_render(self@),
    {
        let mut s = String::new();
        s.append(":");
        s.append(self.namespace.as_str());
        s.append("/");
        s.append(self.name.as_str());
        s
    }
}

/// The textual rendering `:namespace/name` of a keyword value.
pub open spec fn kw_render(k: KeywordV) -> Seq<char> {
    ":"@ + k.namespace + "/"@ + k.name
}

impl Clone for NamespacedKeyword {
    fn clone(&self) -> (r: Self)
        ensures
            r@ == self@,
    {
        NamespacedKeyword {
            namespace: self.namespace.clone(),
            name: self.name.clone(),
        }
    }
}

/// A value held by a datom, as the cache stores and returns it.
#[derive(Debug, PartialEq, Eq)]
pub enum TypedValue {
    Ref(Entid),
    Boolean(bool),
    Long(i64),
    Text(String),
    Keyword(NamespacedKeyword),
}

/// The mathematical value of a [`TypedValue`].
#[verifier::ext_equal]
pub enum TypedValueV {
    Ref(Entid),
    Boolean(bool),
    Long(i64),
    Text(Seq<char>),
    Keyword(KeywordV),
}

impl View for TypedValue {
    type V = TypedValueV;

    open spec fn view(&self) -> TypedValueV {
        match self {
            TypedValue::Ref(e) => TypedValueV::Ref(*e),
            TypedValue::Boolean(b) => TypedValueV::Boolean(*b),
            TypedValue::Long(l) => TypedValueV::Long(*l),
            TypedValue::Text(s) => TypedValueV::Text(s@),
            TypedValue::Keyword(k) => TypedValueV::Keyword(k@),
        }
    }
}

/// The mathematical value of an optional typed value.
pub open spec fn view_opt(v: Option<TypedValue>) -> Option<TypedValueV> {
    match v {
        Some(t) => Some(t@),
        None => None,
    }
}

/// The mathematical value of a sequence of typed values.
pub open spec fn view_values(v: Seq<TypedValue>) -> Seq<TypedValueV> {
    v.map_values(|t: TypedValue| t@)
}

impl Clone for TypedValue {
    fn clone(&self) -> (r: Self)
        ensures
            r@ == self@,
    {
        match self {
            TypedValue::Ref(e) => TypedValue::Ref(*e),
            TypedValue::Boolean(b) => TypedValue::Boolean(*b),
            TypedValue::Long(l) => TypedValue::Long(*l),
            TypedValue::Text(s) => TypedValue::Text(s.clone()),
            TypedValue::Keyword(k) => TypedValue::Keyword(k.clone()),
        }
    }
}

} // verus!
