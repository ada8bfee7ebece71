//! The schema: namespaces, their relations and their permissions.

use crate::error::PgFgaError;
use vstd::prelude::*;

verus! {

/// What the subject of a tuple on a relation may be. A schema states it
/// for its readers; the evaluator takes tuples as they are stored and
/// does not consult it.
#[derive(Debug, PartialEq)]
pub enum TypeRestriction {
    /// A principal of the given namespace.
    Namespace(String),
    /// The userset that an action of the given namespace describes.
    NamespaceAction(String, String),
}

/// The expression that defines a permission.
#[derive(Debug, PartialEq)]
pub enum Rewrite {
    /// Granted to whoever holds the named relation or permission on the
    /// same resource.
    ComputedUserset(String),
    /// Granted to whoever holds the second name on a resource that the
    /// first name, a relation, links this resource to.
    TupleToUserset(String, String),
    /// Granted if some child grants.
    Union(Vec<Rewrite>),
    /// Granted if no child denies and some child grants.
    Intersection(Vec<Rewrite>),
    /// Granted if the first grants and the second does not.
    Exclusion(Box<Rewrite>, Box<Rewrite>),
}

/// The relations and permissions of one kind of resource. Each list is read
/// as a mapping from names: the first entry under a name is the one in force.
#[derive(Debug, PartialEq)]
pub struct Namespace {
    pub relations: Vec<(String, Vec<TypeRestriction>)>,
    pub permissions: Vec<(String, Rewrite)>,
}

/// A mapping from namespace names to namespaces, kept as a list of named
/// entries of which the first under a name is the one in force.
#[derive(Debug, PartialEq)]
pub struct Schema {
    pub namespaces: Vec<(String, Namespace)>,
}

/// The value of the first entry at or after `from` whose name is `key`.
pub open spec fn find_from<V>(entries: Seq<(String, V)>, key: Seq<char>, from: int) -> Option<V>
    decreases entries.len() - from,
{
    if from < 0 || from >= entries.len() {
        None
    } else if entries[from].0@ == key {
        Some(entries[from].1)
    } else {
        find_from(entries, key, from + 1)
    }
}

/// The value that a list of named entries maps `key` to, if any.
pub open spec fn find<V>(entries: Seq<(String, V)>, key: Seq<char>) -> Option<V> {
    find_from(entries, key, 0)
}

/// Looks `key` up in a list of named entries.
pub fn lookup<'a, V>(entries: &'a Vec<(String, V)>, key: &String) -> (found: Option<&'a V>)
    ensures
        match found {
            Some(value) => find(entries@, key@) == Some(*value),
            None => find(entries@, key@) is None,
        },
{
    let mut i: usize = 0;
    while i < entries.len()
        invariant
            i <= entries.len(),
            find(entries@, key@) == find_from(entries@, key@, i as int),
        decreases entries.len() - i,
    {
        if entries[i].0 == *key {
            return Some(&entries[i].1);
        }
        i += 1;
    }
    None
}

impl Namespace {
    /// Whether `name` is a relation of this namespace.
    pub open spec fn has_relation(self, name: Seq<char>) -> bool {
        find(self.relations@, name) is Some
    }

    /// The rewrite of the permission `name`, if this namespace has one.
    pub open spec fn rewrite_of(self, name: Seq<char>) -> Option<Rewrite> {
        find(self.permissions@, name)
    }
}

impl Schema {
    /// The namespace called `name`, if the schema has one.
    pub open spec fn namespace_of(self, name: Seq<char>) -> Option<Namespace> {
        find(self.namespaces@, name)
    }

    /// Whether `action` is a relation of the namespace called `namespace`.
    pub open spec fn has_relation(self, namespace: Seq<char>, action: Seq<char>) -> bool {
        match self.namespace_of(namespace) {
            Some(ns) => ns.has_relation(action),
            None => false,
        }
    }

    /// The rewrite of the permission `action` of the namespace called
    /// `namespace`, if there is such a permission.
    pub open spec fn rewrite_of(self, namespace: Seq<char>, action: Seq<char>) -> Option<Rewrite> {
        match self.namespace_of(namespace) {
            Some(ns) => ns.rewrite_of(action),
            None => None,
        }
    }

    /// Whether `action` is a permission of the namespace called `namespace`.
    pub open spec fn has_permission(self, namespace: Seq<char>, action: Seq<char>) -> bool {
        self.rewrite_of(namespace, action) is Some
    }

    /// How many permissions may be expanded in a row on one resource: the
    /// number of permissions that the namespace declares. A chain of aliases
    /// that expands more than that has come back to a name it started from.
    pub open spec fn alias_budget(self, namespace: Seq<char>) -> nat {
        match self.namespace_of(namespace) {
            Some(ns) => ns.permissions@.len(),
            None => 0,
        }
    }

    /// The namespace called `name`.
    pub fn namespace(&self, name: &String) -> (found: Option<&Namespace>)
        ensures
            match found {
                Some(ns) => self.namespace_of(name@) == Some(*ns),
                None => self.namespace_of(name@) is None,
            },
    {
        lookup(&self.namespaces, name)
    }

    /// Whether `action` is a relation of `namespace`.
    pub fn is_relation(&self, namespace: &String, action: &String) -> (yes: bool)
        ensures
            yes == self.has_relation(namespace@, action@),
    {
        match self.namespace(namespace) {
            Some(ns) => lookup(&ns.relations, action).is_some(),
            None => false,
        }
    }

    /// The rewrite of the permission `action` of `namespace`.
    pub fn permission(&self, namespace: &String, action: &String) -> (found: Option<&Rewrite>)
        ensures
            match found {
                Some(rewrite) => self.rewrite_of(namespace@, action@) == Some(*rewrite),
                None => self.rewrite_of(namespace@, action@) is None,
            },
    {
        match self.namespace(namespace) {
            Some(ns) => lookup(&ns.permissions, action),
            None => None,
        }
    }

    /// Whether `action` is a permission of `namespace`.
    pub fn is_permission(&self, namespace: &String, action: &String) -> (yes: bool)
        ensures
            yes == self.has_permission(namespace@, action@),
    {
        self.permission(namespace, action).is_some()
    }

    /// The number of permissions that `namespace` declares.
    pub fn permission_count(&self, namespace: &String) -> (count: usize)
        ensures
            count == self.alias_budget(namespace@),
    {
        match self.namespace(namespace) {
            Some(ns) => ns.permissions.len(),
            None => 0,
        }
    }
}

/// Whether no two entries of a list have the same name.
pub open spec fn distinct_names<V>(entries: Seq<(String, V)>) -> bool {
    forall|i: int, j: int|
        0 <= i < j < entries.len() ==> (#[trigger] entries[i]).0@ != (#[trigger] entries[j]).0@
}

/// Whether no two entries of a list have the same name.
pub fn names_are_distinct<V>(entries: &Vec<(String, V)>) -> (yes: bool)
    ensures
        yes == distinct_names(entries@),
{
    let mut j: usize = 0;
    while j < entries.len()
        invariant
            j <= entries.len(),
            forall|a: int, b: int|
                0 <= a < b < j ==> (#[trigger] entries@[a]).0@ != (#[trigger] entries@[b]).0@,
        decreases entries.len() - j,
    {
        let mut i: usize = 0;
        while i < j
            invariant
                i <= j < entries.len(),
                forall|a: int| 0 <= a < i ==> (#[trigger] entries@[a]).0@ != entries@[j as int].0@,
            decreases j - i,
        {
            if entries[i].0 == entries[j].0 {
                return false;
            }
            i += 1;
        }
        j += 1;
    }
    true
}

impl Namespace {
    /// Whether every name that `rewrite` takes from this namespace is
    /// declared in it: a computed userset is a relation or a permission, and
    /// the tupleset of a tuple-to-userset is a relation.
    pub open spec fn resolves(self, rewrite: Rewrite) -> bool
        decreases rewrite,
    {
        match rewrite {
            Rewrite::ComputedUserset(name) => self.has_relation(name@) || self.rewrite_of(name@)
                is Some,
            Rewrite::TupleToUserset(tupleset, _) => self.has_relation(tupleset@),
            Rewrite::Union(children) => forall|i: int|
                0 <= i < children@.len() ==> self.resolves(#[trigger] children@[i]),
            Rewrite::Intersection(children) => forall|i: int|
                0 <= i < children@.len() ==> self.resolves(#[trigger] children@[i]),
            Rewrite::Exclusion(minuend, subtrahend) => self.resolves(*minuend) && self.resolves(
                *subtrahend,
            ),
        }
    }

    /// Whether the namespace keeps the rules on names: no relation and no
    /// permission is declared twice, no name is both, and every rewrite
    /// resolves.
    pub open spec fn valid(self) -> bool {
        &&& distinct_names(self.relations@)
        &&& distinct_names(self.permissions@)
        &&& forall|i: int|
            0 <= i < self.relations@.len() ==> self.rewrite_of(
                (#[trigger] self.relations@[i]).0@,
            ) is None
        &&& forall|i: int|
            0 <= i < self.permissions@.len() ==> self.resolves((#[trigger] self.permissions@[i]).1)
    }

    /// Whether every name that `rewrite` takes from this namespace is declared in it.
    pub fn resolves_in(&self, rewrite: &Rewrite) -> (yes: bool)
        ensures
            yes == self.resolves(*rewrite),
        decreases rewrite,
    {
        match rewrite {
            Rewrite::ComputedUserset(name) => lookup(&self.relations, name).is_some() || lookup(
                &self.permissions,
                name,
            ).is_some(),
            Rewrite::TupleToUserset(tupleset, _) => lookup(&self.relations, tupleset).is_some(),
            Rewrite::Union(children) => self.all_resolve(children),
            Rewrite::Intersection(children) => self.all_resolve(children),
            Rewrite::Exclusion(minuend, subtrahend) => self.resolves_in(&**minuend)
                && self.resolves_in(&**subtrahend),
        }
    }

    /// Whether every rewrite of `children` resolves in this namespace.
    fn all_resolve(&self, children: &Vec<Rewrite>) -> (yes: bool)
        ensures
            yes == (forall|i: int|
                0 <= i < children@.len() ==> self.resolves(#[trigger] children@[i])),
        decreases children,
    {
        let mut i: usize = 0;
        while i < children.len()
            invariant
                i <= children.len(),
                forall|k: int| 0 <= k < i ==> self.resolves(#[trigger] children@[k]),
            decreases children.len() - i,
        {
            if !self.resolves_in(&children[i]) {
                return false;
            }
            i += 1;
        }
        true
    }

    /// Whether the namespace keeps the rules on names.
    pub fn is_valid(&self) -> (yes: bool)
        ensures
            yes == self.valid(),
    {
        if !names_are_distinct(&self.relations) || !names_are_distinct(&self.permissions) {
            return false;
        }
        let mut i: usize = 0;
        while i < self.relations.len()
            invariant
                i <= self.relations.len(),
                forall|k: int|
                    0 <= k < i ==> self.rewrite_of((#[trigger] self.relations@[k]).0@) is None,
            decreases self.relations.len() - i,
        {
            if lookup(&self.permissions, &self.relations[i].0).is_some() {
                return false;
            }
            i += 1;
        }
        let mut j: usize = 0;
        while j < self.permissions.len()
            invariant
                j <= self.permissions.len(),
                forall|k: int| 0 <= k < j ==> self.resolves((#[trigger] self.permissions@[k]).1),
            decreases self.permissions.len() - j,
        {
            if !self.resolves_in(&self.permissions[j].1) {
                return false;
            }
            j += 1;
        }
        true
    }
}

impl Rewrite {
    /// Whether the rewrite is built from computed usersets, tuple-to-usersets
    /// and unions alone, so that more tuples can only grant more.
    pub open spec fn positive(self) -> bool
        decreases self,
    {
        match self {
            Rewrite::ComputedUserset(_) => true,
            Rewrite::TupleToUserset(_, _) => true,
            Rewrite::Union(children) => forall|i: int|
                0 <= i < children@.len() ==> (#[trigger] children@[i]).positive(),
            Rewrite::Intersection(_) => false,
            Rewrite::Exclusion(_, _) => false,
        }
    }
}

impl Schema {
    /// Whether every permission of the schema has a positive rewrite.
    pub open spec fn positive(self) -> bool {
        forall|namespace: Seq<char>, action: Seq<char>|
            (#[trigger] self.rewrite_of(namespace, action)) matches Some(rewrite)
                ==> rewrite.positive()
    }

    /// Whether the chain of aliases that starts at `action` ends before it
    /// has expanded more than `hops` permissions: `action` is no
    /// permission, or there is a hop for it and, where its rewrite is a
    /// computed userset, the chain from that name ends within the rest.
    pub open spec fn chain_ends(self, namespace: Seq<char>, action: Seq<char>, hops: nat) -> bool
        decreases hops,
    {
        match self.rewrite_of(namespace, action) {
            None => true,
            Some(rewrite) => hops > 0 && match rewrite {
                Rewrite::ComputedUserset(name) => self.chain_ends(
                    namespace,
                    name@,
                    (hops - 1) as nat,
                ),
                _ => true,
            },
        }
    }

    /// Whether the schema keeps the rules on names: no namespace is
    /// declared twice, and every namespace is valid.
    pub open spec fn valid(self) -> bool {
        &&& distinct_names(self.namespaces@)
        &&& forall|i: int|
            0 <= i < self.namespaces@.len() ==> (#[trigger] self.namespaces@[i]).1.valid()
    }

    /// Accepts the schema if it keeps the rules on names.
    pub fn validate(&self) -> (checked: Result<(), PgFgaError>)
        ensures
            checked is Ok <==> self.valid(),
            checked matches Err(e) ==> e@ == crate::error::Failure::SchemaInvalid,
    {
        if !names_are_distinct(&self.namespaces) {
            return Err(PgFgaError::SchemaInvalid);
        }
        let mut i: usize = 0;
        while i < self.namespaces.len()
            invariant
                i <= self.namespaces.len(),
                forall|k: int| 0 <= k < i ==> (#[trigger] self.namespaces@[k]).1.valid(),
            decreases self.namespaces.len() - i,
        {
            if !self.namespaces[i].1.is_valid() {
                return Err(PgFgaError::SchemaInvalid);
            }
            i += 1;
        }
        Ok(())
    }
}

} // verus!
