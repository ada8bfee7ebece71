//! What a check means: its outcome as a function of the schema, the
//! subject and the answers of the tuple store.
//!
//! A check of a relation asks for the direct tuple, then searches the
//! usersets in the relation, then tries the name as a permission. A
//! permission has the value of its rewrite. Searches go from left to right
//! and stop at the first branch that settles them.
//!
//! A failure of the store ends the search that asked; the search above
//! passes over the branch as one that neither grants nor denies. So a union
//! grants if and only if some child is seen to grant, and an intersection
//! grants if and only if no child is seen to deny and some child is seen to
//! grant. The depth limit is different: a branch that reaches it ends the
//! whole evaluation.
//!
//! A computed userset is evaluated at the depth of the rewrite that holds
//! it, so that aliases do not use up the depth. A chain of aliases that
//! expands more permissions on one resource than its namespace declares has
//! come round to a name it started from; it counts as reaching the limit.

use crate::check::MAX_DEPTH;
use crate::error::{Failure, Outcome};
use crate::schema::{Rewrite, Schema};
use crate::storage::Tuple;
use vstd::prelude::*;

verus! {

/// Who asks: a principal, or, with an action, the userset it describes.
pub struct Subject {
    pub namespace: Seq<char>,
    pub id: Seq<char>,
    pub action: Seq<char>,
}

/// What a tuple store answers to each of the three questions that an
/// evaluation puts to it. A failure carries the store's message.
pub struct Store {
    /// Whether the tuple with exactly these six strings is stored.
    pub tuple: spec_fn(Tuple) -> Result<bool, Seq<char>>,
    /// The stored tuples that pass a filter.
    pub tuples: spec_fn(Tuple) -> Result<Seq<Tuple>, Seq<char>>,
    /// The stored tuples on a relation of a resource whose subject is a userset.
    pub subject_sets: spec_fn(Seq<char>, Seq<char>, Seq<char>) -> Result<Seq<Tuple>, Seq<char>>,
}

impl Store {
    /// The tuples that the store lists under `filter`; none if it fails.
    pub open spec fn filtered(self, filter: Tuple) -> Seq<Tuple> {
        match (self.tuples)(filter) {
            Ok(found) => found,
            Err(_) => Seq::empty(),
        }
    }

    /// The tuples that the store lists as the usersets in a relation of a
    /// resource; none if it fails.
    pub open spec fn usersets(self, ns: Seq<char>, id: Seq<char>, relation: Seq<char>) -> Seq<
        Tuple,
    > {
        match (self.subject_sets)(ns, id, relation) {
            Ok(found) => found,
            Err(_) => Seq::empty(),
        }
    }

    /// Whether this store answers as one that holds exactly `tuples` and
    /// never fails. The list of the usersets in a relation holds every
    /// stored tuple on the relation whose subject is a userset, and none
    /// that is not stored on the relation; stored tuples on the relation
    /// whose subject is a principal may be in it or not.
    pub open spec fn serves(self, tuples: Set<Tuple>) -> bool {
        &&& forall|t: Tuple| #[trigger] (self.tuple)(t) == Ok::<bool, Seq<char>>(tuples.contains(t))
        &&& forall|filter: Tuple| #[trigger] (self.tuples)(filter) is Ok
        &&& forall|filter: Tuple, t: Tuple| #[trigger]
            self.filtered(filter).contains(t) <==> tuples.contains(t) && t.passes(filter)
        &&& forall|ns: Seq<char>, id: Seq<char>, relation: Seq<char>| #[trigger]
            (self.subject_sets)(ns, id, relation) is Ok
        &&& forall|ns: Seq<char>, id: Seq<char>, relation: Seq<char>, t: Tuple| #[trigger]
            self.usersets(ns, id, relation).contains(t) ==> tuples.contains(t) && t.is_on(
                ns,
                id,
                relation,
            )
        &&& forall|ns: Seq<char>, id: Seq<char>, relation: Seq<char>, t: Tuple|
            tuples.contains(t) && t.is_on(ns, id, relation) && t.is_subject_set() ==> #[trigger]
                self.usersets(ns, id, relation).contains(t)
    }

    /// Whether this store serves `tuples` and lists as the usersets in a
    /// relation only tuples whose subject is a userset.
    pub open spec fn serves_exactly(self, tuples: Set<Tuple>) -> bool {
        &&& self.serves(tuples)
        &&& forall|ns: Seq<char>, id: Seq<char>, relation: Seq<char>, t: Tuple| #[trigger]
            self.usersets(ns, id, relation).contains(t) ==> t.is_subject_set()
    }
}

/// All that the answer to a check depends on besides the resource and the action.
pub struct World {
    pub schema: Schema,
    pub store: Store,
    pub subject: Subject,
}

impl World {
    /// The tuple that puts the subject directly in `relation` on the resource.
    pub open spec fn direct_tuple(
        self,
        resource_namespace: Seq<char>,
        resource_id: Seq<char>,
        relation: Seq<char>,
    ) -> Tuple {
        Tuple {
            resource_namespace,
            resource_id,
            relation,
            subject_namespace: self.subject.namespace,
            subject_id: self.subject.id,
            subject_action: self.subject.action,
        }
    }

    /// The number of permissions that may be expanded in a row on a resource
    /// of `namespace`.
    pub open spec fn budget(self, namespace: Seq<char>) -> nat {
        self.schema.alias_budget(namespace)
    }
}

/// The filter that admits every tuple on `tupleset` of the resource.
pub open spec fn tupleset_filter(
    resource_namespace: Seq<char>,
    resource_id: Seq<char>,
    tupleset: Seq<char>,
) -> Tuple {
    Tuple {
        resource_namespace,
        resource_id,
        relation: tupleset,
        subject_namespace: Seq::empty(),
        subject_id: Seq::empty(),
        subject_action: Seq::empty(),
    }
}

/// Whether a branch of a search has found a grant.
pub open spec fn grants(branch: Outcome) -> bool {
    branch == Ok::<bool, Failure>(true)
}

/// Whether a branch was seen to deny.
pub open spec fn denies(branch: Outcome) -> bool {
    branch == Ok::<bool, Failure>(false)
}

/// Whether a branch ran into the depth limit, which ends the whole evaluation.
pub open spec fn exhausted(branch: Outcome) -> bool {
    branch == Err::<bool, Failure>(Failure::MaxDepth)
}

/// Whether the subject has `action` on the resource, decided at `depth`
/// levels of traversal, with `hops` permissions still to expand on this
/// resource before the chain of aliases counts as endless.
pub open spec fn check_with_hops(
    w: World,
    resource_namespace: Seq<char>,
    resource_id: Seq<char>,
    action: Seq<char>,
    depth: int,
    hops: nat,
) -> Outcome
    decreases MAX_DEPTH - depth, hops, 5int, 0int,
{
    if depth >= MAX_DEPTH {
        Err(Failure::MaxDepth)
    } else if w.schema.has_relation(resource_namespace, action) {
        after_tuple(
            w,
            resource_namespace,
            resource_id,
            action,
            depth,
            hops,
            (w.store.tuple)(w.direct_tuple(resource_namespace, resource_id, action)),
        )
    } else {
        check_permission(w, resource_namespace, resource_id, action, depth, hops)
    }
}

/// The rest of a check on a relation, once the store has said whether the
/// subject is directly in it.
pub open spec fn after_tuple(
    w: World,
    resource_namespace: Seq<char>,
    resource_id: Seq<char>,
    action: Seq<char>,
    depth: int,
    hops: nat,
    reply: Result<bool, Seq<char>>,
) -> Outcome
    decreases MAX_DEPTH - depth, hops, 4int, 0int,
{
    match reply {
        Err(message) => Err(Failure::SpiError(message)),
        Ok(true) => Ok(true),
        Ok(false) => after_subject_sets(
            w,
            resource_namespace,
            resource_id,
            action,
            depth,
            hops,
            (w.store.subject_sets)(resource_namespace, resource_id, action),
        ),
    }
}

/// The rest of a check on a relation, once the store has listed the
/// usersets that are in it.
pub open spec fn after_subject_sets(
    w: World,
    resource_namespace: Seq<char>,
    resource_id: Seq<char>,
    action: Seq<char>,
    depth: int,
    hops: nat,
    reply: Result<Seq<Tuple>, Seq<char>>,
) -> Outcome
    decreases MAX_DEPTH - depth, hops, 3int, 0int,
{
    match reply {
        Err(message) => Err(Failure::SpiError(message)),
        Ok(tuples) => expand_subject_sets(
            w,
            tuples,
            0,
            resource_namespace,
            resource_id,
            action,
            depth,
            hops,
        ),
    }
}

/// The search through the usersets `tuples[from..]` of a relation: the
/// subject is in the relation if it has the userset's action on the
/// userset's object. A branch that fails is passed over; one that runs into
/// the depth limit ends the evaluation. When no userset grants, the name is
/// tried as a permission.
pub open spec fn expand_subject_sets(
    w: World,
    tuples: Seq<Tuple>,
    from: int,
    resource_namespace: Seq<char>,
    resource_id: Seq<char>,
    action: Seq<char>,
    depth: int,
    hops: nat,
) -> Outcome
    decreases MAX_DEPTH - depth, hops, 2int, tuples.len() - from,
{
    if depth >= MAX_DEPTH {
        Err(Failure::MaxDepth)
    } else if from < 0 || from >= tuples.len() {
        check_permission(w, resource_namespace, resource_id, action, depth, hops)
    } else {
        let t = tuples[from];
        let branch = check_with_hops(
            w,
            t.subject_namespace,
            t.subject_id,
            t.subject_action,
            depth + 1,
            w.budget(t.subject_namespace),
        );
        if grants(branch) {
            Ok(true)
        } else if exhausted(branch) {
            Err(Failure::MaxDepth)
        } else {
            expand_subject_sets(
                w,
                tuples,
                from + 1,
                resource_namespace,
                resource_id,
                action,
                depth,
                hops,
            )
        }
    }
}

/// What `action` yields as a permission of the resource's namespace: the
/// value of its rewrite, or a denial if the namespace has no such permission.
pub open spec fn check_permission(
    w: World,
    resource_namespace: Seq<char>,
    resource_id: Seq<char>,
    action: Seq<char>,
    depth: int,
    hops: nat,
) -> Outcome
    decreases MAX_DEPTH - depth, hops, 1int, 0int,
{
    match w.schema.rewrite_of(resource_namespace, action) {
        None => Ok(false),
        Some(rewrite) => if hops == 0 {
            Err(Failure::MaxDepth)
        } else {
            eval_rewrite(w, resource_namespace, resource_id, rewrite, depth, (hops - 1) as nat)
        },
    }
}

/// The value of a rewrite on a resource.
pub open spec fn eval_rewrite(
    w: World,
    resource_namespace: Seq<char>,
    resource_id: Seq<char>,
    rewrite: Rewrite,
    depth: int,
    hops: nat,
) -> Outcome
    decreases MAX_DEPTH - depth, hops, 6int, 0int,
{
    if depth >= MAX_DEPTH {
        Err(Failure::MaxDepth)
    } else {
        match rewrite {
            Rewrite::ComputedUserset(name) => check_with_hops(
                w,
                resource_namespace,
                resource_id,
                name@,
                depth,
                hops,
            ),
            Rewrite::TupleToUserset(tupleset, name) => after_tuples(
                w,
                name@,
                depth,
                (w.store.tuples)(tupleset_filter(resource_namespace, resource_id, tupleset@)),
            ),
            Rewrite::Union(children) => eval_union(
                w,
                resource_namespace,
                resource_id,
                children@,
                0,
                depth,
            ),
            Rewrite::Intersection(children) => eval_intersection(
                w,
                resource_namespace,
                resource_id,
                children@,
                0,
                depth,
                false,
            ),
            Rewrite::Exclusion(minuend, subtrahend) => eval_exclusion(
                w,
                resource_namespace,
                resource_id,
                *minuend,
                *subtrahend,
                depth,
            ),
        }
    }
}

/// The rest of a tuple-to-userset rewrite, once the store has listed the
/// tuples on the tupleset relation.
pub open spec fn after_tuples(
    w: World,
    computed_userset: Seq<char>,
    depth: int,
    reply: Result<Seq<Tuple>, Seq<char>>,
) -> Outcome
    decreases MAX_DEPTH - depth, 0nat, 1int, 0int,
{
    match reply {
        Err(message) => Err(Failure::SpiError(message)),
        Ok(tuples) => follow_tuples(w, tuples, 0, computed_userset, depth),
    }
}

/// Whether the walk from the resource passes by the subject of `t`: the
/// subject's namespace must know `computed_userset`, and a userset on the
/// subject side must be the very one that is followed.
pub open spec fn follows(w: World, t: Tuple, computed_userset: Seq<char>) -> bool {
    &&& w.schema.has_relation(t.subject_namespace, computed_userset)
        || w.schema.has_permission(t.subject_namespace, computed_userset)
    &&& t.subject_action.len() == 0 || t.subject_action == computed_userset
}

/// The search through `tuples[from..]` of a tupleset relation: granted if
/// the subject has `computed_userset` on an object that one of them leads to.
pub open spec fn follow_tuples(
    w: World,
    tuples: Seq<Tuple>,
    from: int,
    computed_userset: Seq<char>,
    depth: int,
) -> Outcome
    decreases MAX_DEPTH - depth, 0nat, 0int, tuples.len() - from,
{
    if depth >= MAX_DEPTH {
        Err(Failure::MaxDepth)
    } else if from < 0 || from >= tuples.len() {
        Ok(false)
    } else {
        let t = tuples[from];
        if !follows(w, t, computed_userset) {
            follow_tuples(w, tuples, from + 1, computed_userset, depth)
        } else {
            let branch = check_with_hops(
                w,
                t.subject_namespace,
                t.subject_id,
                computed_userset,
                depth + 1,
                w.budget(t.subject_namespace),
            );
            if grants(branch) {
                Ok(true)
            } else if exhausted(branch) {
                Err(Failure::MaxDepth)
            } else {
                follow_tuples(w, tuples, from + 1, computed_userset, depth)
            }
        }
    }
}

/// The value of the union of `children[from..]`: granted by the first child
/// that grants. A child that fails is passed over.
pub open spec fn eval_union(
    w: World,
    resource_namespace: Seq<char>,
    resource_id: Seq<char>,
    children: Seq<Rewrite>,
    from: int,
    depth: int,
) -> Outcome
    decreases MAX_DEPTH - depth, 0nat, 0int, children.len() - from,
{
    if depth >= MAX_DEPTH {
        Err(Failure::MaxDepth)
    } else if from < 0 || from >= children.len() {
        Ok(false)
    } else {
        let branch = eval_rewrite(
            w,
            resource_namespace,
            resource_id,
            children[from],
            depth + 1,
            w.budget(resource_namespace),
        );
        if grants(branch) {
            Ok(true)
        } else if exhausted(branch) {
            Err(Failure::MaxDepth)
        } else {
            eval_union(w, resource_namespace, resource_id, children, from + 1, depth)
        }
    }
}

/// The value of the intersection of `children[from..]`, where `granted`
/// says whether a child before them was seen to grant: denied by the first
/// child that denies, granted if none denies and some child is seen to
/// grant. A child that fails neither grants nor denies, so an intersection
/// of no children, or of children that all fail, denies.
pub open spec fn eval_intersection(
    w: World,
    resource_namespace: Seq<char>,
    resource_id: Seq<char>,
    children: Seq<Rewrite>,
    from: int,
    depth: int,
    granted: bool,
) -> Outcome
    decreases MAX_DEPTH - depth, 0nat, 0int, children.len() - from,
{
    if depth >= MAX_DEPTH {
        Err(Failure::MaxDepth)
    } else if from < 0 || from >= children.len() {
        Ok(granted)
    } else {
        let branch = eval_rewrite(
            w,
            resource_namespace,
            resource_id,
            children[from],
            depth + 1,
            w.budget(resource_namespace),
        );
        if denies(branch) {
            Ok(false)
        } else if exhausted(branch) {
            Err(Failure::MaxDepth)
        } else {
            eval_intersection(
                w,
                resource_namespace,
                resource_id,
                children,
                from + 1,
                depth,
                granted || grants(branch),
            )
        }
    }
}

/// What an exclusion yields once its minuend has the outcome `minuend`.
pub open spec fn after_minuend(
    w: World,
    resource_namespace: Seq<char>,
    resource_id: Seq<char>,
    minuend: Outcome,
    subtrahend: Rewrite,
    depth: int,
) -> Outcome
    decreases MAX_DEPTH - depth, 0nat, 0int, 0int,
{
    if depth >= MAX_DEPTH {
        Err(Failure::MaxDepth)
    } else if denies(minuend) {
        Ok(false)
    } else if exhausted(minuend) {
        Err(Failure::MaxDepth)
    } else {
        exclude(
            eval_rewrite(
                w,
                resource_namespace,
                resource_id,
                subtrahend,
                depth + 1,
                w.budget(resource_namespace),
            ),
        )
    }
}

/// What an exclusion whose minuend did not deny yields once its subtrahend
/// has the outcome `subtrahend`.
pub open spec fn exclude(subtrahend: Outcome) -> Outcome {
    if grants(subtrahend) {
        Ok(false)
    } else if exhausted(subtrahend) {
        Err(Failure::MaxDepth)
    } else {
        Ok(true)
    }
}

/// The value of an exclusion: denied if the minuend denies or the
/// subtrahend grants, granted otherwise.
pub open spec fn eval_exclusion(
    w: World,
    resource_namespace: Seq<char>,
    resource_id: Seq<char>,
    minuend: Rewrite,
    subtrahend: Rewrite,
    depth: int,
) -> Outcome
    decreases MAX_DEPTH - depth, 0nat, 0int, 1int,
{
    if depth >= MAX_DEPTH {
        Err(Failure::MaxDepth)
    } else {
        after_minuend(
            w,
            resource_namespace,
            resource_id,
            eval_rewrite(
                w,
                resource_namespace,
                resource_id,
                minuend,
                depth + 1,
                w.budget(resource_namespace),
            ),
            subtrahend,
            depth,
        )
    }
}

/// Whether the subject has `action` on the resource, decided at `depth`
/// levels of traversal.
pub open spec fn check_at_depth(
    w: World,
    resource_namespace: Seq<char>,
    resource_id: Seq<char>,
    action: Seq<char>,
    depth: int,
) -> Outcome {
    check_with_hops(
        w,
        resource_namespace,
        resource_id,
        action,
        depth,
        w.budget(resource_namespace),
    )
}

/// Whether the subject has `action` on the resource.
pub open spec fn check(
    w: World,
    resource_namespace: Seq<char>,
    resource_id: Seq<char>,
    action: Seq<char>,
) -> Outcome {
    check_at_depth(w, resource_namespace, resource_id, action, 0)
}

} // verus!
