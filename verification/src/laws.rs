//! What holds of every check: laws of the meaning of checks, each proved.

use crate::asking::{asked_check, asked_check_with_hops, asked_eval_intersection, asked_eval_union};
use crate::check::{MAX_DEPTH, Question};
use crate::course;
use crate::error::{Failure, Outcome};
use crate::schema::{Rewrite, Schema, find, find_from};
use crate::semantics::{
    World, check, check_at_depth, denies, eval_exclusion, eval_intersection, eval_rewrite,
    eval_union, exhausted, expand_subject_sets, grants,
};
use crate::storage::Tuple;
use vstd::prelude::*;

verus! {

/// A name that a list of entries maps to a value is the name of an entry
/// of the list.
pub proof fn lemma_found_is_entry<V>(entries: Seq<(String, V)>, key: Seq<char>, from: int)
    requires
        0 <= from,
        find_from(entries, key, from) is Some,
    ensures
        exists|i: int|
            from <= i < entries.len() && (#[trigger] entries[i]).0@ == key && find_from(
                entries,
                key,
                from,
            ) == Some(entries[i].1),
    decreases entries.len() - from,
{
    if from < entries.len() && entries[from].0@ != key {
        lemma_found_is_entry(entries, key, from + 1);
    }
}

/// In a valid schema no name is both a relation and a permission of a namespace.
pub proof fn law_relation_is_no_permission(
    schema: Schema,
    namespace: Seq<char>,
    action: Seq<char>,
)
    requires
        schema.valid(),
        schema.has_relation(namespace, action),
    ensures
        !schema.has_permission(namespace, action),
{
    lemma_found_is_entry(schema.namespaces@, namespace, 0);
    let k = choose|k: int|
        0 <= k < schema.namespaces@.len() && (#[trigger] schema.namespaces@[k]).0@ == namespace
            && find(schema.namespaces@, namespace) == Some(schema.namespaces@[k].1);
    let ns = schema.namespaces@[k].1;
    lemma_found_is_entry(ns.relations@, action, 0);
}

/// A subject that a stored tuple puts directly in a relation has the
/// relation: if the schema declares `relation` in the namespace and the
/// store holds the tuple of the resource, the relation and the subject,
/// the check grants.
pub proof fn law_direct_relation(
    w: World,
    tuples: Set<Tuple>,
    resource_namespace: Seq<char>,
    resource_id: Seq<char>,
    relation: Seq<char>,
)
    requires
        w.store.serves(tuples),
        w.schema.has_relation(resource_namespace, relation),
        tuples.contains(w.direct_tuple(resource_namespace, resource_id, relation)),
    ensures
        check(w, resource_namespace, resource_id, relation) == Ok::<bool, Failure>(true),
{
}

/// Without tuples nothing is granted through a relation: against a store
/// that holds no tuple, the check of a relation of a valid schema denies.
pub proof fn law_no_tuple_no_grant(
    w: World,
    resource_namespace: Seq<char>,
    resource_id: Seq<char>,
    relation: Seq<char>,
)
    requires
        w.schema.valid(),
        w.store.serves(Set::empty()),
        w.schema.has_relation(resource_namespace, relation),
    ensures
        check(w, resource_namespace, resource_id, relation) == Ok::<bool, Failure>(false),
{
    law_relation_is_no_permission(w.schema, resource_namespace, relation);
    let found = w.store.usersets(resource_namespace, resource_id, relation);
    if found.len() > 0 {
        assert(found.contains(found[0]));
    }
    let hops = w.budget(resource_namespace);
    assert(expand_subject_sets(
        w,
        found,
        0,
        resource_namespace,
        resource_id,
        relation,
        0,
        hops,
    ) == Ok::<bool, Failure>(false));
}

/// The value of a child of a union, an intersection or an exclusion.
pub open spec fn child_outcome(
    w: World,
    resource_namespace: Seq<char>,
    resource_id: Seq<char>,
    child: Rewrite,
    depth: int,
) -> Outcome {
    eval_rewrite(w, resource_namespace, resource_id, child, depth + 1, w.budget(resource_namespace))
}

/// An intersection stops at the first child that denies: if a child
/// denies and none before it ran into the depth limit, the intersection
/// denies, whatever children follow.
pub proof fn law_intersection_stops_at_denial(
    w: World,
    resource_namespace: Seq<char>,
    resource_id: Seq<char>,
    children: Seq<Rewrite>,
    from: int,
    denier: int,
    depth: int,
    granted: bool,
)
    requires
        0 <= from <= denier < children.len(),
        0 <= depth < MAX_DEPTH,
        denies(child_outcome(w, resource_namespace, resource_id, children[denier], depth)),
        forall|j: int|
            from <= j < denier ==> !exhausted(
                child_outcome(w, resource_namespace, resource_id, #[trigger] children[j], depth),
            ),
    ensures
        eval_intersection(w, resource_namespace, resource_id, children, from, depth, granted)
            == Ok::<bool, Failure>(false),
    decreases denier - from,
{
    if from < denier {
        let first = child_outcome(w, resource_namespace, resource_id, children[from], depth);
        if !denies(first) {
            law_intersection_stops_at_denial(
                w,
                resource_namespace,
                resource_id,
                children,
                from + 1,
                denier,
                depth,
                granted || grants(first),
            );
        }
    }
}

/// What follows a denial of an intersection has no part in it: the
/// intersection has the value of the one that ends with the child that
/// denies, and puts the same questions to the store as that one.
pub proof fn law_intersection_ignores_the_rest(
    w: World,
    resource_namespace: Seq<char>,
    resource_id: Seq<char>,
    children: Seq<Rewrite>,
    from: int,
    denier: int,
    depth: int,
    granted: bool,
)
    requires
        0 <= from <= denier < children.len(),
        0 <= depth < MAX_DEPTH,
        denies(child_outcome(w, resource_namespace, resource_id, children[denier], depth)),
    ensures
        eval_intersection(w, resource_namespace, resource_id, children, from, depth, granted)
            == eval_intersection(
            w,
            resource_namespace,
            resource_id,
            children.take(denier + 1),
            from,
            depth,
            granted,
        ),
        asked_eval_intersection(w, resource_namespace, resource_id, children, from, depth)
            == asked_eval_intersection(
            w,
            resource_namespace,
            resource_id,
            children.take(denier + 1),
            from,
            depth,
        ),
    decreases denier - from,
{
    if from < denier {
        let first = child_outcome(w, resource_namespace, resource_id, children[from], depth);
        law_intersection_ignores_the_rest(
            w,
            resource_namespace,
            resource_id,
            children,
            from + 1,
            denier,
            depth,
            granted || grants(first),
        );
    }
}

/// Whether a child of `children[from..]` grants.
pub open spec fn some_child_grants(
    w: World,
    resource_namespace: Seq<char>,
    resource_id: Seq<char>,
    children: Seq<Rewrite>,
    from: int,
    depth: int,
) -> bool {
    exists|j: int|
        from <= j < children.len() && grants(
            child_outcome(w, resource_namespace, resource_id, #[trigger] children[j], depth),
        )
}

/// Whether a child of `children[from..]` denies.
pub open spec fn some_child_denies(
    w: World,
    resource_namespace: Seq<char>,
    resource_id: Seq<char>,
    children: Seq<Rewrite>,
    from: int,
    depth: int,
) -> bool {
    exists|j: int|
        from <= j < children.len() && denies(
            child_outcome(w, resource_namespace, resource_id, #[trigger] children[j], depth),
        )
}

/// An intersection grants if and only if none of its children denies and
/// one of them grants: where no child runs into the depth limit, the
/// intersection of `children[from..]` after children of which one was
/// seen to grant or not, as `granted` says, is a decision, and it grants
/// exactly if no child denies and a grant was or is seen. So an
/// intersection of no children denies, and so does one whose children all
/// fail.
pub proof fn law_intersection_needs_a_grant(
    w: World,
    resource_namespace: Seq<char>,
    resource_id: Seq<char>,
    children: Seq<Rewrite>,
    from: int,
    depth: int,
    granted: bool,
)
    requires
        0 <= from,
        0 <= depth < MAX_DEPTH,
        forall|j: int|
            from <= j < children.len() ==> !exhausted(
                child_outcome(w, resource_namespace, resource_id, #[trigger] children[j], depth),
            ),
    ensures
        eval_intersection(w, resource_namespace, resource_id, children, from, depth, granted)
            == Ok::<bool, Failure>(
            !some_child_denies(w, resource_namespace, resource_id, children, from, depth) && (
            granted || some_child_grants(
                w,
                resource_namespace,
                resource_id,
                children,
                from,
                depth,
            )),
        ),
    decreases children.len() - from,
{
    if from < children.len() {
        let first = child_outcome(w, resource_namespace, resource_id, children[from], depth);
        if !denies(first) {
            law_intersection_needs_a_grant(
                w,
                resource_namespace,
                resource_id,
                children,
                from + 1,
                depth,
                granted || grants(first),
            );
            let rest_denies = some_child_denies(
                w,
                resource_namespace,
                resource_id,
                children,
                from + 1,
                depth,
            );
            let rest_grants = some_child_grants(
                w,
                resource_namespace,
                resource_id,
                children,
                from + 1,
                depth,
            );
            assert(some_child_denies(w, resource_namespace, resource_id, children, from, depth)
                == rest_denies);
            assert(some_child_grants(w, resource_namespace, resource_id, children, from, depth)
                == (grants(first) || rest_grants)) by {
                if some_child_grants(w, resource_namespace, resource_id, children, from, depth) {
                    let j = choose|j: int|
                        from <= j < children.len() && grants(
                            child_outcome(
                                w,
                                resource_namespace,
                                resource_id,
                                #[trigger] children[j],
                                depth,
                            ),
                        );
                }
            }
        }
    }
}

/// The truth table of an exclusion: it denies when the minuend denies,
/// whatever the subtrahend; when the minuend grants, it denies if the
/// subtrahend grants and grants if the subtrahend denies.
pub proof fn law_exclusion_truth_table(
    w: World,
    resource_namespace: Seq<char>,
    resource_id: Seq<char>,
    minuend: Rewrite,
    subtrahend: Rewrite,
    depth: int,
)
    requires
        0 <= depth < MAX_DEPTH,
    ensures
        ({
            let m = child_outcome(w, resource_namespace, resource_id, minuend, depth);
            let s = child_outcome(w, resource_namespace, resource_id, subtrahend, depth);
            let excluded = eval_exclusion(
                w,
                resource_namespace,
                resource_id,
                minuend,
                subtrahend,
                depth,
            );
            &&& denies(m) ==> excluded == Ok::<bool, Failure>(false)
            &&& grants(m) && grants(s) ==> excluded == Ok::<bool, Failure>(false)
            &&& grants(m) && denies(s) ==> excluded == Ok::<bool, Failure>(true)
        }),
{
}

/// At the depth limit nothing is decided and nothing is asked: a check
/// that starts at the limit or beyond it ends at once with the limit as
/// its outcome.
pub proof fn law_depth_limit_ends_a_check(
    w: World,
    resource_namespace: Seq<char>,
    resource_id: Seq<char>,
    action: Seq<char>,
    depth: int,
)
    requires
        depth >= MAX_DEPTH,
    ensures
        check_at_depth(w, resource_namespace, resource_id, action, depth) == Err::<bool, Failure>(
            Failure::MaxDepth,
        ),
        asked_check_with_hops(
            w,
            resource_namespace,
            resource_id,
            action,
            depth,
            w.budget(resource_namespace),
        ).len() == 0,
{
}

/// What follows a grant of a union has no part in it: the union has the
/// value of the one that ends with the child that grants, and puts the
/// same questions to the store as that one.
pub proof fn law_union_ignores_the_rest(
    w: World,
    resource_namespace: Seq<char>,
    resource_id: Seq<char>,
    children: Seq<Rewrite>,
    from: int,
    granter: int,
    depth: int,
)
    requires
        0 <= from <= granter < children.len(),
        0 <= depth < MAX_DEPTH,
        grants(child_outcome(w, resource_namespace, resource_id, children[granter], depth)),
    ensures
        eval_union(w, resource_namespace, resource_id, children, from, depth) == eval_union(
            w,
            resource_namespace,
            resource_id,
            children.take(granter + 1),
            from,
            depth,
        ),
        asked_eval_union(w, resource_namespace, resource_id, children, from, depth)
            == asked_eval_union(
            w,
            resource_namespace,
            resource_id,
            children.take(granter + 1),
            from,
            depth,
        ),
    decreases granter - from,
{
    if from < granter {
        law_union_ignores_the_rest(
            w,
            resource_namespace,
            resource_id,
            children,
            from + 1,
            granter,
            depth,
        );
    }
}

/// The direct tuple comes first: a check of a relation begins with the
/// question whether the subject is directly in it, and if the answer
/// grants, that question is the only one. If the subject is not directly
/// in the relation, the next question is for the usersets in it.
pub proof fn law_direct_tuple_is_asked_first(
    w: World,
    resource_namespace: Seq<char>,
    resource_id: Seq<char>,
    relation: Seq<char>,
)
    requires
        w.schema.has_relation(resource_namespace, relation),
    ensures
        ({
            let key = w.direct_tuple(resource_namespace, resource_id, relation);
            let asked = asked_check(w, resource_namespace, resource_id, relation);
            &&& asked.len() >= 1
            &&& asked[0] == Question::Tuple(key)
            &&& (w.store.tuple)(key) == Ok::<bool, Seq<char>>(true) ==> asked.len() == 1
            &&& (w.store.tuple)(key) == Ok::<bool, Seq<char>>(false) ==> asked.len() >= 2
                && asked[1] == Question::SubjectSets(resource_namespace, resource_id, relation)
        }),
{
}

/// A search through usersets does not depend on the hops that are left
/// if the permission it falls back on does not.
proof fn lemma_usersets_need_no_more_hops(
    w: World,
    tuples: Seq<Tuple>,
    from: int,
    resource_namespace: Seq<char>,
    resource_id: Seq<char>,
    action: Seq<char>,
    depth: int,
    hops: nat,
    more: nat,
)
    requires
        0 <= from,
        course::check_permission(w, resource_namespace, resource_id, action, depth, hops)
            == course::check_permission(w, resource_namespace, resource_id, action, depth, more),
    ensures
        course::expand_subject_sets(
            w,
            tuples,
            from,
            resource_namespace,
            resource_id,
            action,
            depth,
            hops,
        ) == course::expand_subject_sets(
            w,
            tuples,
            from,
            resource_namespace,
            resource_id,
            action,
            depth,
            more,
        ),
    decreases tuples.len() - from,
{
    if depth < MAX_DEPTH && from < tuples.len() {
        lemma_usersets_need_no_more_hops(
            w,
            tuples,
            from + 1,
            resource_namespace,
            resource_id,
            action,
            depth,
            hops,
            more,
        );
    }
}

/// The limit on aliases touches no chain that ends: where the chain of
/// aliases from `action` ends within `hops` permissions, a check with more
/// hops has the same outcome and asks the same questions. Only a chain
/// that comes round to a name it started from reaches the limit.
pub proof fn law_chains_that_end_need_no_more_hops(
    w: World,
    resource_namespace: Seq<char>,
    resource_id: Seq<char>,
    action: Seq<char>,
    depth: int,
    hops: nat,
    more: nat,
)
    requires
        w.schema.chain_ends(resource_namespace, action, hops),
        hops <= more,
    ensures
        course::check_with_hops(w, resource_namespace, resource_id, action, depth, hops)
            == course::check_with_hops(w, resource_namespace, resource_id, action, depth, more),
    decreases hops,
{
    if depth < MAX_DEPTH {
        match w.schema.rewrite_of(resource_namespace, action) {
            None => {},
            Some(rewrite) => {
                match rewrite {
                    Rewrite::ComputedUserset(name) => {
                        law_chains_that_end_need_no_more_hops(
                            w,
                            resource_namespace,
                            resource_id,
                            name@,
                            depth,
                            (hops - 1) as nat,
                            (more - 1) as nat,
                        );
                    },
                    _ => {},
                }
            },
        }
        if w.schema.has_relation(resource_namespace, action) {
            lemma_usersets_need_no_more_hops(
                w,
                w.store.usersets(resource_namespace, resource_id, action),
                0,
                resource_namespace,
                resource_id,
                action,
                depth,
                hops,
                more,
            );
        }
    }
}

} // verus!
