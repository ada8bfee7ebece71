//! The questions that a check puts to the tuple store, in the order in
//! which it asks them, function by function as its meaning is defined.

use crate::check::{MAX_DEPTH, Question};
use crate::schema::Rewrite;
use crate::semantics::{
    World, check_with_hops, denies, eval_rewrite, exhausted, follows, grants, tupleset_filter,
};
use crate::storage::Tuple;
use vstd::prelude::*;

verus! {

/// The questions that the check `check_with_hops` of the same arguments
/// puts to the store.
pub open spec fn asked_check_with_hops(
    w: World,
    resource_namespace: Seq<char>,
    resource_id: Seq<char>,
    action: Seq<char>,
    depth: int,
    hops: nat,
) -> Seq<Question>
    decreases MAX_DEPTH - depth, hops, 5int, 0int,
{
    if depth >= MAX_DEPTH {
        Seq::empty()
    } else if w.schema.has_relation(resource_namespace, action) {
        seq![Question::Tuple(w.direct_tuple(resource_namespace, resource_id, action))]
            + asked_after_tuple(
            w,
            resource_namespace,
            resource_id,
            action,
            depth,
            hops,
            (w.store.tuple)(w.direct_tuple(resource_namespace, resource_id, action)),
        )
    } else {
        asked_check_permission(w, resource_namespace, resource_id, action, depth, hops)
    }
}

/// The questions that follow the store's word on a direct tuple.
pub open spec fn asked_after_tuple(
    w: World,
    resource_namespace: Seq<char>,
    resource_id: Seq<char>,
    action: Seq<char>,
    depth: int,
    hops: nat,
    reply: Result<bool, Seq<char>>,
) -> Seq<Question>
    decreases MAX_DEPTH - depth, hops, 4int, 0int,
{
    match reply {
        Err(_) => Seq::empty(),
        Ok(true) => Seq::empty(),
        Ok(false) => seq![Question::SubjectSets(resource_namespace, resource_id, action)]
            + asked_after_subject_sets(
            w,
            resource_namespace,
            resource_id,
            action,
            depth,
            hops,
            (w.store.subject_sets)(resource_namespace, resource_id, action),
        ),
    }
}

/// The questions that follow the store's list of the usersets in a relation.
pub open spec fn asked_after_subject_sets(
    w: World,
    resource_namespace: Seq<char>,
    resource_id: Seq<char>,
    action: Seq<char>,
    depth: int,
    hops: nat,
    reply: Result<Seq<Tuple>, Seq<char>>,
) -> Seq<Question>
    decreases MAX_DEPTH - depth, hops, 3int, 0int,
{
    match reply {
        Err(_) => Seq::empty(),
        Ok(tuples) => asked_expand_subject_sets(
            w,
            tuples,
            0,
            resource_namespace,
            resource_id,
            action,
            depth,
            hops,
        ),
    }
}

/// The questions that the search through the usersets `tuples[from..]` asks.
pub open spec fn asked_expand_subject_sets(
    w: World,
    tuples: Seq<Tuple>,
    from: int,
    resource_namespace: Seq<char>,
    resource_id: Seq<char>,
    action: Seq<char>,
    depth: int,
    hops: nat,
) -> Seq<Question>
    decreases MAX_DEPTH - depth, hops, 2int, tuples.len() - from,
{
    if depth >= MAX_DEPTH {
        Seq::empty()
    } else if from < 0 || from >= tuples.len() {
        asked_check_permission(w, resource_namespace, resource_id, action, depth, hops)
    } else {
        let t = tuples[from];
        let branch = check_with_hops(
            w,
            t.subject_namespace,
            t.subject_id,
            t.subject_action,
            depth + 1,
            w.budget(t.subject_namespace),
        );
        let asked = asked_check_with_hops(
            w,
            t.subject_namespace,
            t.subject_id,
            t.subject_action,
            depth + 1,
            w.budget(t.subject_namespace),
        );
        if grants(branch) || exhausted(branch) {
            asked
        } else {
            asked + asked_expand_subject_sets(
                w,
                tuples,
                from + 1,
                resource_namespace,
                resource_id,
                action,
                depth,
                hops,
            )
        }
    }
}

/// The questions that the evaluation of `action` as a permission asks.
pub open spec fn asked_check_permission(
    w: World,
    resource_namespace: Seq<char>,
    resource_id: Seq<char>,
    action: Seq<char>,
    depth: int,
    hops: nat,
) -> Seq<Question>
    decreases MAX_DEPTH - depth, hops, 1int, 0int,
{
    match w.schema.rewrite_of(resource_namespace, action) {
        None => Seq::empty(),
        Some(rewrite) => if hops == 0 {
            Seq::empty()
        } else {
            asked_eval_rewrite(
                w,
                resource_namespace,
                resource_id,
                rewrite,
                depth,
                (hops - 1) as nat,
            )
        },
    }
}

/// The questions that the evaluation of a rewrite asks.
pub open spec fn asked_eval_rewrite(
    w: World,
    resource_namespace: Seq<char>,
    resource_id: Seq<char>,
    rewrite: Rewrite,
    depth: int,
    hops: nat,
) -> Seq<Question>
    decreases MAX_DEPTH - depth, hops, 6int, 0int,
{
    if depth >= MAX_DEPTH {
        Seq::empty()
    } else {
        match rewrite {
            Rewrite::ComputedUserset(name) => asked_check_with_hops(
                w,
                resource_namespace,
                resource_id,
                name@,
                depth,
                hops,
            ),
            Rewrite::TupleToUserset(tupleset, name) => seq![
                Question::Tuples(tupleset_filter(resource_namespace, resource_id, tupleset@)),
            ] + asked_after_tuples(
                w,
                name@,
                depth,
                (w.store.tuples)(tupleset_filter(resource_namespace, resource_id, tupleset@)),
            ),
            Rewrite::Union(children) => asked_eval_union(
                w,
                resource_namespace,
                resource_id,
                children@,
                0,
                depth,
            ),
            Rewrite::Intersection(children) => asked_eval_intersection(
                w,
                resource_namespace,
                resource_id,
                children@,
                0,
                depth,
            ),
            Rewrite::Exclusion(minuend, subtrahend) => asked_eval_exclusion(
                w,
                resource_namespace,
                resource_id,
                *minuend,
                *subtrahend,
                depth,
            ),
        }
    }
}

/// The questions that follow the store's list of the tuples on a tupleset.
pub open spec fn asked_after_tuples(
    w: World,
    computed_userset: Seq<char>,
    depth: int,
    reply: Result<Seq<Tuple>, Seq<char>>,
) -> Seq<Question>
    decreases MAX_DEPTH - depth, 0nat, 1int, 0int,
{
    match reply {
        Err(_) => Seq::empty(),
        Ok(tuples) => asked_follow_tuples(w, tuples, 0, computed_userset, depth),
    }
}

/// The questions that the walk along `tuples[from..]` asks.
pub open spec fn asked_follow_tuples(
    w: World,
    tuples: Seq<Tuple>,
    from: int,
    computed_userset: Seq<char>,
    depth: int,
) -> Seq<Question>
    decreases MAX_DEPTH - depth, 0nat, 0int, tuples.len() - from,
{
    if depth >= MAX_DEPTH {
        Seq::empty()
    } else if from < 0 || from >= tuples.len() {
        Seq::empty()
    } else {
        let t = tuples[from];
        if !follows(w, t, computed_userset) {
            asked_follow_tuples(w, tuples, from + 1, computed_userset, depth)
        } else {
            let branch = check_with_hops(
                w,
                t.subject_namespace,
                t.subject_id,
                computed_userset,
                depth + 1,
                w.budget(t.subject_namespace),
            );
            let asked = asked_check_with_hops(
                w,
                t.subject_namespace,
                t.subject_id,
                computed_userset,
                depth + 1,
                w.budget(t.subject_namespace),
            );
            if grants(branch) || exhausted(branch) {
                asked
            } else {
                asked + asked_follow_tuples(w, tuples, from + 1, computed_userset, depth)
            }
        }
    }
}

/// The questions that the union of `children[from..]` asks.
pub open spec fn asked_eval_union(
    w: World,
    resource_namespace: Seq<char>,
    resource_id: Seq<char>,
    children: Seq<Rewrite>,
    from: int,
    depth: int,
) -> Seq<Question>
    decreases MAX_DEPTH - depth, 0nat, 0int, children.len() - from,
{
    if depth >= MAX_DEPTH {
        Seq::empty()
    } else if from < 0 || from >= children.len() {
        Seq::empty()
    } else {
        let branch = eval_rewrite(
            w,
            resource_namespace,
            resource_id,
            children[from],
            depth + 1,
            w.budget(resource_namespace),
        );
        let asked = asked_eval_rewrite(
            w,
            resource_namespace,
            resource_id,
            children[from],
            depth + 1,
            w.budget(resource_namespace),
        );
        if grants(branch) || exhausted(branch) {
            asked
        } else {
            asked + asked_eval_union(w, resource_namespace, resource_id, children, from + 1, depth)
        }
    }
}

/// The questions that the intersection of `children[from..]` asks.
pub open spec fn asked_eval_intersection(
    w: World,
    resource_namespace: Seq<char>,
    resource_id: Seq<char>,
    children: Seq<Rewrite>,
    from: int,
    depth: int,
) -> Seq<Question>
    decreases MAX_DEPTH - depth, 0nat, 0int, children.len() - from,
{
    if depth >= MAX_DEPTH {
        Seq::empty()
    } else if from < 0 || from >= children.len() {
        Seq::empty()
    } else {
        let branch = eval_rewrite(
            w,
            resource_namespace,
            resource_id,
            children[from],
            depth + 1,
            w.budget(resource_namespace),
        );
        let asked = asked_eval_rewrite(
            w,
            resource_namespace,
            resource_id,
            children[from],
            depth + 1,
            w.budget(resource_namespace),
        );
        if denies(branch) || exhausted(branch) {
            asked
        } else {
            asked + asked_eval_intersection(
                w,
                resource_namespace,
                resource_id,
                children,
                from + 1,
                depth,
            )
        }
    }
}

/// The questions that an exclusion asks once its minuend has come to `minuend`.
pub open spec fn asked_after_minuend(
    w: World,
    resource_namespace: Seq<char>,
    resource_id: Seq<char>,
    minuend: crate::error::Outcome,
    subtrahend: Rewrite,
    depth: int,
) -> Seq<Question>
    decreases MAX_DEPTH - depth, 0nat, 0int, 0int,
{
    if depth >= MAX_DEPTH {
        Seq::empty()
    } else if denies(minuend) || exhausted(minuend) {
        Seq::empty()
    } else {
        asked_eval_rewrite(
            w,
            resource_namespace,
            resource_id,
            subtrahend,
            depth + 1,
            w.budget(resource_namespace),
        )
    }
}

/// The questions that an exclusion asks.
pub open spec fn asked_eval_exclusion(
    w: World,
    resource_namespace: Seq<char>,
    resource_id: Seq<char>,
    minuend: Rewrite,
    subtrahend: Rewrite,
    depth: int,
) -> Seq<Question>
    decreases MAX_DEPTH - depth, 0nat, 0int, 1int,
{
    if depth >= MAX_DEPTH {
        Seq::empty()
    } else {
        asked_eval_rewrite(
            w,
            resource_namespace,
            resource_id,
            minuend,
            depth + 1,
            w.budget(resource_namespace),
        ) + asked_after_minuend(
            w,
            resource_namespace,
            resource_id,
            eval_rewrite(
                w,
                resource_namespace,
                resource_id,
                minuend,
                depth + 1,
                w.budget(resource_namespace),
            ),
            subtrahend,
            depth,
        )
    }
}

/// The questions that the check of `action` on the resource puts to the store.
pub open spec fn asked_check(
    w: World,
    resource_namespace: Seq<char>,
    resource_id: Seq<char>,
    action: Seq<char>,
) -> Seq<Question> {
    asked_check_with_hops(
        w,
        resource_namespace,
        resource_id,
        action,
        0,
        w.budget(resource_namespace),
    )
}

} // verus!
