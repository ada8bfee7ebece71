//! The outcome of a search and its questions to the store, as one value.

use crate::{asking, semantics};
use crate::check::Question;
use crate::error::Outcome;
use crate::schema::Rewrite;
use crate::semantics::World;
use crate::storage::Tuple;
use vstd::prelude::*;

verus! {

/// How a search runs: what it yields, and the questions that it puts to
/// the store on the way, in order.
pub struct Course {
    pub outcome: Outcome,
    pub asked: Seq<Question>,
}

/// The course of a check at a depth.
pub open spec fn check_with_hops(
    w: World,
    resource_namespace: Seq<char>,
    resource_id: Seq<char>,
    action: Seq<char>,
    depth: int,
    hops: nat,
) -> Course {
    Course {
        outcome: semantics::check_with_hops(
            w,
            resource_namespace,
            resource_id,
            action,
            depth,
            hops,
        ),
        asked: asking::asked_check_with_hops(
            w,
            resource_namespace,
            resource_id,
            action,
            depth,
            hops,
        ),
    }
}

/// The course of a check on a relation after the store's word on the
/// direct tuple.
pub open spec fn after_tuple(
    w: World,
    resource_namespace: Seq<char>,
    resource_id: Seq<char>,
    action: Seq<char>,
    depth: int,
    hops: nat,
    reply: Result<bool, Seq<char>>,
) -> Course {
    Course {
        outcome: semantics::after_tuple(
            w,
            resource_namespace,
            resource_id,
            action,
            depth,
            hops,
            reply,
        ),
        asked: asking::asked_after_tuple(
            w,
            resource_namespace,
            resource_id,
            action,
            depth,
            hops,
            reply,
        ),
    }
}

/// The course of a check on a relation after the store's list of usersets.
pub open spec fn after_subject_sets(
    w: World,
    resource_namespace: Seq<char>,
    resource_id: Seq<char>,
    action: Seq<char>,
    depth: int,
    hops: nat,
    reply: Result<Seq<Tuple>, Seq<char>>,
) -> Course {
    Course {
        outcome: semantics::after_subject_sets(
            w,
            resource_namespace,
            resource_id,
            action,
            depth,
            hops,
            reply,
        ),
        asked: asking::asked_after_subject_sets(
            w,
            resource_namespace,
            resource_id,
            action,
            depth,
            hops,
            reply,
        ),
    }
}

/// The course of the search through the usersets `tuples[from..]`.
pub open spec fn expand_subject_sets(
    w: World,
    tuples: Seq<Tuple>,
    from: int,
    resource_namespace: Seq<char>,
    resource_id: Seq<char>,
    action: Seq<char>,
    depth: int,
    hops: nat,
) -> Course {
    Course {
        outcome: semantics::expand_subject_sets(
            w,
            tuples,
            from,
            resource_namespace,
            resource_id,
            action,
            depth,
            hops,
        ),
        asked: asking::asked_expand_subject_sets(
            w,
            tuples,
            from,
            resource_namespace,
            resource_id,
            action,
            depth,
            hops,
        ),
    }
}

/// The course of the evaluation of a name as a permission.
pub open spec fn check_permission(
    w: World,
    resource_namespace: Seq<char>,
    resource_id: Seq<char>,
    action: Seq<char>,
    depth: int,
    hops: nat,
) -> Course {
    Course {
        outcome: semantics::check_permission(
            w,
            resource_namespace,
            resource_id,
            action,
            depth,
            hops,
        ),
        asked: asking::asked_check_permission(
            w,
            resource_namespace,
            resource_id,
            action,
            depth,
            hops,
        ),
    }
}

/// The course of the evaluation of a rewrite.
pub open spec fn eval_rewrite(
    w: World,
    resource_namespace: Seq<char>,
    resource_id: Seq<char>,
    rewrite: Rewrite,
    depth: int,
    hops: nat,
) -> Course {
    Course {
        outcome: semantics::eval_rewrite(w, resource_namespace, resource_id, rewrite, depth, hops),
        asked: asking::asked_eval_rewrite(
            w,
            resource_namespace,
            resource_id,
            rewrite,
            depth,
            hops,
        ),
    }
}

/// The course of a tuple-to-userset rewrite from the question for the
/// tuples on its tupleset.
pub open spec fn ask_tuples(
    w: World,
    resource_namespace: Seq<char>,
    resource_id: Seq<char>,
    tupleset: Seq<char>,
    computed_userset: Seq<char>,
    depth: int,
) -> Course {
    let reply = (w.store.tuples)(
        semantics::tupleset_filter(resource_namespace, resource_id, tupleset),
    );
    Course {
        outcome: semantics::after_tuples(w, computed_userset, depth, reply),
        asked: seq![
            Question::Tuples(
                semantics::tupleset_filter(resource_namespace, resource_id, tupleset),
            ),
        ] + asking::asked_after_tuples(w, computed_userset, depth, reply),
    }
}

/// The course of a tuple-to-userset rewrite after the store's list of
/// the tuples on its tupleset.
pub open spec fn after_tuples(
    w: World,
    computed_userset: Seq<char>,
    depth: int,
    reply: Result<Seq<Tuple>, Seq<char>>,
) -> Course {
    Course {
        outcome: semantics::after_tuples(w, computed_userset, depth, reply),
        asked: asking::asked_after_tuples(w, computed_userset, depth, reply),
    }
}

/// The course of the walk along `tuples[from..]`.
pub open spec fn follow_tuples(
    w: World,
    tuples: Seq<Tuple>,
    from: int,
    computed_userset: Seq<char>,
    depth: int,
) -> Course {
    Course {
        outcome: semantics::follow_tuples(w, tuples, from, computed_userset, depth),
        asked: asking::asked_follow_tuples(w, tuples, from, computed_userset, depth),
    }
}

/// The course of the union of `children[from..]`.
pub open spec fn eval_union(
    w: World,
    resource_namespace: Seq<char>,
    resource_id: Seq<char>,
    children: Seq<Rewrite>,
    from: int,
    depth: int,
) -> Course {
    Course {
        outcome: semantics::eval_union(w, resource_namespace, resource_id, children, from, depth),
        asked: asking::asked_eval_union(
            w,
            resource_namespace,
            resource_id,
            children,
            from,
            depth,
        ),
    }
}

/// The course of the intersection of `children[from..]`, where `granted`
/// says whether a child before them was seen to grant.
pub open spec fn eval_intersection(
    w: World,
    resource_namespace: Seq<char>,
    resource_id: Seq<char>,
    children: Seq<Rewrite>,
    from: int,
    depth: int,
    granted: bool,
) -> Course {
    Course {
        outcome: semantics::eval_intersection(
            w,
            resource_namespace,
            resource_id,
            children,
            from,
            depth,
            granted,
        ),
        asked: asking::asked_eval_intersection(
            w,
            resource_namespace,
            resource_id,
            children,
            from,
            depth,
        ),
    }
}

/// How the children of a rewrite are combined.
#[derive(Clone, Copy)]
pub enum Connective {
    /// A union: granted by the first child that grants.
    Any,
    /// An intersection: denied by the first child that denies.
    All,
}

/// The course of the search through `children[from..]` under a connective.
pub open spec fn search(
    connective: Connective,
    w: World,
    resource_namespace: Seq<char>,
    resource_id: Seq<char>,
    children: Seq<Rewrite>,
    from: int,
    depth: int,
    granted: bool,
) -> Course {
    match connective {
        Connective::Any => eval_union(w, resource_namespace, resource_id, children, from, depth),
        Connective::All => eval_intersection(
            w,
            resource_namespace,
            resource_id,
            children,
            from,
            depth,
            granted,
        ),
    }
}

/// The course of an exclusion once its minuend has come to `minuend`.
pub open spec fn after_minuend(
    w: World,
    resource_namespace: Seq<char>,
    resource_id: Seq<char>,
    minuend: Outcome,
    subtrahend: Rewrite,
    depth: int,
) -> Course {
    Course {
        outcome: semantics::after_minuend(
            w,
            resource_namespace,
            resource_id,
            minuend,
            subtrahend,
            depth,
        ),
        asked: asking::asked_after_minuend(
            w,
            resource_namespace,
            resource_id,
            minuend,
            subtrahend,
            depth,
        ),
    }
}

/// The course of an exclusion.
pub open spec fn eval_exclusion(
    w: World,
    resource_namespace: Seq<char>,
    resource_id: Seq<char>,
    minuend: Rewrite,
    subtrahend: Rewrite,
    depth: int,
) -> Course {
    Course {
        outcome: semantics::eval_exclusion(
            w,
            resource_namespace,
            resource_id,
            minuend,
            subtrahend,
            depth,
        ),
        asked: asking::asked_eval_exclusion(
            w,
            resource_namespace,
            resource_id,
            minuend,
            subtrahend,
            depth,
        ),
    }
}

/// The course of the check of `action` on the resource.
pub open spec fn check(
    w: World,
    resource_namespace: Seq<char>,
    resource_id: Seq<char>,
    action: Seq<char>,
) -> Course {
    Course {
        outcome: semantics::check(w, resource_namespace, resource_id, action),
        asked: asking::asked_check(w, resource_namespace, resource_id, action),
    }
}

} // verus!
