//! Adding tuples takes no grant away from a check that meets no
//! intersection and no exclusion.

use crate::check::MAX_DEPTH;
use crate::error::{Failure, Outcome};
use crate::schema::{Rewrite, Schema};
use crate::semantics::{
    World, check, check_permission, check_with_hops, eval_rewrite, eval_union, exhausted,
    expand_subject_sets, follow_tuples, follows, grants, tupleset_filter,
};
use crate::storage::Tuple;
use vstd::prelude::*;

verus! {

/// Whether an outcome is anything but a denial that more tuples have
/// turned a grant into: a grant, or the depth limit.
pub open spec fn undenied(outcome: Outcome) -> bool {
    grants(outcome) || exhausted(outcome)
}

/// Whether `rewrite`, as a rewrite of `namespace`, is built from computed
/// usersets, tuple-to-usersets and unions alone, and every name that its
/// evaluation over `tuples` goes on to is in `reach`: the name of a
/// computed userset, and the name followed on the subject of each tuple on
/// a tupleset.
pub open spec fn within(
    rewrite: Rewrite,
    namespace: Seq<char>,
    tuples: Set<Tuple>,
    reach: Set<(Seq<char>, Seq<char>)>,
) -> bool
    decreases rewrite,
{
    match rewrite {
        Rewrite::ComputedUserset(name) => reach.contains((namespace, name@)),
        Rewrite::TupleToUserset(tupleset, name) => forall|t: Tuple|
            #![trigger tuples.contains(t)]
            tuples.contains(t) && (namespace.len() == 0 || t.resource_namespace == namespace) && (
            tupleset@.len() == 0 || t.relation == tupleset@) ==> reach.contains(
                (t.subject_namespace, name@),
            ),
        Rewrite::Union(children) => forall|i: int|
            0 <= i < children@.len() ==> within(#[trigger] children@[i], namespace, tuples, reach),
        Rewrite::Intersection(_) => false,
        Rewrite::Exclusion(_, _) => false,
    }
}

/// Whether `reach` holds every name that a check of one of its names goes
/// on to over `tuples`, and the permissions among them are built from
/// computed usersets, tuple-to-usersets and unions alone. A name is a
/// namespace with a relation or a permission of it.
pub open spec fn closed(
    schema: Schema,
    tuples: Set<Tuple>,
    reach: Set<(Seq<char>, Seq<char>)>,
) -> bool {
    &&& forall|t: Tuple|
        #![trigger tuples.contains(t)]
        tuples.contains(t) && t.is_subject_set() && reach.contains(
            (t.resource_namespace, t.relation),
        ) ==> reach.contains((t.subject_namespace, t.subject_action))
    &&& forall|namespace: Seq<char>, action: Seq<char>|
        reach.contains((namespace, action)) ==> match #[trigger] schema.rewrite_of(
            namespace,
            action,
        ) {
            Some(rewrite) => within(rewrite, namespace, tuples, reach),
            None => true,
        }
}

/// Whether `more` is the world of `fewer` after tuples were added: the
/// same schema and the same subject, over a store that holds all the
/// tuples of the store of `fewer`, with `reach` closed over the larger store.
pub open spec fn grown(
    fewer: World,
    more: World,
    before: Set<Tuple>,
    after: Set<Tuple>,
    reach: Set<(Seq<char>, Seq<char>)>,
) -> bool {
    &&& fewer.schema == more.schema
    &&& fewer.subject == more.subject
    &&& closed(fewer.schema, after, reach)
    &&& fewer.store.serves_exactly(before)
    &&& more.store.serves(after)
    &&& before.subset_of(after)
}

/// A search through usersets is undenied once it reaches one whose branch is.
proof fn lemma_userset_reached(
    w: World,
    tuples: Seq<Tuple>,
    from: int,
    at: int,
    resource_namespace: Seq<char>,
    resource_id: Seq<char>,
    action: Seq<char>,
    depth: int,
    hops: nat,
)
    requires
        0 <= from <= at < tuples.len(),
        0 <= depth < MAX_DEPTH,
        undenied(
            check_with_hops(
                w,
                tuples[at].subject_namespace,
                tuples[at].subject_id,
                tuples[at].subject_action,
                depth + 1,
                w.budget(tuples[at].subject_namespace),
            ),
        ),
    ensures
        undenied(
            expand_subject_sets(
                w,
                tuples,
                from,
                resource_namespace,
                resource_id,
                action,
                depth,
                hops,
            ),
        ),
    decreases at - from,
{
    if from < at {
        lemma_userset_reached(
            w,
            tuples,
            from + 1,
            at,
            resource_namespace,
            resource_id,
            action,
            depth,
            hops,
        );
    }
}

/// A search through usersets is undenied if the permission it falls back on is.
proof fn lemma_userset_fallback(
    w: World,
    tuples: Seq<Tuple>,
    from: int,
    resource_namespace: Seq<char>,
    resource_id: Seq<char>,
    action: Seq<char>,
    depth: int,
    hops: nat,
)
    requires
        0 <= from,
        0 <= depth < MAX_DEPTH,
        undenied(check_permission(w, resource_namespace, resource_id, action, depth, hops)),
    ensures
        undenied(
            expand_subject_sets(
                w,
                tuples,
                from,
                resource_namespace,
                resource_id,
                action,
                depth,
                hops,
            ),
        ),
    decreases tuples.len() - from,
{
    if from < tuples.len() {
        lemma_userset_fallback(
            w,
            tuples,
            from + 1,
            resource_namespace,
            resource_id,
            action,
            depth,
            hops,
        );
    }
}

/// A walk along a tupleset is undenied once it reaches a tuple that it
/// follows and whose branch is.
proof fn lemma_tuple_reached(
    w: World,
    tuples: Seq<Tuple>,
    from: int,
    at: int,
    computed_userset: Seq<char>,
    depth: int,
)
    requires
        0 <= from <= at < tuples.len(),
        0 <= depth < MAX_DEPTH,
        follows(w, tuples[at], computed_userset),
        undenied(
            check_with_hops(
                w,
                tuples[at].subject_namespace,
                tuples[at].subject_id,
                computed_userset,
                depth + 1,
                w.budget(tuples[at].subject_namespace),
            ),
        ),
    ensures
        undenied(follow_tuples(w, tuples, from, computed_userset, depth)),
    decreases at - from,
{
    if from < at {
        lemma_tuple_reached(w, tuples, from + 1, at, computed_userset, depth);
    }
}

/// A grant of a check stays undenied when tuples are added.
proof fn lemma_check_grown(
    fewer: World,
    more: World,
    before: Set<Tuple>,
    after: Set<Tuple>,
    reach: Set<(Seq<char>, Seq<char>)>,
    resource_namespace: Seq<char>,
    resource_id: Seq<char>,
    action: Seq<char>,
    depth: int,
    hops: nat,
)
    requires
        grown(fewer, more, before, after, reach),
        0 <= depth,
        reach.contains((resource_namespace, action)),
        grants(check_with_hops(fewer, resource_namespace, resource_id, action, depth, hops)),
    ensures
        undenied(check_with_hops(more, resource_namespace, resource_id, action, depth, hops)),
    decreases MAX_DEPTH - depth, hops, 5int, 0int,
{
    if fewer.schema.has_relation(resource_namespace, action) {
        let key = fewer.direct_tuple(resource_namespace, resource_id, action);
        if !after.contains(key) {
            let listed = fewer.store.usersets(resource_namespace, resource_id, action);
            let grown_list = more.store.usersets(resource_namespace, resource_id, action);
            assert forall|k: int| 0 <= k < listed.len() implies grown_list.contains(
                #[trigger] listed[k],
            ) && reach.contains((listed[k].subject_namespace, listed[k].subject_action)) by {
                assert(listed.contains(listed[k]));
            }
            lemma_usersets_grown(
                fewer,
                more,
                before,
                after,
                reach,
                listed,
                0,
                grown_list,
                resource_namespace,
                resource_id,
                action,
                depth,
                hops,
            );
        }
    } else {
        lemma_permission_grown(
            fewer,
            more,
            before,
            after,
            reach,
            resource_namespace,
            resource_id,
            action,
            depth,
            hops,
        );
    }
}

/// A grant found among usersets, or by the permission behind them, stays
/// undenied when tuples are added.
proof fn lemma_usersets_grown(
    fewer: World,
    more: World,
    before: Set<Tuple>,
    after: Set<Tuple>,
    reach: Set<(Seq<char>, Seq<char>)>,
    listed: Seq<Tuple>,
    from: int,
    grown_list: Seq<Tuple>,
    resource_namespace: Seq<char>,
    resource_id: Seq<char>,
    action: Seq<char>,
    depth: int,
    hops: nat,
)
    requires
        grown(fewer, more, before, after, reach),
        0 <= depth,
        0 <= from,
        reach.contains((resource_namespace, action)),
        forall|k: int|
            0 <= k < listed.len() ==> grown_list.contains(#[trigger] listed[k]) && reach.contains(
                (listed[k].subject_namespace, listed[k].subject_action),
            ),
        grants(
            expand_subject_sets(
                fewer,
                listed,
                from,
                resource_namespace,
                resource_id,
                action,
                depth,
                hops,
            ),
        ),
    ensures
        undenied(
            expand_subject_sets(
                more,
                grown_list,
                0,
                resource_namespace,
                resource_id,
                action,
                depth,
                hops,
            ),
        ),
    decreases MAX_DEPTH - depth, hops, 2int, listed.len() - from,
{
    if from >= listed.len() {
        lemma_permission_grown(
            fewer,
            more,
            before,
            after,
            reach,
            resource_namespace,
            resource_id,
            action,
            depth,
            hops,
        );
        lemma_userset_fallback(
            more,
            grown_list,
            0,
            resource_namespace,
            resource_id,
            action,
            depth,
            hops,
        );
    } else {
        let t = listed[from];
        let branch = check_with_hops(
            fewer,
            t.subject_namespace,
            t.subject_id,
            t.subject_action,
            depth + 1,
            fewer.budget(t.subject_namespace),
        );
        if grants(branch) {
            lemma_check_grown(
                fewer,
                more,
                before,
                after,
                reach,
                t.subject_namespace,
                t.subject_id,
                t.subject_action,
                depth + 1,
                fewer.budget(t.subject_namespace),
            );
            let at = choose|at: int| 0 <= at < grown_list.len() && grown_list[at] == t;
            lemma_userset_reached(
                more,
                grown_list,
                0,
                at,
                resource_namespace,
                resource_id,
                action,
                depth,
                hops,
            );
        } else {
            lemma_usersets_grown(
                fewer,
                more,
                before,
                after,
                reach,
                listed,
                from + 1,
                grown_list,
                resource_namespace,
                resource_id,
                action,
                depth,
                hops,
            );
        }
    }
}

/// A grant of a permission stays undenied when tuples are added.
proof fn lemma_permission_grown(
    fewer: World,
    more: World,
    before: Set<Tuple>,
    after: Set<Tuple>,
    reach: Set<(Seq<char>, Seq<char>)>,
    resource_namespace: Seq<char>,
    resource_id: Seq<char>,
    action: Seq<char>,
    depth: int,
    hops: nat,
)
    requires
        grown(fewer, more, before, after, reach),
        0 <= depth < MAX_DEPTH,
        reach.contains((resource_namespace, action)),
        grants(check_permission(fewer, resource_namespace, resource_id, action, depth, hops)),
    ensures
        undenied(check_permission(more, resource_namespace, resource_id, action, depth, hops)),
    decreases MAX_DEPTH - depth, hops, 1int, 0int,
{
    match fewer.schema.rewrite_of(resource_namespace, action) {
        None => {},
        Some(rewrite) => {
            lemma_rewrite_grown(
                fewer,
                more,
                before,
                after,
                reach,
                resource_namespace,
                resource_id,
                rewrite,
                depth,
                (hops - 1) as nat,
            );
        },
    }
}

/// A grant of a positive rewrite stays undenied when tuples are added.
proof fn lemma_rewrite_grown(
    fewer: World,
    more: World,
    before: Set<Tuple>,
    after: Set<Tuple>,
    reach: Set<(Seq<char>, Seq<char>)>,
    resource_namespace: Seq<char>,
    resource_id: Seq<char>,
    rewrite: Rewrite,
    depth: int,
    hops: nat,
)
    requires
        grown(fewer, more, before, after, reach),
        0 <= depth,
        within(rewrite, resource_namespace, after, reach),
        grants(eval_rewrite(fewer, resource_namespace, resource_id, rewrite, depth, hops)),
    ensures
        undenied(eval_rewrite(more, resource_namespace, resource_id, rewrite, depth, hops)),
    decreases MAX_DEPTH - depth, hops, 6int, 0int,
{
    match rewrite {
        Rewrite::ComputedUserset(name) => {
            lemma_check_grown(
                fewer,
                more,
                before,
                after,
                reach,
                resource_namespace,
                resource_id,
                name@,
                depth,
                hops,
            );
        },
        Rewrite::TupleToUserset(tupleset, name) => {
            let filter = tupleset_filter(resource_namespace, resource_id, tupleset@);
            let listed = fewer.store.filtered(filter);
            let grown_list = more.store.filtered(filter);
            assert forall|k: int| 0 <= k < listed.len() implies grown_list.contains(
                #[trigger] listed[k],
            ) && reach.contains((listed[k].subject_namespace, name@)) by {
                assert(listed.contains(listed[k]));
            }
            lemma_tuples_grown(
                fewer,
                more,
                before,
                after,
                reach,
                listed,
                0,
                grown_list,
                name@,
                depth,
            );
        },
        Rewrite::Union(children) => {
            lemma_union_grown(
                fewer,
                more,
                before,
                after,
                reach,
                resource_namespace,
                resource_id,
                children@,
                0,
                depth,
            );
        },
        Rewrite::Intersection(_) => {},
        Rewrite::Exclusion(_, _) => {},
    }
}

/// A grant found along a tupleset stays undenied when tuples are added.
proof fn lemma_tuples_grown(
    fewer: World,
    more: World,
    before: Set<Tuple>,
    after: Set<Tuple>,
    reach: Set<(Seq<char>, Seq<char>)>,
    listed: Seq<Tuple>,
    from: int,
    grown_list: Seq<Tuple>,
    computed_userset: Seq<char>,
    depth: int,
)
    requires
        grown(fewer, more, before, after, reach),
        0 <= depth,
        0 <= from,
        forall|k: int|
            0 <= k < listed.len() ==> grown_list.contains(#[trigger] listed[k]) && reach.contains(
                (listed[k].subject_namespace, computed_userset),
            ),
        grants(follow_tuples(fewer, listed, from, computed_userset, depth)),
    ensures
        undenied(follow_tuples(more, grown_list, 0, computed_userset, depth)),
    decreases MAX_DEPTH - depth, 0nat, 0int, listed.len() - from,
{
    if from < listed.len() {
        let t = listed[from];
        let branch = check_with_hops(
            fewer,
            t.subject_namespace,
            t.subject_id,
            computed_userset,
            depth + 1,
            fewer.budget(t.subject_namespace),
        );
        if follows(fewer, t, computed_userset) && grants(branch) {
            lemma_check_grown(
                fewer,
                more,
                before,
                after,
                reach,
                t.subject_namespace,
                t.subject_id,
                computed_userset,
                depth + 1,
                fewer.budget(t.subject_namespace),
            );
            let at = choose|at: int| 0 <= at < grown_list.len() && grown_list[at] == t;
            lemma_tuple_reached(more, grown_list, 0, at, computed_userset, depth);
        } else {
            lemma_tuples_grown(
                fewer,
                more,
                before,
                after,
                reach,
                listed,
                from + 1,
                grown_list,
                computed_userset,
                depth,
            );
        }
    }
}

/// A grant of a union of positive rewrites stays undenied when tuples are added.
proof fn lemma_union_grown(
    fewer: World,
    more: World,
    before: Set<Tuple>,
    after: Set<Tuple>,
    reach: Set<(Seq<char>, Seq<char>)>,
    resource_namespace: Seq<char>,
    resource_id: Seq<char>,
    children: Seq<Rewrite>,
    from: int,
    depth: int,
)
    requires
        grown(fewer, more, before, after, reach),
        0 <= depth,
        0 <= from,
        forall|i: int|
            0 <= i < children.len() ==> within(
                #[trigger] children[i],
                resource_namespace,
                after,
                reach,
            ),
        grants(eval_union(fewer, resource_namespace, resource_id, children, from, depth)),
    ensures
        undenied(eval_union(more, resource_namespace, resource_id, children, from, depth)),
    decreases MAX_DEPTH - depth, 0nat, 0int, children.len() - from,
{
    if from < children.len() {
        let branch = eval_rewrite(
            fewer,
            resource_namespace,
            resource_id,
            children[from],
            depth + 1,
            fewer.budget(resource_namespace),
        );
        if grants(branch) {
            lemma_rewrite_grown(
                fewer,
                more,
                before,
                after,
                reach,
                resource_namespace,
                resource_id,
                children[from],
                depth + 1,
                fewer.budget(resource_namespace),
            );
        } else {
            lemma_union_grown(
                fewer,
                more,
                before,
                after,
                reach,
                resource_namespace,
                resource_id,
                children,
                from + 1,
                depth,
            );
        }
    }
}

/// Adding tuples takes no grant away from a check that meets no
/// intersection and no exclusion: where `reach` holds the name that is
/// checked and every name that the check goes on to over the larger store,
/// and the permissions among them are built from computed usersets,
/// tuple-to-usersets and unions alone, a check that grants over a store
/// still grants over a store that holds more tuples, unless it now runs
/// into the depth limit. It never turns into a denial. The store that
/// holds fewer tuples lists as the usersets in a relation only tuples
/// whose subject is a userset.
pub proof fn law_additions_keep_grants_within(
    fewer: World,
    more: World,
    before: Set<Tuple>,
    after: Set<Tuple>,
    reach: Set<(Seq<char>, Seq<char>)>,
    resource_namespace: Seq<char>,
    resource_id: Seq<char>,
    action: Seq<char>,
)
    requires
        grown(fewer, more, before, after, reach),
        reach.contains((resource_namespace, action)),
        check(fewer, resource_namespace, resource_id, action) == Ok::<bool, Failure>(true),
    ensures
        undenied(check(more, resource_namespace, resource_id, action)),
        check(more, resource_namespace, resource_id, action) != Ok::<bool, Failure>(false),
{
    lemma_check_grown(
        fewer,
        more,
        before,
        after,
        reach,
        resource_namespace,
        resource_id,
        action,
        0,
        fewer.budget(resource_namespace),
    );
}

/// A positive rewrite goes on to no name outside the set of all names.
proof fn lemma_positive_is_within(rewrite: Rewrite, namespace: Seq<char>, tuples: Set<Tuple>)
    requires
        rewrite.positive(),
    ensures
        within(rewrite, namespace, tuples, Set::full()),
    decreases rewrite,
{
    match rewrite {
        Rewrite::Union(children) => {
            assert forall|i: int| 0 <= i < children@.len() implies within(
                #[trigger] children@[i],
                namespace,
                tuples,
                Set::full(),
            ) by {
                lemma_positive_is_within(children@[i], namespace, tuples);
            }
        },
        _ => {},
    }
}

/// Adding tuples takes no grant away under a schema whose permissions are
/// all built from computed usersets, tuple-to-usersets and unions: a check
/// that grants over a store does not deny over a store that holds more
/// tuples.
pub proof fn law_additions_keep_grants(
    fewer: World,
    more: World,
    before: Set<Tuple>,
    after: Set<Tuple>,
    resource_namespace: Seq<char>,
    resource_id: Seq<char>,
    action: Seq<char>,
)
    requires
        fewer.schema == more.schema,
        fewer.subject == more.subject,
        fewer.schema.positive(),
        fewer.store.serves_exactly(before),
        more.store.serves(after),
        before.subset_of(after),
        check(fewer, resource_namespace, resource_id, action) == Ok::<bool, Failure>(true),
    ensures
        undenied(check(more, resource_namespace, resource_id, action)),
        check(more, resource_namespace, resource_id, action) != Ok::<bool, Failure>(false),
{
    let all = Set::<(Seq<char>, Seq<char>)>::full();
    assert forall|namespace: Seq<char>, name: Seq<char>|
        all.contains((namespace, name)) implies match #[trigger] fewer.schema.rewrite_of(
        namespace,
        name,
    ) {
        Some(rewrite) => within(rewrite, namespace, after, all),
        None => true,
    } by {
        match fewer.schema.rewrite_of(namespace, name) {
            Some(rewrite) => {
                lemma_positive_is_within(rewrite, namespace, after);
            },
            None => {},
        }
    }
    law_additions_keep_grants_within(
        fewer,
        more,
        before,
        after,
        all,
        resource_namespace,
        resource_id,
        action,
    );
}

} // verus!
