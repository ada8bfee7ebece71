use pgfga::check::{Answer, Checker, Evaluation, Request};
use pgfga::error::PgFgaError;
use pgfga::schema::{Namespace, Rewrite, Schema, TypeRestriction};
use pgfga::check::MAX_DEPTH;
use pgfga::storage::{SchemaRow, Storage};

const ID: u128 = 3;

fn checker(namespaces: Vec<(String, Namespace)>) -> Checker {
    let rows = vec![SchemaRow { rowid: 1, id: ID, schema: Schema { namespaces }, created_at: 0 }];
    match Checker::new(rows, ID) {
        Ok(c) => c,
        Err(_) => panic!("the schema was refused"),
    }
}

fn store(tuples: &[(&str, &str, &str, &str, &str, &str)]) -> Storage {
    let mut storage = Storage::new();
    let made = storage.create_schema(ID, Schema { namespaces: vec![] }, 0);
    assert!(matches!(made, Ok(Some(ID))));
    for t in tuples {
        assert!(matches!(storage.create_tuple(ID, t.0, t.1, t.2, t.3, t.4, t.5), Ok(1)));
    }
    storage
}

fn relation(name: &str) -> (String, Vec<TypeRestriction>) {
    (name.to_string(), vec![TypeRestriction::Namespace("user".to_string())])
}

fn cu(name: &str) -> Rewrite {
    Rewrite::ComputedUserset(name.to_string())
}

fn ttu(tupleset: &str, name: &str) -> Rewrite {
    Rewrite::TupleToUserset(tupleset.to_string(), name.to_string())
}

fn namespace(
    name: &str,
    relations: Vec<&str>,
    permissions: Vec<(&str, Rewrite)>,
) -> (String, Namespace) {
    (
        name.to_string(),
        Namespace {
            relations: relations.into_iter().map(relation).collect(),
            permissions: permissions.into_iter().map(|(n, r)| (n.to_string(), r)).collect(),
        },
    )
}

fn relation_of(request: &Request) -> String {
    match request {
        Request::ReadTuple { relation, .. } => relation.clone(),
        Request::ReadTuples { relation, .. } => relation.clone(),
        Request::ReadSubjectsetTuples { relation, .. } => relation.clone(),
        Request::Finished => String::new(),
    }
}

/// Runs an evaluation to its end. The store answers, but for questions
/// about a relation of `broken`, on which it fails. Gives the result and
/// the relations that were asked about, in order.
fn run(
    evaluation: &mut Evaluation,
    storage: &Storage,
    broken: &[&str],
) -> (Result<bool, PgFgaError>, Vec<String>)
{
    let mut asked = vec![];
    loop {
        let request = evaluation.request();
        if let Request::Finished = request {
            return (evaluation.result().expect("a finished evaluation has a result"), asked);
        }
        assert!(evaluation.result().is_none());
        let relation = relation_of(&request);
        let answer = if broken.contains(&relation.as_str()) {
            Answer::Failed(format!("no answer about {}", relation))
        } else {
            storage.answer(ID, &request)
        };
        asked.push(relation);
        evaluation.resume(answer);
    }
}

fn document(permissions: Vec<(&str, Rewrite)>) -> Checker {
    checker(vec![
        namespace("user", vec![], vec![]),
        namespace("group", vec!["member"], vec![]),
        namespace("document", vec!["viewer", "editor", "auditor", "banned", "parent"], permissions),
    ])
}

#[test]
fn evaluation_asks_for_the_direct_tuple_first() {
    let c = document(vec![]);
    let s = store(&[("document", "1", "viewer", "user", "anya", "")]);
    let mut e = c.check("document", "1", "viewer", "user", "anya", "");
    match e.request() {
        Request::ReadTuple {
            resource_namespace,
            resource_id,
            relation,
            subject_namespace,
            subject_id,
            subject_action,
        } => {
            assert_eq!(
                (
                    resource_namespace.as_str(),
                    resource_id.as_str(),
                    relation.as_str(),
                    subject_namespace.as_str(),
                    subject_id.as_str(),
                    subject_action.as_str()
                ),
                ("document", "1", "viewer", "user", "anya", "")
            );
        }
        other => panic!("asked {:?}", other),
    }
    let (verdict, asked) = run(&mut e, &s, &[]);
    assert!(matches!(verdict, Ok(true)));
    assert_eq!(asked, vec!["viewer"]);
}

#[test]
fn evaluation_lists_subject_sets_after_a_miss() {
    let c = document(vec![]);
    let s = store(&[]);
    let mut e = c.check("document", "1", "viewer", "user", "anya", "");
    e.resume(Answer::Tuple(None));
    match e.request() {
        Request::ReadSubjectsetTuples { resource_namespace, resource_id, relation } => {
            assert_eq!(
                (resource_namespace.as_str(), resource_id.as_str(), relation.as_str()),
                ("document", "1", "viewer")
            );
        }
        other => panic!("asked {:?}", other),
    }
    let (verdict, asked) = run(&mut e, &s, &[]);
    assert!(matches!(verdict, Ok(false)));
    assert_eq!(asked, vec!["viewer"]);
}

#[test]
fn tuple_to_userset_lists_the_tupleset() {
    let c = document(vec![("can_view", ttu("parent", "viewer"))]);
    let e = c.check("document", "1", "can_view", "user", "anya", "");
    match e.request() {
        Request::ReadTuples { resource_namespace, resource_id, relation } => {
            assert_eq!(
                (resource_namespace.as_str(), resource_id.as_str(), relation.as_str()),
                ("document", "1", "parent")
            );
        }
        other => panic!("asked {:?}", other),
    }
}

#[test]
fn unknown_names_are_denied_without_a_question() {
    let c = document(vec![]);
    for query in [("folder", "1", "viewer"), ("document", "1", "owner"), ("document", "1", "")] {
        let e = c.check(query.0, query.1, query.2, "user", "anya", "");
        assert!(matches!(e.request(), Request::Finished));
        assert!(matches!(e.result(), Some(Ok(false))));
    }
}

#[test]
fn no_tuple_no_grant() {
    let c = document(vec![]);
    let s = store(&[]);
    for relation in ["viewer", "editor", "parent"] {
        let verdict = c.decide(&s, "document", "1", relation, "user", "anya", "");
        assert!(matches!(verdict, Ok(false)));
    }
}

#[test]
fn direct_relation_holds_for_usersets_too() {
    let c = document(vec![]);
    let s = store(&[("document", "1", "viewer", "group", "eng", "member")]);
    let verdict = c.decide(&s, "document", "1", "viewer", "group", "eng", "member");
    assert!(matches!(verdict, Ok(true)));
}

#[test]
fn subject_sets_are_expanded() {
    let c = document(vec![]);
    let s = store(&[
        ("document", "1", "viewer", "group", "ops", "member"),
        ("document", "1", "viewer", "group", "eng", "member"),
        ("group", "eng", "member", "user", "anya", ""),
    ]);
    assert!(matches!(c.decide(&s, "document", "1", "viewer", "user", "anya", ""), Ok(true)));
    assert!(matches!(c.decide(&s, "document", "1", "viewer", "user", "beatrix", ""), Ok(false)));
    let mut e = c.check("document", "1", "viewer", "user", "anya", "");
    let (verdict, asked) = run(&mut e, &s, &[]);
    assert!(matches!(verdict, Ok(true)));
    // The direct tuple, the subject sets, then each group in turn: ops
    // (a miss and no subject sets), eng (a hit).
    assert_eq!(asked, vec!["viewer", "viewer", "member", "member", "member"]);
}

#[test]
fn failure_of_the_direct_read_is_surfaced() {
    let c = document(vec![]);
    let s = store(&[("document", "1", "viewer", "user", "anya", "")]);
    let mut e = c.check("document", "1", "viewer", "user", "anya", "");
    let (verdict, asked) = run(&mut e, &s, &["viewer"]);
    match verdict {
        Err(PgFgaError::SpiError(message)) => assert_eq!(message, "no answer about viewer"),
        other => panic!("ended with {:?}", other),
    }
    assert_eq!(asked.len(), 1);
}

#[test]
fn failure_of_a_listing_is_surfaced() {
    let c = document(vec![("can_view", ttu("parent", "viewer"))]);
    let s = store(&[]);
    let mut e = c.check("document", "1", "can_view", "user", "anya", "");
    let (verdict, _) = run(&mut e, &s, &["parent"]);
    assert!(matches!(verdict, Err(PgFgaError::SpiError(_))));
    let mut e = c.check("document", "1", "viewer", "user", "anya", "");
    e.resume(Answer::Tuple(None));
    e.resume(Answer::Failed("gone".to_string()));
    assert!(matches!(e.result(), Some(Err(PgFgaError::SpiError(m))) if m == "gone"));
}

#[test]
fn answer_to_another_question_counts_as_a_failure() {
    let c = document(vec![]);
    let mut e = c.check("document", "1", "viewer", "user", "anya", "");
    e.resume(Answer::Tuples(vec![]));
    match e.result() {
        Some(Err(PgFgaError::SpiError(message))) => {
            assert_eq!(message, "the store answered another question")
        }
        other => panic!("ended with {:?}", other),
    }
    let mut e = c.check("document", "1", "viewer", "user", "anya", "");
    e.resume(Answer::Tuple(None));
    e.resume(Answer::Tuple(None));
    assert!(matches!(e.result(), Some(Err(PgFgaError::SpiError(_)))));
}

#[test]
fn finished_evaluation_stays_as_it_is() {
    let c = document(vec![]);
    let mut e = c.check("document", "1", "viewer", "user", "anya", "");
    e.resume(Answer::Tuple(Some(
        store(&[("document", "1", "viewer", "user", "anya", "")])
            .read_tuple(ID, "document", "1", "viewer", "user", "anya", "")
            .unwrap()
            .unwrap(),
    )));
    assert!(matches!(e.result(), Some(Ok(true))));
    e.resume(Answer::Failed("late".to_string()));
    e.resume(Answer::Tuple(None));
    assert!(matches!(e.request(), Request::Finished));
    assert!(matches!(e.result(), Some(Ok(true))));
}

#[test]
fn union_passes_over_a_failing_child() {
    let c = document(vec![("can_view", Rewrite::Union(vec![cu("viewer"), cu("editor")]))]);
    let s = store(&[("document", "1", "editor", "user", "anya", "")]);
    let mut e = c.check("document", "1", "can_view", "user", "anya", "");
    let (verdict, asked) = run(&mut e, &s, &["viewer"]);
    assert!(matches!(verdict, Ok(true)));
    assert_eq!(asked, vec!["viewer", "editor"]);
    let mut e = c.check("document", "1", "can_view", "user", "anya", "");
    let (verdict, _) = run(&mut e, &s, &["viewer", "editor"]);
    assert!(matches!(verdict, Ok(false)));
}

#[test]
fn union_stops_at_the_first_grant() {
    let c = document(vec![("can_view", Rewrite::Union(vec![cu("viewer"), cu("editor")]))]);
    let s = store(&[
        ("document", "1", "viewer", "user", "anya", ""),
        ("document", "1", "editor", "user", "anya", ""),
    ]);
    let mut e = c.check("document", "1", "can_view", "user", "anya", "");
    let (verdict, asked) = run(&mut e, &s, &[]);
    assert!(matches!(verdict, Ok(true)));
    assert_eq!(asked, vec!["viewer"]);
}

#[test]
fn empty_union_and_empty_intersection_deny() {
    let c = document(vec![
        ("nobody", Rewrite::Union(vec![])),
        ("nobody_either", Rewrite::Intersection(vec![])),
    ]);
    let s = store(&[]);
    assert!(matches!(c.decide(&s, "document", "1", "nobody", "user", "anya", ""), Ok(false)));
    let verdict = c.decide(&s, "document", "1", "nobody_either", "user", "anya", "");
    assert!(matches!(verdict, Ok(false)));
}

fn audit() -> Checker {
    document(vec![(
        "can_audit",
        Rewrite::Intersection(vec![cu("viewer"), cu("auditor"), cu("editor")]),
    )])
}

#[test]
fn intersection_stops_at_the_first_denial() {
    let c = audit();
    let s = store(&[
        ("document", "1", "viewer", "user", "anya", ""),
        ("document", "1", "editor", "user", "anya", ""),
    ]);
    let mut e = c.check("document", "1", "can_audit", "user", "anya", "");
    let (verdict, asked) = run(&mut e, &s, &[]);
    assert!(matches!(verdict, Ok(false)));
    // The viewer is found at once; the auditor takes the direct read and
    // the subject sets; the editor is never asked about.
    assert_eq!(asked, vec!["viewer", "auditor", "auditor"]);
    // Even a store that fails on editors is not noticed.
    let mut e = c.check("document", "1", "can_audit", "user", "anya", "");
    let (verdict, asked) = run(&mut e, &s, &["editor"]);
    assert!(matches!(verdict, Ok(false)));
    assert_eq!(asked.len(), 3);
}

#[test]
fn intersection_passes_over_a_failing_child() {
    let c = audit();
    let s = store(&[
        ("document", "1", "viewer", "user", "anya", ""),
        ("document", "1", "editor", "user", "anya", ""),
    ]);
    let mut e = c.check("document", "1", "can_audit", "user", "anya", "");
    let (verdict, asked) = run(&mut e, &s, &["auditor"]);
    assert!(matches!(verdict, Ok(true)));
    assert_eq!(asked, vec!["viewer", "auditor", "editor"]);
    // The grant may come after the failure as well as before it.
    let mut e = c.check("document", "1", "can_audit", "user", "anya", "");
    let (verdict, _) = run(&mut e, &s, &["viewer", "auditor"]);
    assert!(matches!(verdict, Ok(true)));
}

#[test]
fn intersection_needs_a_child_that_grants() {
    let c = audit();
    let s = store(&[
        ("document", "1", "viewer", "user", "anya", ""),
        ("document", "1", "editor", "user", "anya", ""),
    ]);
    // Every child fails: none denies, but none grants either.
    let mut e = c.check("document", "1", "can_audit", "user", "anya", "");
    let (verdict, asked) = run(&mut e, &s, &["viewer", "auditor", "editor"]);
    assert!(matches!(verdict, Ok(false)));
    assert_eq!(asked, vec!["viewer", "auditor", "editor"]);
}

fn edit() -> Checker {
    document(vec![("can_edit", Rewrite::Exclusion(Box::new(cu("editor")), Box::new(cu("banned"))))])
}

#[test]
fn exclusion_truth_table() {
    let c = edit();
    let editor = ("document", "1", "editor", "user", "anya", "");
    let banned = ("document", "1", "banned", "user", "anya", "");
    let query = |s: &Storage| c.decide(s, "document", "1", "can_edit", "user", "anya", "");
    assert!(matches!(query(&store(&[editor, banned])), Ok(false)));
    assert!(matches!(query(&store(&[editor])), Ok(true)));
    assert!(matches!(query(&store(&[banned])), Ok(false)));
    assert!(matches!(query(&store(&[])), Ok(false)));
}

#[test]
fn exclusion_skips_the_subtrahend_after_a_denial() {
    let c = edit();
    let s = store(&[("document", "1", "banned", "user", "anya", "")]);
    let mut e = c.check("document", "1", "can_edit", "user", "anya", "");
    let (verdict, asked) = run(&mut e, &s, &[]);
    assert!(matches!(verdict, Ok(false)));
    assert_eq!(asked, vec!["editor", "editor"]);
}

#[test]
fn exclusion_passes_over_failures() {
    let c = edit();
    let s = store(&[("document", "1", "editor", "user", "anya", "")]);
    let mut e = c.check("document", "1", "can_edit", "user", "anya", "");
    let (verdict, _) = run(&mut e, &s, &["banned"]);
    assert!(matches!(verdict, Ok(true)));
    let s = store(&[("document", "1", "banned", "user", "anya", "")]);
    let mut e = c.check("document", "1", "can_edit", "user", "anya", "");
    let (verdict, _) = run(&mut e, &s, &["editor"]);
    assert!(matches!(verdict, Ok(false)));
    let s = store(&[]);
    let mut e = c.check("document", "1", "can_edit", "user", "anya", "");
    let (verdict, _) = run(&mut e, &s, &["editor", "banned"]);
    assert!(matches!(verdict, Ok(true)));
}

#[test]
fn walk_skips_tuples_that_lead_nowhere() {
    let c = checker(vec![
        namespace("user", vec![], vec![]),
        namespace("team", vec!["member", "lead"], vec![]),
        namespace("folder", vec!["viewer"], vec![("can_view", cu("viewer"))]),
        namespace("document", vec!["parent"], vec![("can_view", ttu("parent", "can_view"))]),
    ]);
    // A parent in a namespace without can_view, and a parent that pins
    // another userset than the one that is followed, are passed over.
    let s = store(&[
        ("document", "1", "parent", "team", "a", ""),
        ("document", "1", "parent", "folder", "x", "viewer"),
        ("folder", "x", "viewer", "user", "anya", ""),
    ]);
    let mut e = c.check("document", "1", "can_view", "user", "anya", "");
    let (verdict, asked) = run(&mut e, &s, &[]);
    assert!(matches!(verdict, Ok(false)));
    assert_eq!(asked, vec!["parent"]);
    let s = store(&[
        ("document", "1", "parent", "folder", "x", "can_view"),
        ("folder", "x", "viewer", "user", "anya", ""),
    ]);
    assert!(matches!(c.decide(&s, "document", "1", "can_view", "user", "anya", ""), Ok(true)));
}

#[test]
fn walk_passes_over_a_failing_branch() {
    let c = checker(vec![
        namespace("user", vec![], vec![]),
        namespace("folder", vec!["viewer"], vec![]),
        namespace("drive", vec!["owner"], vec![("viewer", cu("owner"))]),
        namespace("document", vec!["parent"], vec![("can_view", ttu("parent", "viewer"))]),
    ]);
    let s = store(&[
        ("document", "1", "parent", "folder", "x", ""),
        ("document", "1", "parent", "drive", "d", ""),
        ("drive", "d", "owner", "user", "anya", ""),
    ]);
    let mut e = c.check("document", "1", "can_view", "user", "anya", "");
    let (verdict, asked) = run(&mut e, &s, &["viewer"]);
    assert!(matches!(verdict, Ok(true)));
    assert_eq!(asked, vec!["parent", "viewer", "owner"]);
}

#[test]
fn additions_keep_grants() {
    let c = document(vec![(
        "can_view",
        Rewrite::Union(vec![cu("viewer"), cu("editor"), ttu("parent", "viewer")]),
    )]);
    let mut s = store(&[("document", "1", "editor", "user", "anya", "")]);
    assert!(matches!(c.decide(&s, "document", "1", "can_view", "user", "anya", ""), Ok(true)));
    for t in [
        ("document", "1", "viewer", "user", "beatrix", ""),
        ("document", "1", "viewer", "group", "eng", "member"),
        ("document", "1", "parent", "document", "2", ""),
        ("document", "1", "viewer", "user", "anya", ""),
    ] {
        assert!(matches!(s.create_tuple(ID, t.0, t.1, t.2, t.3, t.4, t.5), Ok(1)));
        assert!(matches!(c.decide(&s, "document", "1", "can_view", "user", "anya", ""), Ok(true)));
    }
}

#[test]
fn exclusion_is_not_monotone() {
    let c = edit();
    let mut s = store(&[("document", "1", "editor", "user", "anya", "")]);
    assert!(matches!(c.decide(&s, "document", "1", "can_edit", "user", "anya", ""), Ok(true)));
    assert!(matches!(s.create_tuple(ID, "document", "1", "banned", "user", "anya", ""), Ok(1)));
    assert!(matches!(c.decide(&s, "document", "1", "can_edit", "user", "anya", ""), Ok(false)));
}

#[test]
fn aliases_do_not_use_up_the_depth() {
    let mut permissions = vec![];
    let names: Vec<String> = (0..40).map(|i| format!("alias_{}", i)).collect();
    for i in 0..39 {
        permissions.push((names[i].as_str(), cu(&names[i + 1])));
    }
    permissions.push((names[39].as_str(), cu("viewer")));
    let c = document(permissions);
    let s = store(&[("document", "1", "viewer", "user", "anya", "")]);
    assert!(matches!(c.decide(&s, "document", "1", "alias_0", "user", "anya", ""), Ok(true)));
    assert!(matches!(c.decide(&s, "document", "1", "alias_0", "user", "beatrix", ""), Ok(false)));
}

#[test]
fn aliases_that_go_round_end_at_the_limit() {
    let c = document(vec![("p", cu("q")), ("q", cu("p")), ("r", cu("r"))]);
    let s = store(&[]);
    for action in ["p", "q", "r"] {
        let verdict = c.decide(&s, "document", "1", action, "user", "anya", "");
        assert!(matches!(verdict, Err(PgFgaError::MaxDepth)));
    }
}

#[test]
fn depth_limit_ends_the_whole_evaluation() {
    // The first child of the union runs into the limit; the second, which
    // would grant, is not tried.
    let c = document(vec![
        ("deep", ttu("parent", "deep")),
        ("can_view", Rewrite::Union(vec![cu("deep"), cu("viewer")])),
    ]);
    let mut s = store(&[("document", "0", "viewer", "user", "anya", "")]);
    for i in 0..MAX_DEPTH {
        let (from, to) = (i.to_string(), (i + 1).to_string());
        let added = s.create_tuple(ID, "document", &from, "parent", "document", &to, "");
        assert!(matches!(added, Ok(1)));
    }
    let verdict = c.decide(&s, "document", "0", "can_view", "user", "anya", "");
    assert!(matches!(verdict, Err(PgFgaError::MaxDepth)));
    let verdict = c.decide(&s, "document", "20", "can_view", "user", "anya", "");
    assert!(matches!(verdict, Ok(false)));
}

#[test]
fn stepping_and_deciding_agree() {
    let c = document(vec![(
        "can_view",
        Rewrite::Union(vec![
            Rewrite::Intersection(vec![cu("viewer"), cu("auditor")]),
            Rewrite::Exclusion(Box::new(cu("editor")), Box::new(cu("banned"))),
            ttu("parent", "can_view"),
        ]),
    )]);
    let s = store(&[
        ("document", "1", "parent", "document", "2", ""),
        ("document", "2", "editor", "group", "eng", "member"),
        ("group", "eng", "member", "user", "anya", ""),
        ("document", "2", "banned", "user", "beatrix", ""),
        ("document", "2", "editor", "user", "beatrix", ""),
        ("document", "1", "viewer", "user", "chen", ""),
        ("document", "1", "auditor", "user", "chen", ""),
    ]);
    for (who, expected) in [("anya", true), ("beatrix", false), ("chen", true), ("dario", false)] {
        let decided = c.decide(&s, "document", "1", "can_view", "user", who, "");
        let mut e = c.check("document", "1", "can_view", "user", who, "");
        let (stepped, _) = run(&mut e, &s, &[]);
        assert!(matches!(decided, Ok(b) if b == expected));
        assert!(matches!(stepped, Ok(b) if b == expected));
    }
}

#[test]
fn additions_keep_grants_beside_an_exclusion() {
    // The check of can_view meets no exclusion, though the schema has one.
    let c = document(vec![
        ("can_view", Rewrite::Union(vec![cu("viewer"), ttu("parent", "can_view")])),
        ("can_edit", Rewrite::Exclusion(Box::new(cu("editor")), Box::new(cu("banned")))),
    ]);
    let mut s = store(&[
        ("document", "1", "parent", "document", "2", ""),
        ("document", "2", "viewer", "user", "anya", ""),
    ]);
    assert!(matches!(c.decide(&s, "document", "1", "can_view", "user", "anya", ""), Ok(true)));
    for t in [
        ("document", "1", "banned", "user", "anya", ""),
        ("document", "2", "banned", "user", "anya", ""),
        ("document", "1", "parent", "document", "3", ""),
        ("document", "1", "viewer", "group", "eng", "member"),
    ] {
        assert!(matches!(s.create_tuple(ID, t.0, t.1, t.2, t.3, t.4, t.5), Ok(1)));
        assert!(matches!(c.decide(&s, "document", "1", "can_view", "user", "anya", ""), Ok(true)));
    }
}
