use pgfga::check::Checker;
use pgfga::error::PgFgaError;
use pgfga::schema::{Namespace, Rewrite, Schema, TypeRestriction};
use pgfga::storage::{SchemaRow, Storage};

const ID: u128 = 7;

fn checker(namespaces: Vec<(String, Namespace)>) -> Checker {
    let rows = vec![SchemaRow { rowid: 1, id: ID, schema: Schema { namespaces }, created_at: 0 }];
    match Checker::new(rows, ID) {
        Ok(c) => c,
        Err(_) => panic!("the schema was refused"),
    }
}

fn store(tuples: &[(&str, &str, &str, &str, &str, &str)]) -> Storage {
    let mut storage = Storage::new();
    let made = storage.create_schema(ID, Schema { namespaces: vec![] }, 0);
    assert!(matches!(made, Ok(Some(ID))));
    for t in tuples {
        let added = storage.create_tuple(ID, t.0, t.1, t.2, t.3, t.4, t.5);
        assert!(matches!(added, Ok(1)));
    }
    storage
}

fn check(
    checker: &Checker,
    storage: &Storage,
    query: (&str, &str, &str, &str, &str, &str),
) -> Result<bool, PgFgaError> {
    checker.decide(storage, query.0, query.1, query.2, query.3, query.4, query.5)
}

fn user() -> (String, Namespace) {
    ("user".to_string(), Namespace { relations: vec![], permissions: vec![] })
}

fn relation(name: &str, subject: &str) -> (String, Vec<TypeRestriction>) {
    (name.to_string(), vec![TypeRestriction::Namespace(subject.to_string())])
}

fn cu(name: &str) -> Rewrite {
    Rewrite::ComputedUserset(name.to_string())
}

fn ttu(tupleset: &str, name: &str) -> Rewrite {
    Rewrite::TupleToUserset(tupleset.to_string(), name.to_string())
}

fn namespace(
    name: &str,
    relations: Vec<(String, Vec<TypeRestriction>)>,
    permissions: Vec<(&str, Rewrite)>,
) -> (String, Namespace) {
    (
        name.to_string(),
        Namespace {
            relations,
            permissions: permissions.into_iter().map(|(n, r)| (n.to_string(), r)).collect(),
        },
    )
}

#[test]
fn test_direct_check() {
    let c = checker(vec![user(), namespace("document", vec![relation("viewer", "user")], vec![])]);
    let s = store(&[("document", "1", "viewer", "user", "anya", "")]);
    assert!(matches!(check(&c, &s, ("document", "1", "viewer", "user", "anya", "")), Ok(true)));
    assert!(matches!(check(&c, &s, ("document", "2", "viewer", "user", "anya", "")), Ok(false)));
    assert!(matches!(check(&c, &s, ("document", "2", "viewer", "user", "beatrix", "")), Ok(false)));
    assert!(matches!(check(&c, &s, ("document", "1", "viewer", "user", "beatrix", "")), Ok(false)));
}

#[test]
fn test_computed_userset() {
    let c = checker(vec![
        user(),
        namespace("document", vec![relation("viewer", "user")], vec![("can_view", cu("viewer"))]),
    ]);
    let s = store(&[("document", "1", "viewer", "user", "anya", "")]);
    assert!(matches!(check(&c, &s, ("document", "1", "can_view", "user", "anya", "")), Ok(true)));
    assert!(matches!(check(&c, &s, ("document", "2", "can_view", "user", "anya", "")), Ok(false)));
    assert!(matches!(
        check(&c, &s, ("document", "2", "can_view", "user", "beatrix", "")),
        Ok(false)
    ));
}

fn folders() -> Checker {
    checker(vec![
        user(),
        namespace("folder", vec![relation("viewer", "user")], vec![("can_view", cu("viewer"))]),
        namespace(
            "document",
            vec![relation("parent", "folder")],
            vec![("can_view", ttu("parent", "can_view"))],
        ),
    ])
}

#[test]
fn test_tuple_to_userset() {
    let c = folders();
    let s = store(&[
        ("folder", "x", "viewer", "user", "anya", ""),
        ("document", "1", "parent", "folder", "x", ""),
    ]);
    assert!(matches!(check(&c, &s, ("folder", "x", "can_view", "user", "anya", "")), Ok(true)));
    assert!(matches!(check(&c, &s, ("document", "1", "can_view", "user", "anya", "")), Ok(true)));
    assert!(matches!(check(&c, &s, ("document", "2", "can_view", "user", "anya", "")), Ok(false)));
    assert!(matches!(
        check(&c, &s, ("document", "2", "can_view", "user", "beatrix", "")),
        Ok(false)
    ));
}

fn viewers_and_editors() -> Checker {
    checker(vec![
        user(),
        namespace(
            "document",
            vec![relation("viewer", "user"), relation("editor", "user")],
            vec![("can_view", Rewrite::Union(vec![cu("viewer"), cu("editor")]))],
        ),
    ])
}

#[test]
fn test_union() {
    let c = viewers_and_editors();
    let s = store(&[
        ("document", "1", "viewer", "user", "anya", ""),
        ("document", "2", "editor", "user", "beatrix", ""),
    ]);
    assert!(matches!(check(&c, &s, ("document", "1", "can_view", "user", "anya", "")), Ok(true)));
    assert!(matches!(
        check(&c, &s, ("document", "1", "can_view", "user", "beatrix", "")),
        Ok(false)
    ));
    assert!(matches!(
        check(&c, &s, ("document", "2", "can_view", "user", "beatrix", "")),
        Ok(true)
    ));
    assert!(matches!(check(&c, &s, ("document", "2", "can_view", "user", "anya", "")), Ok(false)));
}

fn auditors() -> Checker {
    checker(vec![
        user(),
        namespace(
            "document",
            vec![relation("viewer", "user"), relation("auditor", "user")],
            vec![("can_audit", Rewrite::Intersection(vec![cu("viewer"), cu("auditor")]))],
        ),
    ])
}

#[test]
fn intersection_needs_every_child() {
    let c = auditors();
    let mut s = store(&[("document", "1", "viewer", "user", "anya", "")]);
    assert!(matches!(check(&c, &s, ("document", "1", "can_audit", "user", "anya", "")), Ok(false)));
    let added = s.create_tuple(ID, "document", "1", "auditor", "user", "anya", "");
    assert!(matches!(added, Ok(1)));
    assert!(matches!(check(&c, &s, ("document", "1", "can_audit", "user", "anya", "")), Ok(true)));
}

fn chain(length: usize) -> (Checker, Storage) {
    let c = checker(vec![
        user(),
        namespace(
            "document",
            vec![relation("parent", "document"), relation("viewer", "user")],
            vec![("can_view", Rewrite::Union(vec![cu("viewer"), ttu("parent", "can_view")]))],
        ),
    ]);
    let mut s = store(&[]);
    for i in 0..length {
        let from = format!("doc_{}", i);
        let to = format!("doc_{}", i + 1);
        let added = s.create_tuple(ID, "document", &from, "parent", "document", &to, "");
        assert!(matches!(added, Ok(1)));
    }
    let leaf = format!("doc_{}", length);
    assert!(matches!(s.create_tuple(ID, "document", &leaf, "viewer", "user", "anya", ""), Ok(1)));
    (c, s)
}

#[test]
fn depth_bound_ends_a_long_chain() {
    let (c, s) = chain(30);
    let verdict = check(&c, &s, ("document", "doc_0", "can_view", "user", "anya", ""));
    assert!(matches!(verdict, Err(PgFgaError::MaxDepth)));
}

#[test]
fn plain_chain_of_thirty_reaches_the_depth_bound() {
    let c = checker(vec![
        user(),
        namespace(
            "document",
            vec![relation("parent", "document"), relation("viewer", "user")],
            vec![("can_view", ttu("parent", "can_view"))],
        ),
    ]);
    let mut s = store(&[]);
    for i in 0..30 {
        let from = format!("doc_{}", i);
        let to = format!("doc_{}", i + 1);
        let added = s.create_tuple(ID, "document", &from, "parent", "document", &to, "");
        assert!(matches!(added, Ok(1)));
    }
    let added = s.create_tuple(ID, "document", "doc_30", "viewer", "user", "anya", "");
    assert!(matches!(added, Ok(1)));
    let verdict = check(&c, &s, ("document", "doc_0", "can_view", "user", "anya", ""));
    assert!(matches!(verdict, Err(PgFgaError::MaxDepth)));
}

#[test]
fn short_chain_is_followed_to_its_end() {
    let (c, s) = chain(5);
    let verdict = check(&c, &s, ("document", "doc_0", "can_view", "user", "anya", ""));
    assert!(matches!(verdict, Ok(true)));
    let other = check(&c, &s, ("document", "doc_0", "can_view", "user", "beatrix", ""));
    assert!(matches!(other, Ok(false)));
}

#[test]
fn chain_is_followed_up_to_the_last_level() {
    // Each link takes two levels: one for the union, one for the walk.
    let (c, s) = chain(11);
    let verdict = check(&c, &s, ("document", "doc_0", "can_view", "user", "anya", ""));
    assert!(matches!(verdict, Ok(true)));
    let (c, s) = chain(12);
    let verdict = check(&c, &s, ("document", "doc_0", "can_view", "user", "anya", ""));
    assert!(matches!(verdict, Err(PgFgaError::MaxDepth)));
}
