use pgfga::check::{Answer, Request};
use pgfga::error::PgFgaError;
use pgfga::schema::{Namespace, Rewrite, Schema};
use pgfga::storage::{
    filter_query, require_schema, SchemaColumns, SchemaRow, Storage, TupleColumns, TupleRow,
};

const ID: u128 = 11;

fn storage() -> Storage {
    let mut storage = Storage::new();
    for id in [ID, 1, 2] {
        let made = storage.create_schema(id, Schema { namespaces: vec![] }, 0);
        assert!(matches!(made, Ok(Some(made)) if made == id));
    }
    storage
}

fn fields(row: &TupleRow) -> (&str, &str, &str, &str, &str, &str) {
    (
        row.resource_namespace.as_str(),
        row.resource_id.as_str(),
        row.relation.as_str(),
        row.subject_namespace.as_str(),
        row.subject_id.as_str(),
        row.subject_action.as_str(),
    )
}

#[test]
fn test_create_duplicate_tuple_returns_zero() {
    let mut storage = storage();
    let first = storage.create_tuple(ID, "document", "1", "viewer", "user", "anya", "").unwrap();
    assert_eq!(first, 1);
    let second = storage.create_tuple(ID, "document", "1", "viewer", "user", "anya", "").unwrap();
    assert_eq!(second, 0);
    assert_eq!(storage.read_tuples(ID, "", "", "", "", "", "").unwrap().len(), 1);
}

#[test]
fn test_read_tuples_works() {
    let mut storage = storage();
    let tup1 = ("document", "1", "parent", "folder", "x", "");
    let tup2 = ("folder", "x", "viewer", "user", "anya", "");
    storage.create_tuple(ID, tup1.0, tup1.1, tup1.2, tup1.3, tup1.4, tup1.5).unwrap();
    storage.create_tuple(ID, tup2.0, tup2.1, tup2.2, tup2.3, tup2.4, tup2.5).unwrap();

    let all = storage.read_tuples(ID, "", "", "", "", "", "").unwrap();
    assert_eq!(all.len(), 2);
    assert_eq!(fields(&all[0]), tup1);
    assert_eq!(fields(&all[1]), tup2);

    let by_relation = storage.read_tuples(ID, "", "", "parent", "", "", "").unwrap();
    assert_eq!(by_relation.len(), 1);
    assert_eq!(fields(&by_relation[0]), tup1);

    let by_namespace = storage.read_tuples(ID, "folder", "", "", "", "", "").unwrap();
    assert_eq!(by_namespace.len(), 1);
    assert_eq!(fields(&by_namespace[0]), tup2);
}

#[test]
fn test_delete_tuple_works() {
    let mut storage = storage();
    storage.create_tuple(ID, "document", "1", "viewer", "user", "anya", "").unwrap();
    let first = storage.delete_tuple(ID, "document", "1", "viewer", "user", "anya", "").unwrap();
    assert_eq!(first, 1);
    let second = storage.delete_tuple(ID, "document", "1", "viewer", "user", "anya", "").unwrap();
    assert_eq!(second, 0);
    assert!(storage.read_tuples(ID, "", "", "", "", "", "").unwrap().is_empty());
}

#[test]
fn read_tuple_finds_the_exact_tuple_only() {
    let mut storage = storage();
    storage.create_tuple(ID, "document", "1", "viewer", "user", "anya", "").unwrap();
    let found = storage.read_tuple(ID, "document", "1", "viewer", "user", "anya", "").unwrap();
    let row = found.expect("the tuple is stored");
    assert_eq!(fields(&row), ("document", "1", "viewer", "user", "anya", ""));
    assert_eq!(row.schema_id, ID);
    assert!(storage.read_tuple(ID, "document", "1", "viewer", "user", "", "").unwrap().is_none());
    assert!(storage
        .read_tuple(ID, "document", "1", "viewer", "user", "anya", "member")
        .unwrap()
        .is_none());
    assert!(storage.read_tuple(ID, "", "", "", "", "", "").unwrap().is_none());
}

#[test]
fn filter_combines_its_strings() {
    let mut storage = storage();
    storage.create_tuple(ID, "document", "1", "viewer", "user", "anya", "").unwrap();
    storage.create_tuple(ID, "document", "1", "viewer", "user", "beatrix", "").unwrap();
    storage.create_tuple(ID, "document", "2", "viewer", "user", "anya", "").unwrap();
    storage.create_tuple(ID, "document", "1", "editor", "group", "eng", "member").unwrap();
    assert_eq!(storage.read_tuples(ID, "document", "1", "", "", "", "").unwrap().len(), 3);
    assert_eq!(storage.read_tuples(ID, "document", "1", "viewer", "", "", "").unwrap().len(), 2);
    assert_eq!(storage.read_tuples(ID, "", "", "", "", "anya", "").unwrap().len(), 2);
    assert_eq!(storage.read_tuples(ID, "", "", "", "", "", "member").unwrap().len(), 1);
    assert_eq!(storage.read_tuples(ID, "document", "2", "editor", "", "", "").unwrap().len(), 0);
    let one = storage.read_tuples(ID, "document", "1", "viewer", "user", "beatrix", "").unwrap();
    assert_eq!(one.len(), 1);
    assert_eq!(fields(&one[0]), ("document", "1", "viewer", "user", "beatrix", ""));
}

#[test]
fn subject_sets_are_the_tuples_with_an_action() {
    let mut storage = storage();
    storage.create_tuple(ID, "document", "1", "viewer", "user", "anya", "").unwrap();
    storage.create_tuple(ID, "document", "1", "viewer", "group", "eng", "member").unwrap();
    storage.create_tuple(ID, "document", "1", "editor", "group", "ops", "member").unwrap();
    storage.create_tuple(ID, "document", "2", "viewer", "group", "eng", "member").unwrap();
    let listed = storage.read_subjectset_tuples(ID, "document", "1", "viewer").unwrap();
    assert_eq!(listed.len(), 1);
    assert_eq!(fields(&listed[0]), ("document", "1", "viewer", "group", "eng", "member"));
    assert!(storage.read_subjectset_tuples(ID, "document", "3", "viewer").unwrap().is_empty());
}

#[test]
fn tuples_are_scoped_by_schema() {
    let mut storage = storage();
    assert_eq!(storage.create_tuple(1, "document", "1", "viewer", "user", "anya", "").unwrap(), 1);
    assert_eq!(storage.create_tuple(2, "document", "1", "viewer", "user", "anya", "").unwrap(), 1);
    assert_eq!(storage.read_tuples(1, "", "", "", "", "", "").unwrap().len(), 1);
    assert_eq!(storage.read_tuples(3, "", "", "", "", "", "").unwrap().len(), 0);
    assert_eq!(storage.delete_tuple(1, "document", "1", "viewer", "user", "anya", "").unwrap(), 1);
    let first = storage.read_tuple(1, "document", "1", "viewer", "user", "anya", "").unwrap();
    let second = storage.read_tuple(2, "document", "1", "viewer", "user", "anya", "").unwrap();
    assert!(first.is_none());
    assert!(second.is_some());
}

#[test]
fn rows_are_numbered_in_order() {
    let mut storage = storage();
    storage.create_tuple(ID, "document", "1", "viewer", "user", "anya", "").unwrap();
    storage.create_tuple(ID, "document", "2", "viewer", "user", "anya", "").unwrap();
    let all = storage.read_tuples(ID, "", "", "", "", "", "").unwrap();
    assert_eq!(all[0].rowid, 1);
    assert_eq!(all[1].rowid, 2);
}

#[test]
fn long_strings_are_refused() {
    let mut storage = storage();
    let longest = "a".repeat(128);
    let too_long = "a".repeat(129);
    let added = storage.create_tuple(ID, "document", &longest, "viewer", "user", "anya", "");
    assert_eq!(added.unwrap(), 1);
    match storage.create_tuple(ID, "document", &too_long, "viewer", "user", "anya", "") {
        Err(PgFgaError::Public(message)) => {
            assert_eq!(message, "a string of the tuple is longer than 128 bytes")
        }
        _ => panic!("a string of 129 bytes was stored"),
    }
    // Two bytes each: 64 of them fit, 65 do not.
    let wide = "é".repeat(64);
    let wider = "é".repeat(65);
    assert_eq!(storage.create_tuple(ID, "document", "1", "viewer", "user", &wide, "").unwrap(), 1);
    assert!(matches!(
        storage.create_tuple(ID, "document", "1", "viewer", "user", &wider, ""),
        Err(PgFgaError::Public(_))
    ));
    assert_eq!(storage.read_tuples(ID, "", "", "", "", "", "").unwrap().len(), 2);
}

#[test]
fn store_answers_the_questions_of_an_evaluation() {
    let mut storage = storage();
    storage.create_tuple(ID, "document", "1", "viewer", "user", "anya", "").unwrap();
    storage.create_tuple(ID, "document", "1", "viewer", "group", "eng", "member").unwrap();
    storage.create_tuple(ID, "document", "2", "viewer", "group", "ops", "member").unwrap();
    let text = |s: &str| s.to_string();
    let direct = Request::ReadTuple {
        resource_namespace: text("document"),
        resource_id: text("1"),
        relation: text("viewer"),
        subject_namespace: text("user"),
        subject_id: text("anya"),
        subject_action: text(""),
    };
    assert!(matches!(storage.answer(ID, &direct), Answer::Tuple(Some(_))));
    assert!(matches!(storage.answer(ID + 1, &direct), Answer::Tuple(None)));
    let on_relation = Request::ReadTuples {
        resource_namespace: text("document"),
        resource_id: text("1"),
        relation: text("viewer"),
    };
    assert!(matches!(storage.answer(ID, &on_relation), Answer::Tuples(rows) if rows.len() == 2));
    let any_document = Request::ReadTuples {
        resource_namespace: text("document"),
        resource_id: text(""),
        relation: text("viewer"),
    };
    assert!(matches!(storage.answer(ID, &any_document), Answer::Tuples(rows) if rows.len() == 3));
    let usersets = Request::ReadSubjectsetTuples {
        resource_namespace: text("document"),
        resource_id: text("1"),
        relation: text("viewer"),
    };
    match storage.answer(ID, &usersets) {
        Answer::Tuples(rows) => {
            assert_eq!(rows.len(), 1);
            assert_eq!(fields(&rows[0]), ("document", "1", "viewer", "group", "eng", "member"));
        }
        other => panic!("answered {:?}", other),
    }
    let no_resource = Request::ReadSubjectsetTuples {
        resource_namespace: text("document"),
        resource_id: text(""),
        relation: text("viewer"),
    };
    assert!(matches!(storage.answer(ID, &no_resource), Answer::Tuples(rows) if rows.is_empty()));
    match storage.answer(ID, &Request::Finished) {
        Answer::Failed(message) => assert_eq!(message, "the store answered another question"),
        other => panic!("answered {:?}", other),
    }
}

#[test]
fn rows_turn_into_their_columns() {
    let mut storage = storage();
    storage.create_tuple(ID, "document", "1", "viewer", "group", "eng", "member").unwrap();
    let row = storage.read_tuples(ID, "", "", "", "", "", "").unwrap().pop().unwrap();
    let columns: TupleColumns = row.into();
    assert_eq!(
        columns,
        (
            1,
            ID,
            "document".to_string(),
            "1".to_string(),
            "viewer".to_string(),
            "group".to_string(),
            "eng".to_string(),
            "member".to_string()
        )
    );
    let schema = Schema { namespaces: vec![] };
    let row = SchemaRow { rowid: 4, id: 9, schema, created_at: 17 };
    let columns: SchemaColumns = row.into();
    assert_eq!(columns, (4, 9, Schema { namespaces: vec![] }, 17));
}

#[test]
fn test_cannot_create_tuple_on_nonexistant_schema() {
    let mut storage = Storage::new();
    let schema_id = 0x6f1d_2c3a_9b4e_4d7f_8a10_5e6b_7c8d_9e0f;
    match storage.create_tuple(schema_id, "document", "1", "viewer", "user", "anya", "") {
        Err(PgFgaError::UnknownSchemaId(id)) => assert_eq!(id, schema_id),
        other => panic!("ended with {:?}", other),
    }
    assert!(storage.read_tuples(schema_id, "", "", "", "", "", "").unwrap().is_empty());
    // The unknown identifier is told before anything else about the tuple.
    let too_long = "a".repeat(129);
    let refused = storage.create_tuple(schema_id, "document", &too_long, "viewer", "user", "a", "");
    assert!(matches!(refused, Err(PgFgaError::UnknownSchemaId(_))));
    // Once the schema is there the tuple is taken.
    assert!(matches!(storage.create_schema(schema_id, Schema { namespaces: vec![] }, 5), Ok(_)));
    let added = storage.create_tuple(schema_id, "document", "1", "viewer", "user", "anya", "");
    assert_eq!(added.unwrap(), 1);
}

#[test]
fn schema_is_required_where_none_was_found() {
    assert!(matches!(require_schema(0, 77), Err(PgFgaError::UnknownSchemaId(77))));
    assert!(require_schema(1, 77).is_ok());
    assert!(require_schema(3, 77).is_ok());
}

#[test]
fn test_create_and_read_schema() {
    let mut storage = Storage::new();
    let user = || Namespace { relations: vec![], permissions: vec![] };
    let schema = || Schema { namespaces: vec![("user".to_string(), user())] };
    let id = storage.create_schema(21, schema(), 1000).unwrap().unwrap();
    assert_eq!(id, 21);
    let rows = storage.read_schemas(Some(id)).unwrap();
    assert_eq!(rows.len(), 1);
    assert_eq!(rows[0].id, id);
    assert_eq!(rows[0].rowid, 1);
    assert_eq!(rows[0].created_at, 1000);
    assert_eq!(rows[0].schema, schema());
    assert!(storage.read_schemas(Some(22)).unwrap().is_empty());
}

#[test]
fn test_create_and_read_schemas() {
    let mut storage = Storage::new();
    let user = || Namespace { relations: vec![], permissions: vec![] };
    let schema = || Schema { namespaces: vec![("user".to_string(), user())] };
    let id1 = storage.create_schema(31, schema(), 1).unwrap().unwrap();
    let id2 = storage.create_schema(32, schema(), 2).unwrap().unwrap();
    let rows = storage.read_schemas(None).unwrap();
    assert_eq!(rows.len(), 2);
    assert_eq!((rows[0].id, rows[0].rowid), (id1, 1));
    assert_eq!((rows[1].id, rows[1].rowid), (id2, 2));
    assert_eq!(rows[0].schema, schema());
    assert_eq!(rows[1].schema, schema());
}

#[test]
fn test_cannot_create_invalid_schema() {
    let mut storage = Storage::new();
    let dangling = Schema {
        namespaces: vec![(
            "document".to_string(),
            Namespace {
                relations: vec![],
                permissions: vec![(
                    "can_view".to_string(),
                    Rewrite::ComputedUserset("viewer".to_string()),
                )],
            },
        )],
    };
    assert!(matches!(storage.create_schema(41, dangling, 0), Err(PgFgaError::SchemaInvalid)));
    assert!(storage.read_schemas(None).unwrap().is_empty());
}

#[test]
fn taken_identifier_stores_nothing() {
    let mut storage = Storage::new();
    assert!(matches!(storage.create_schema(51, Schema { namespaces: vec![] }, 1), Ok(Some(51))));
    assert!(matches!(storage.create_schema(51, Schema { namespaces: vec![] }, 2), Ok(None)));
    let rows = storage.read_schemas(None).unwrap();
    assert_eq!(rows.len(), 1);
    assert_eq!(rows[0].created_at, 1);
}

#[test]
fn deleting_under_an_unknown_schema_drops_nothing() {
    let mut storage = Storage::new();
    let dropped = storage.delete_tuple(61, "document", "1", "viewer", "user", "anya", "");
    assert_eq!(dropped.unwrap(), 0);
}

#[test]
fn filter_query_tests_the_strings_that_are_not_empty() {
    let (query, arguments) = filter_query("", "", "", "", "", "");
    assert_eq!(query, "SELECT * FROM pgfga.tuple WHERE schema_id = $1");
    assert!(arguments.is_empty());

    let (query, arguments) = filter_query("", "", "parent", "", "", "");
    assert_eq!(query, "SELECT * FROM pgfga.tuple WHERE schema_id = $1 AND relation = $2");
    assert_eq!(arguments, vec!["parent"]);

    let (query, arguments) = filter_query("document", "1", "", "", "anya", "");
    assert_eq!(
        query,
        "SELECT * FROM pgfga.tuple WHERE schema_id = $1 AND resource_namespace = $2 \
         AND resource_id = $3 AND subject_id = $4"
    );
    assert_eq!(arguments, vec!["document", "1", "anya"]);

    let (query, arguments) = filter_query("document", "1", "viewer", "group", "eng", "member");
    assert_eq!(
        query,
        "SELECT * FROM pgfga.tuple WHERE schema_id = $1 AND resource_namespace = $2 \
         AND resource_id = $3 AND relation = $4 AND subject_namespace = $5 \
         AND subject_id = $6 AND subject_action = $7"
    );
    assert_eq!(arguments, vec!["document", "1", "viewer", "group", "eng", "member"]);
}

#[test]
fn store_answers_with_the_stored_row() {
    let mut storage = storage();
    storage.create_tuple(ID, "document", "1", "viewer", "user", "anya", "").unwrap();
    storage.create_tuple(ID, "document", "1", "viewer", "group", "eng", "member").unwrap();
    let text = |s: &str| s.to_string();
    let direct = Request::ReadTuple {
        resource_namespace: text("document"),
        resource_id: text("1"),
        relation: text("viewer"),
        subject_namespace: text("group"),
        subject_id: text("eng"),
        subject_action: text("member"),
    };
    match storage.answer(ID, &direct) {
        Answer::Tuple(Some(row)) => {
            assert_eq!(fields(&row), ("document", "1", "viewer", "group", "eng", "member"));
            assert_eq!((row.rowid, row.schema_id), (2, ID));
        }
        other => panic!("answered {:?}", other),
    }
    let on_relation = Request::ReadTuples {
        resource_namespace: text("document"),
        resource_id: text("1"),
        relation: text("viewer"),
    };
    match storage.answer(ID, &on_relation) {
        Answer::Tuples(rows) => {
            assert_eq!(rows.len(), 2);
            assert_eq!(fields(&rows[0]), ("document", "1", "viewer", "user", "anya", ""));
            assert_eq!((rows[0].rowid, rows[0].schema_id), (1, ID));
            assert_eq!((rows[1].rowid, rows[1].schema_id), (2, ID));
        }
        other => panic!("answered {:?}", other),
    }
}
