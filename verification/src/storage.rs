//! Relationship tuples and schema rows, a store that keeps them in memory,
//! and the text of the query that lists tuples under a filter.

use crate::check::{Answer, Question, Request, misfit_message};
use crate::error::{Failure, PgFgaError};
use crate::schema::Schema;
use crate::semantics::Store;
use vstd::prelude::*;

verus! {

/// A relationship tuple as a mathematical value: the six strings that key it.
pub struct Tuple {
    pub resource_namespace: Seq<char>,
    pub resource_id: Seq<char>,
    pub relation: Seq<char>,
    pub subject_namespace: Seq<char>,
    pub subject_id: Seq<char>,
    pub subject_action: Seq<char>,
}

/// A stored relationship tuple.
#[derive(Debug)]
pub struct TupleRow {
    pub rowid: i64,
    pub schema_id: u128,
    pub resource_namespace: String,
    pub resource_id: String,
    pub relation: String,
    pub subject_namespace: String,
    pub subject_id: String,
    pub subject_action: String,
}

impl View for TupleRow {
    type V = Tuple;

    open spec fn view(&self) -> Tuple {
        Tuple {
            resource_namespace: self.resource_namespace@,
            resource_id: self.resource_id@,
            relation: self.relation@,
            subject_namespace: self.subject_namespace@,
            subject_id: self.subject_id@,
            subject_action: self.subject_action@,
        }
    }
}

/// A stored schema: the schema itself, the identifier that scopes its
/// tuples, and when it was stored, in microseconds.
#[derive(Debug)]
pub struct SchemaRow {
    pub rowid: i64,
    pub id: u128,
    pub schema: Schema,
    pub created_at: i64,
}

/// The columns of a row of tuples.
pub type TupleColumns = (i64, u128, String, String, String, String, String, String);

/// The columns of a row of schemas.
pub type SchemaColumns = (i64, u128, Schema, i64);

impl From<TupleRow> for TupleColumns {
    /// The columns of the row.
    fn from(row: TupleRow) -> (columns: Self) {
        (
            row.rowid,
            row.schema_id,
            row.resource_namespace,
            row.resource_id,
            row.relation,
            row.subject_namespace,
            row.subject_id,
            row.subject_action,
        )
    }
}

impl vstd::std_specs::convert::FromSpecImpl<TupleRow> for TupleColumns {
    open spec fn obeys_from_spec() -> bool {
        true
    }

    open spec fn from_spec(row: TupleRow) -> Self {
        (
            row.rowid,
            row.schema_id,
            row.resource_namespace,
            row.resource_id,
            row.relation,
            row.subject_namespace,
            row.subject_id,
            row.subject_action,
        )
    }
}

impl From<SchemaRow> for SchemaColumns {
    /// The columns of the row.
    fn from(row: SchemaRow) -> (columns: Self) {
        (row.rowid, row.id, row.schema, row.created_at)
    }
}

impl vstd::std_specs::convert::FromSpecImpl<SchemaRow> for SchemaColumns {
    open spec fn obeys_from_spec() -> bool {
        true
    }

    open spec fn from_spec(row: SchemaRow) -> Self {
        (row.rowid, row.id, row.schema, row.created_at)
    }
}

/// The tuples of a list of rows, in the order of the rows.
pub open spec fn tuples_of(rows: Seq<TupleRow>) -> Seq<Tuple> {
    Seq::new(rows.len(), |i: int| rows[i]@)
}

impl Tuple {
    /// Whether this tuple passes `filter`: each string of the filter is
    /// either empty, which admits everything, or equal to the tuple's.
    pub open spec fn passes(self, filter: Tuple) -> bool {
        &&& filter.resource_namespace.len() == 0 || filter.resource_namespace
            == self.resource_namespace
        &&& filter.resource_id.len() == 0 || filter.resource_id == self.resource_id
        &&& filter.relation.len() == 0 || filter.relation == self.relation
        &&& filter.subject_namespace.len() == 0 || filter.subject_namespace
            == self.subject_namespace
        &&& filter.subject_id.len() == 0 || filter.subject_id == self.subject_id
        &&& filter.subject_action.len() == 0 || filter.subject_action == self.subject_action
    }

    /// Whether this tuple hangs on `relation` of the given resource.
    pub open spec fn is_on(
        self,
        resource_namespace: Seq<char>,
        resource_id: Seq<char>,
        relation: Seq<char>,
    ) -> bool {
        &&& self.resource_namespace == resource_namespace
        &&& self.resource_id == resource_id
        &&& self.relation == relation
    }

    /// Whether the subject side names a userset and not a single principal.
    pub open spec fn is_subject_set(self) -> bool {
        self.subject_action.len() > 0
    }
}

/// The longest string, in bytes, that a tuple may hold.
pub const MAX_BYTES: usize = 128;

/// Which tuples a listing takes.
pub enum Pick {
    /// Those that pass a filter.
    Filter(Tuple),
    /// Those on a relation of a resource whose subject is a userset.
    Usersets(Seq<char>, Seq<char>, Seq<char>),
}

impl Pick {
    /// Whether the listing takes `t`.
    pub open spec fn admits(self, t: Tuple) -> bool {
        match self {
            Pick::Filter(filter) => t.passes(filter),
            Pick::Usersets(ns, id, relation) => t.is_on(ns, id, relation) && t.is_subject_set(),
        }
    }
}

impl TupleRow {
    /// Whether this row keeps the tuple `t` under `schema_id`.
    pub open spec fn keeps(self, schema_id: u128, t: Tuple) -> bool {
        self.schema_id == schema_id && self@ == t
    }

    /// A copy of this row.
    pub fn duplicate(&self) -> (copy: TupleRow)
        ensures
            copy == *self,
    {
        TupleRow {
            rowid: self.rowid,
            schema_id: self.schema_id,
            resource_namespace: self.resource_namespace.clone(),
            resource_id: self.resource_id.clone(),
            relation: self.relation.clone(),
            subject_namespace: self.subject_namespace.clone(),
            subject_id: self.subject_id.clone(),
            subject_action: self.subject_action.clone(),
        }
    }
}

/// The tuples that `rows` keep under `schema_id`.
pub open spec fn stored(rows: Seq<TupleRow>, schema_id: u128) -> Set<Tuple> {
    Set::new(
        |t: Tuple| exists|i: int| 0 <= i < rows.len() && (#[trigger] rows[i]).keeps(schema_id, t),
    )
}

/// The rows among the first `upto` that are kept under `schema_id` and
/// whose tuple `pick` takes, in their order.
pub open spec fn chosen(rows: Seq<TupleRow>, schema_id: u128, pick: Pick, upto: int) -> Seq<
    TupleRow,
>
    decreases upto,
{
    if upto <= 0 {
        Seq::empty()
    } else {
        let before = chosen(rows, schema_id, pick, upto - 1);
        if upto <= rows.len() && rows[upto - 1].schema_id == schema_id && pick.admits(
            rows[upto - 1]@,
        ) {
            before.push(rows[upto - 1])
        } else {
            before
        }
    }
}

/// The tuples of the rows that a listing takes are the tuples that it takes.
pub proof fn lemma_chosen_tuples(rows: Seq<TupleRow>, schema_id: u128, pick: Pick, upto: int)
    ensures
        tuples_of(chosen(rows, schema_id, pick, upto)) == selected(rows, schema_id, pick, upto),
    decreases upto,
{
    if upto > 0 {
        lemma_chosen_tuples(rows, schema_id, pick, upto - 1);
    }
}

/// The tuples among the first `upto` rows that are kept under `schema_id`
/// and that `pick` takes, in the order of the rows.
pub open spec fn selected(rows: Seq<TupleRow>, schema_id: u128, pick: Pick, upto: int) -> Seq<
    Tuple,
>
    decreases upto,
{
    if upto <= 0 {
        Seq::empty()
    } else {
        let before = selected(rows, schema_id, pick, upto - 1);
        if upto <= rows.len() && rows[upto - 1].schema_id == schema_id && pick.admits(
            rows[upto - 1]@,
        ) {
            before.push(rows[upto - 1]@)
        } else {
            before
        }
    }
}

/// A listing holds exactly the tuples that its rows keep and its pick takes.
pub proof fn lemma_selected_holds(
    rows: Seq<TupleRow>,
    schema_id: u128,
    pick: Pick,
    upto: int,
    t: Tuple,
)
    requires
        0 <= upto <= rows.len(),
    ensures
        selected(rows, schema_id, pick, upto).contains(t) <==> pick.admits(t) && exists|i: int|
            0 <= i < upto && (#[trigger] rows[i]).keeps(schema_id, t),
    decreases upto,
{
    if upto > 0 {
        lemma_selected_holds(rows, schema_id, pick, upto - 1, t);
        let before = selected(rows, schema_id, pick, upto - 1);
        let last = rows[upto - 1];
        if last.schema_id == schema_id && pick.admits(last@) {
            let all = before.push(last@);
            assert(all.last() == last@);
            assert forall|k: int| 0 <= k < before.len() implies all[k] == before[k] by {}
        }
    }
}

/// Whether a row of `schemas` has the identifier `schema_id`.
pub open spec fn holds_schema(schemas: Seq<SchemaRow>, schema_id: u128) -> bool {
    exists|i: int| 0 <= i < schemas.len() && (#[trigger] schemas[i]).id == schema_id
}

/// The first `upto` rows of `schemas` that are asked for: all of them, or
/// those with the identifier given; in their order.
pub open spec fn schemas_under(schemas: Seq<SchemaRow>, id: Option<u128>, upto: int) -> Seq<
    SchemaRow,
>
    decreases upto,
{
    if upto <= 0 {
        Seq::empty()
    } else {
        let before = schemas_under(schemas, id, upto - 1);
        if upto <= schemas.len() && (id is None || id == Some(schemas[upto - 1].id)) {
            before.push(schemas[upto - 1])
        } else {
            before
        }
    }
}

/// Whether an identifier under which `found` schemas were read has a
/// schema: tuples are stored only under schemas that exist.
pub fn require_schema(found: usize, schema_id: u128) -> (known: Result<(), PgFgaError>)
    ensures
        known is Ok <==> found > 0,
        known matches Err(e) ==> e@ == Failure::UnknownSchemaId(schema_id),
{
    if found == 0 {
        Err(PgFgaError::UnknownSchemaId(schema_id))
    } else {
        Ok(())
    }
}

/// A store in memory: the schemas, each under its identifier, and rows of
/// tuples, each under the identifier of its schema, none twice.
pub struct Storage {
    schemas: Vec<SchemaRow>,
    next_schema_rowid: i64,
    rows: Vec<TupleRow>,
    next_rowid: i64,
}

impl Storage {
    /// The rows of the store, oldest first.
    pub closed spec fn rows(self) -> Seq<TupleRow> {
        self.rows@
    }

    /// The tuples that the store holds under `schema_id`.
    pub open spec fn tuples(self, schema_id: u128) -> Set<Tuple> {
        stored(self.rows(), schema_id)
    }

    /// Whether no tuple is stored twice under one schema and no two
    /// schemas stand under one identifier.
    pub open spec fn well_formed(self) -> bool {
        &&& self.tuples_are_distinct()
        &&& self.schemas_are_distinct()
    }

    /// Whether no tuple is stored twice under one schema.
    pub open spec fn tuples_are_distinct(self) -> bool {
        forall|i: int, j: int|
            0 <= i < j < self.rows().len() ==> !(#[trigger] self.rows()[i]).keeps(
                (#[trigger] self.rows()[j]).schema_id,
                self.rows()[j]@,
            )
    }

    /// Whether no two schemas stand under one identifier.
    pub open spec fn schemas_are_distinct(self) -> bool {
        forall|i: int, j: int|
            0 <= i < j < self.schemas().len() ==> (#[trigger] self.schemas()[i]).id != (
            #[trigger] self.schemas()[j]).id
    }

    /// The schemas of the store, oldest first.
    pub closed spec fn schemas(self) -> Seq<SchemaRow> {
        self.schemas@
    }

    /// Whether the store has a schema under `schema_id`.
    pub open spec fn knows(self, schema_id: u128) -> bool {
        holds_schema(self.schemas(), schema_id)
    }

    /// The row identifier that the next schema gets.
    pub closed spec fn next_schema_rowid(self) -> i64 {
        self.next_schema_rowid
    }

    /// What the store answers to the questions of an evaluation under
    /// `schema_id`: it never fails, and it lists tuples oldest first.
    pub open spec fn model(self, schema_id: u128) -> Store {
        Store {
            tuple: |t: Tuple| Ok::<bool, Seq<char>>(self.tuples(schema_id).contains(t)),
            tuples: |filter: Tuple|
                Ok::<Seq<Tuple>, Seq<char>>(
                    selected(
                        self.rows(),
                        schema_id,
                        Pick::Filter(filter),
                        self.rows().len() as int,
                    ),
                ),
            subject_sets: |ns: Seq<char>, id: Seq<char>, relation: Seq<char>|
                Ok::<Seq<Tuple>, Seq<char>>(
                    selected(
                        self.rows(),
                        schema_id,
                        Pick::Usersets(ns, id, relation),
                        self.rows().len() as int,
                    ),
                ),
        }
    }

    /// The store answers as one that holds exactly its tuples.
    pub proof fn law_model_serves(self, schema_id: u128)
        ensures
            self.model(schema_id).serves_exactly(self.tuples(schema_id)),
    {
        let store = self.model(schema_id);
        let rows = self.rows();
        let n = rows.len() as int;
        assert forall|filter: Tuple, t: Tuple| #[trigger]
            store.filtered(filter).contains(t) <==> self.tuples(schema_id).contains(t) && t.passes(
                filter,
            ) by {
            lemma_selected_holds(rows, schema_id, Pick::Filter(filter), n, t);
        }
        assert forall|ns: Seq<char>, id: Seq<char>, relation: Seq<char>, t: Tuple| #[trigger]
            store.usersets(ns, id, relation).contains(t) <==> self.tuples(schema_id).contains(t)
                && t.is_on(ns, id, relation) && t.is_subject_set() by {
            lemma_selected_holds(rows, schema_id, Pick::Usersets(ns, id, relation), n, t);
        }
    }

    /// An empty store.
    pub fn new() -> (store: Storage)
        ensures
            store.well_formed(),
            store.schemas().len() == 0,
            store.next_schema_rowid() == 1,
            store.rows().len() == 0,
            store.next_rowid() == 1,
            forall|schema_id: u128| #[trigger] store.tuples(schema_id) == Set::<Tuple>::empty(),
    {
        Storage { schemas: Vec::new(), next_schema_rowid: 1, rows: Vec::new(), next_rowid: 1 }
    }

    /// Where the store keeps the schema under `schema_id`.
    fn schema_position(&self, schema_id: u128) -> (found: Option<usize>)
        ensures
            match found {
                Some(i) => i < self.schemas().len() && self.schemas()[i as int].id == schema_id,
                None => !self.knows(schema_id),
            },
    {
        let mut i: usize = 0;
        while i < self.schemas.len()
            invariant
                i <= self.schemas@.len(),
                forall|k: int| 0 <= k < i ==> (#[trigger] self.schemas@[k]).id != schema_id,
            decreases self.schemas@.len() - i,
        {
            if self.schemas[i].id == schema_id {
                return Some(i);
            }
            i += 1;
        }
        None
    }

    /// Stores `schema` under `id` with the time `created_at`, and says
    /// under which identifier it now stands. The identifier and the time
    /// are the caller's to choose. A schema that breaks the rules on names
    /// is refused; under an identifier that is taken nothing is stored.
    pub fn create_schema(&mut self, id: u128, schema: Schema, created_at: i64) -> (created: Result<
        Option<u128>,
        PgFgaError,
    >)
        requires
            old(self).well_formed(),
        ensures
            final(self).well_formed(),
            final(self).rows() == old(self).rows(),
            final(self).next_rowid() == old(self).next_rowid(),
            match created {
                Ok(Some(made)) => {
                    &&& made == id
                    &&& schema.valid()
                    &&& !old(self).knows(id)
                    &&& old(self).next_schema_rowid() < i64::MAX
                    &&& final(self).schemas() == old(self).schemas().push(
                        SchemaRow { rowid: old(self).next_schema_rowid(), id, schema, created_at },
                    )
                    &&& final(self).next_schema_rowid() == old(self).next_schema_rowid() + 1
                },
                Ok(None) => {
                    &&& schema.valid()
                    &&& old(self).knows(id)
                    &&& final(self).schemas() == old(self).schemas()
                    &&& final(self).next_schema_rowid() == old(self).next_schema_rowid()
                },
                Err(e) => {
                    &&& final(self).schemas() == old(self).schemas()
                    &&& final(self).next_schema_rowid() == old(self).next_schema_rowid()
                    &&& if !schema.valid() {
                        e@ == Failure::SchemaInvalid
                    } else {
                        &&& !old(self).knows(id)
                        &&& old(self).next_schema_rowid() == i64::MAX
                        &&& e@ == Failure::Public(no_rowid())
                    }
                },
            },
    {
        match schema.validate() {
            Err(e) => {
                return Err(e);
            },
            Ok(_) => {},
        }
        match self.schema_position(id) {
            Some(_) => Ok(None),
            None => {
                if self.next_schema_rowid == i64::MAX {
                    return Err(
                        PgFgaError::Public("the store has no row identifier left".to_owned()),
                    );
                }
                let row = SchemaRow { rowid: self.next_schema_rowid, id, schema, created_at };
                self.next_schema_rowid = self.next_schema_rowid + 1;
                self.schemas.push(row);
                proof {
                    assert(self.rows() == old(self).rows());
                }
                Ok(Some(id))
            },
        }
    }

    /// The schemas of the store, or the one under an identifier; oldest first.
    pub fn read_schemas(&self, id: Option<u128>) -> (read: Result<Vec<&SchemaRow>, PgFgaError>)
        ensures
            read matches Ok(listed) && ({
                let wanted = schemas_under(self.schemas(), id, self.schemas().len() as int);
                &&& listed@.len() == wanted.len()
                &&& forall|k: int| 0 <= k < listed@.len() ==> *(#[trigger] listed@[k]) == wanted[k]
            }),
    {
        let mut listed: Vec<&SchemaRow> = Vec::new();
        let mut i: usize = 0;
        while i < self.schemas.len()
            invariant
                i <= self.schemas@.len(),
                listed@.len() == schemas_under(self.schemas@, id, i as int).len(),
                forall|k: int|
                    0 <= k < listed@.len() ==> *(#[trigger] listed@[k]) == schemas_under(
                        self.schemas@,
                        id,
                        i as int,
                    )[k],
            decreases self.schemas@.len() - i,
        {
            let wanted = match id {
                None => true,
                Some(wanted_id) => self.schemas[i].id == wanted_id,
            };
            if wanted {
                listed.push(&self.schemas[i]);
            }
            i += 1;
        }
        Ok(listed)
    }
}

/// The tuple of six strings.
pub open spec fn tuple_of(
    resource_namespace: Seq<char>,
    resource_id: Seq<char>,
    relation: Seq<char>,
    subject_namespace: Seq<char>,
    subject_id: Seq<char>,
    subject_action: Seq<char>,
) -> Tuple {
    Tuple {
        resource_namespace,
        resource_id,
        relation,
        subject_namespace,
        subject_id,
        subject_action,
    }
}

/// The length of a string in bytes, as the machine counts it.
pub open spec fn byte_length(text: Seq<char>) -> usize {
    vstd::utf8::encode_utf8(text).len() as usize
}

/// Whether a string is short enough for a tuple.
pub open spec fn fits(text: Seq<char>) -> bool {
    byte_length(text) <= MAX_BYTES
}

impl Tuple {
    /// Whether each of the six strings is short enough.
    pub open spec fn fits(self) -> bool {
        &&& fits(self.resource_namespace)
        &&& fits(self.resource_id)
        &&& fits(self.relation)
        &&& fits(self.subject_namespace)
        &&& fits(self.subject_id)
        &&& fits(self.subject_action)
    }
}

/// A row for the tuple of six strings, not yet stored.
fn row_of(
    schema_id: u128,
    resource_namespace: &str,
    resource_id: &str,
    relation: &str,
    subject_namespace: &str,
    subject_id: &str,
    subject_action: &str,
) -> (row: TupleRow)
    ensures
        row.schema_id == schema_id,
        row.rowid == 0,
        row@ == tuple_of(
            resource_namespace@,
            resource_id@,
            relation@,
            subject_namespace@,
            subject_id@,
            subject_action@,
        ),
{
    TupleRow {
        rowid: 0,
        schema_id,
        resource_namespace: resource_namespace.to_owned(),
        resource_id: resource_id.to_owned(),
        relation: relation.to_owned(),
        subject_namespace: subject_namespace.to_owned(),
        subject_id: subject_id.to_owned(),
        subject_action: subject_action.to_owned(),
    }
}

/// Whether a string of a tuple passes the string of a filter.
fn passes(value: &String, wanted: &String) -> (yes: bool)
    ensures
        yes == (wanted@.len() == 0 || wanted@ == value@),
{
    wanted.as_str().is_empty() || *wanted == *value
}

/// Which rows a listing takes.
enum Selection {
    Filter(TupleRow),
    Usersets(String, String, String),
}

impl Selection {
    /// The tuples that the listing takes.
    spec fn pick(self) -> Pick {
        match self {
            Selection::Filter(filter) => Pick::Filter(filter@),
            Selection::Usersets(ns, id, relation) => Pick::Usersets(ns@, id@, relation@),
        }
    }

    /// Whether the listing takes `row`.
    fn takes(&self, row: &TupleRow) -> (yes: bool)
        ensures
            yes == self.pick().admits(row@),
    {
        match self {
            Selection::Filter(filter) => passes(&row.resource_namespace, &filter.resource_namespace)
                && passes(&row.resource_id, &filter.resource_id) && passes(
                &row.relation,
                &filter.relation,
            ) && passes(&row.subject_namespace, &filter.subject_namespace) && passes(
                &row.subject_id,
                &filter.subject_id,
            ) && passes(&row.subject_action, &filter.subject_action),
            Selection::Usersets(ns, id, relation) => row.resource_namespace == *ns
                && row.resource_id == *id && row.relation == *relation
                && !row.subject_action.as_str().is_empty(),
        }
    }
}

impl TupleRow {
    /// Whether this row keeps the tuple of `other` under the schema of `other`.
    fn same_key(&self, other: &TupleRow) -> (yes: bool)
        ensures
            yes == self.keeps(other.schema_id, other@),
    {
        self.schema_id == other.schema_id && self.resource_namespace == other.resource_namespace
            && self.resource_id == other.resource_id && self.relation == other.relation
            && self.subject_namespace == other.subject_namespace && self.subject_id
            == other.subject_id && self.subject_action == other.subject_action
    }

    /// Whether each string of the row is short enough for the store.
    fn is_short(&self) -> (yes: bool)
        ensures
            yes == self@.fits(),
    {
        self.resource_namespace.as_str().len() <= MAX_BYTES && self.resource_id.as_str().len()
            <= MAX_BYTES && self.relation.as_str().len() <= MAX_BYTES
            && self.subject_namespace.as_str().len() <= MAX_BYTES && self.subject_id.as_str().len()
            <= MAX_BYTES && self.subject_action.as_str().len() <= MAX_BYTES
    }
}

impl Storage {
    /// Where the store keeps the tuple of `key` under the schema of `key`.
    fn position(&self, key: &TupleRow) -> (found: Option<usize>)
        ensures
            match found {
                Some(i) => i < self.rows().len() && self.rows()[i as int].keeps(
                    key.schema_id,
                    key@,
                ),
                None => !self.tuples(key.schema_id).contains(key@),
            },
    {
        let mut i: usize = 0;
        while i < self.rows.len()
            invariant
                i <= self.rows@.len(),
                forall|k: int|
                    0 <= k < i ==> !(#[trigger] self.rows@[k]).keeps(key.schema_id, key@),
            decreases self.rows@.len() - i,
        {
            if self.rows[i].same_key(key) {
                return Some(i);
            }
            i += 1;
        }
        None
    }

    /// The rows under `schema_id` that `selection` takes, oldest first.
    fn select(&self, schema_id: u128, selection: &Selection) -> (listed: Vec<TupleRow>)
        ensures
            listed@ == chosen(self.rows(), schema_id, selection.pick(), self.rows().len() as int),
    {
        let mut listed: Vec<TupleRow> = Vec::new();
        let mut i: usize = 0;
        while i < self.rows.len()
            invariant
                i <= self.rows@.len(),
                listed@ == chosen(self.rows@, schema_id, selection.pick(), i as int),
            decreases self.rows@.len() - i,
        {
            if self.rows[i].schema_id == schema_id && selection.takes(&self.rows[i]) {
                listed.push(self.rows[i].duplicate());
            }
            i += 1;
        }
        listed
    }

    /// The stored tuple with exactly these six strings, if there is one.
    pub fn read_tuple(
        &self,
        schema_id: u128,
        resource_namespace: &str,
        resource_id: &str,
        relation: &str,
        subject_namespace: &str,
        subject_id: &str,
        subject_action: &str,
    ) -> (read: Result<Option<TupleRow>, PgFgaError>)
        ensures
            read is Ok,
            ({
                let key = tuple_of(
                    resource_namespace@,
                    resource_id@,
                    relation@,
                    subject_namespace@,
                    subject_id@,
                    subject_action@,
                );
                match read {
                    Ok(Some(row)) => self.rows().contains(row) && row.keeps(schema_id, key),
                    _ => !self.tuples(schema_id).contains(key),
                }
            }),
    {
        let key = row_of(
            schema_id,
            resource_namespace,
            resource_id,
            relation,
            subject_namespace,
            subject_id,
            subject_action,
        );
        match self.position(&key) {
            Some(i) => Ok(Some(self.rows[i].duplicate())),
            None => Ok(None),
        }
    }

    /// The stored tuples that pass the filter of these six strings, of
    /// which an empty one admits everything; oldest first.
    pub fn read_tuples(
        &self,
        schema_id: u128,
        resource_namespace: &str,
        resource_id: &str,
        relation: &str,
        subject_namespace: &str,
        subject_id: &str,
        subject_action: &str,
    ) -> (read: Result<Vec<TupleRow>, PgFgaError>)
        ensures
            read matches Ok(listed) && listed@ == chosen(
                self.rows(),
                schema_id,
                Pick::Filter(
                    tuple_of(
                        resource_namespace@,
                        resource_id@,
                        relation@,
                        subject_namespace@,
                        subject_id@,
                        subject_action@,
                    ),
                ),
                self.rows().len() as int,
            ),
    {
        let filter = row_of(
            schema_id,
            resource_namespace,
            resource_id,
            relation,
            subject_namespace,
            subject_id,
            subject_action,
        );
        Ok(self.select(schema_id, &Selection::Filter(filter)))
    }

    /// The stored tuples on a relation of a resource whose subject is a
    /// userset; oldest first.
    pub fn read_subjectset_tuples(
        &self,
        schema_id: u128,
        resource_namespace: &str,
        resource_id: &str,
        relation: &str,
    ) -> (read: Result<Vec<TupleRow>, PgFgaError>)
        ensures
            read matches Ok(listed) && listed@ == chosen(
                self.rows(),
                schema_id,
                Pick::Usersets(resource_namespace@, resource_id@, relation@),
                self.rows().len() as int,
            ),
    {
        let selection = Selection::Usersets(
            resource_namespace.to_owned(),
            resource_id.to_owned(),
            relation.to_owned(),
        );
        Ok(self.select(schema_id, &selection))
    }
}

/// What storing a row adds to what the rows keep.
pub proof fn lemma_stored_push(rows: Seq<TupleRow>, row: TupleRow, schema_id: u128)
    ensures
        stored(rows.push(row), schema_id) == if schema_id == row.schema_id {
            stored(rows, schema_id).insert(row@)
        } else {
            stored(rows, schema_id)
        },
{
    let more = rows.push(row);
    assert forall|t: Tuple| #[trigger]
        stored(more, schema_id).contains(t) <==> (stored(rows, schema_id).contains(t) || row.keeps(
            schema_id,
            t,
        )) by {
        if stored(more, schema_id).contains(t) {
            let i = choose|i: int| 0 <= i < more.len() && (#[trigger] more[i]).keeps(schema_id, t);
        }
        if stored(rows, schema_id).contains(t) {
            let i = choose|i: int| 0 <= i < rows.len() && (#[trigger] rows[i]).keeps(schema_id, t);
            assert(more[i].keeps(schema_id, t));
        }
        if row.keeps(schema_id, t) {
            assert(more[rows.len() as int].keeps(schema_id, t));
        }
    }
}

/// What dropping a row takes from what the rows keep, where no tuple is
/// kept twice under one schema.
pub proof fn lemma_stored_remove(rows: Seq<TupleRow>, at: int, schema_id: u128)
    requires
        0 <= at < rows.len(),
        forall|i: int, j: int|
            0 <= i < j < rows.len() ==> !(#[trigger] rows[i]).keeps(
                (#[trigger] rows[j]).schema_id,
                rows[j]@,
            ),
    ensures
        stored(rows.remove(at), schema_id) == if schema_id == rows[at].schema_id {
            stored(rows, schema_id).remove(rows[at]@)
        } else {
            stored(rows, schema_id)
        },
{
    let fewer = rows.remove(at);
    let gone = rows[at];
    assert forall|t: Tuple| #[trigger]
        stored(fewer, schema_id).contains(t) <==> (stored(rows, schema_id).contains(t)
            && !gone.keeps(schema_id, t)) by {
        if stored(rows, schema_id).contains(t) && !gone.keeps(schema_id, t) {
            let k = choose|k: int| 0 <= k < rows.len() && (#[trigger] rows[k]).keeps(schema_id, t);
            let i = if k < at {
                k
            } else {
                k - 1
            };
            assert(fewer[i].keeps(schema_id, t));
        }
    }
}

/// The message of the refusal of a tuple with a string that is too long.
pub open spec fn too_long() -> Seq<char> {
    "a string of the tuple is longer than 128 bytes"@
}

/// The message of the refusal of a tuple for want of a row identifier.
pub open spec fn no_rowid() -> Seq<char> {
    "the store has no row identifier left"@
}

impl Storage {
    /// The identifier that the next row gets.
    pub closed spec fn next_rowid(self) -> i64 {
        self.next_rowid
    }

    /// Whether the store has handed out its last row identifier.
    pub open spec fn full(self) -> bool {
        self.next_rowid() == i64::MAX
    }

    /// Stores the tuple of these six strings under `schema_id`, unless it
    /// is stored already, and says how many rows it added. Without a
    /// schema under `schema_id` the identifier is unknown and nothing is
    /// stored. A string of more than 128 bytes is refused.
    pub fn create_tuple(
        &mut self,
        schema_id: u128,
        resource_namespace: &str,
        resource_id: &str,
        relation: &str,
        subject_namespace: &str,
        subject_id: &str,
        subject_action: &str,
    ) -> (created: Result<i64, PgFgaError>)
        requires
            old(self).well_formed(),
        ensures
            final(self).well_formed(),
            final(self).schemas() == old(self).schemas(),
            final(self).next_schema_rowid() == old(self).next_schema_rowid(),
            forall|other: u128|
                other != schema_id ==> #[trigger] final(self).tuples(other) == old(self).tuples(
                    other,
                ),
            ({
                let key = tuple_of(
                    resource_namespace@,
                    resource_id@,
                    relation@,
                    subject_namespace@,
                    subject_id@,
                    subject_action@,
                );
                let known = old(self).tuples(schema_id).contains(key);
                match created {
                    Ok(rows) => {
                        &&& old(self).knows(schema_id)
                        &&& key.fits()
                        &&& known || !old(self).full()
                        &&& rows == (if known {
                            0i64
                        } else {
                            1i64
                        })
                        &&& final(self).tuples(schema_id) == old(self).tuples(schema_id).insert(key)
                        &&& if known {
                            final(self).rows() == old(self).rows() && final(self).next_rowid()
                                == old(self).next_rowid()
                        } else {
                            &&& final(self).rows().len() == old(self).rows().len() + 1
                            &&& final(self).rows().drop_last() == old(self).rows()
                            &&& final(self).rows().last().keeps(schema_id, key)
                            &&& final(self).rows().last().rowid == old(self).next_rowid()
                            &&& final(self).next_rowid() == old(self).next_rowid() + 1
                        }
                    },
                    Err(e) => {
                        &&& final(self).rows() == old(self).rows()
                        &&& final(self).next_rowid() == old(self).next_rowid()
                        &&& e@ == Failure::UnknownSchemaId(schema_id) <==> !old(self).knows(
                            schema_id,
                        )
                        &&& old(self).knows(schema_id) ==> if !key.fits() {
                            e@ == Failure::Public(too_long())
                        } else {
                            !known && old(self).full() && e@ == Failure::Public(no_rowid())
                        }
                    },
                }
            }),
    {
        let found: usize = match self.schema_position(schema_id) {
            Some(_) => 1,
            None => 0,
        };
        match require_schema(found, schema_id) {
            Err(e) => {
                return Err(e);
            },
            Ok(_) => {},
        }
        let mut row = row_of(
            schema_id,
            resource_namespace,
            resource_id,
            relation,
            subject_namespace,
            subject_id,
            subject_action,
        );
        if !row.is_short() {
            return Err(
                PgFgaError::Public("a string of the tuple is longer than 128 bytes".to_owned()),
            );
        }
        match self.position(&row) {
            Some(_) => {
                Ok(0)
            },
            None => {
                if self.next_rowid == i64::MAX {
                    return Err(
                        PgFgaError::Public("the store has no row identifier left".to_owned()),
                    );
                }
                row.rowid = self.next_rowid;
                self.next_rowid = self.next_rowid + 1;
                proof {
                    assert forall|id: u128| #[trigger]
                        stored(self.rows@.push(row), id) == if id == row.schema_id {
                            stored(self.rows@, id).insert(row@)
                        } else {
                            stored(self.rows@, id)
                        } by {
                        lemma_stored_push(self.rows@, row, id);
                    }
                }
                self.rows.push(row);
                Ok(1)
            },
        }
    }

    /// Drops the tuple of these six strings under `schema_id`, if it is
    /// stored, and says how many rows it dropped.
    pub fn delete_tuple(
        &mut self,
        schema_id: u128,
        resource_namespace: &str,
        resource_id: &str,
        relation: &str,
        subject_namespace: &str,
        subject_id: &str,
        subject_action: &str,
    ) -> (deleted: Result<i64, PgFgaError>)
        requires
            old(self).well_formed(),
        ensures
            final(self).well_formed(),
            final(self).schemas() == old(self).schemas(),
            final(self).next_schema_rowid() == old(self).next_schema_rowid(),
            forall|other: u128|
                other != schema_id ==> #[trigger] final(self).tuples(other) == old(self).tuples(
                    other,
                ),
            ({
                let key = tuple_of(
                    resource_namespace@,
                    resource_id@,
                    relation@,
                    subject_namespace@,
                    subject_id@,
                    subject_action@,
                );
                &&& deleted matches Ok(rows)
                &&& rows == (if old(self).tuples(schema_id).contains(key) {
                    1i64
                } else {
                    0i64
                })
                &&& final(self).tuples(schema_id) == old(self).tuples(schema_id).remove(key)
                &&& final(self).next_rowid() == old(self).next_rowid()
                &&& if rows == 0 {
                    final(self).rows() == old(self).rows()
                } else {
                    exists|at: int|
                        0 <= at < old(self).rows().len() && (#[trigger] old(self).rows()[at]).keeps(
                            schema_id,
                            key,
                        ) && final(self).rows() == old(self).rows().remove(at)
                }
            }),
    {
        let row = row_of(
            schema_id,
            resource_namespace,
            resource_id,
            relation,
            subject_namespace,
            subject_id,
            subject_action,
        );
        match self.position(&row) {
            None => {
                Ok(0)
            },
            Some(at) => {
                proof {
                    assert forall|id: u128| #[trigger]
                        stored(self.rows@.remove(at as int), id) == if id
                            == self.rows@[at as int].schema_id {
                            stored(self.rows@, id).remove(self.rows@[at as int]@)
                        } else {
                            stored(self.rows@, id)
                        } by {
                        lemma_stored_remove(self.rows@, at as int, id);
                    }
                }
                let _ = self.rows.remove(at);
                proof {
                    assert(self.schemas() == old(self).schemas());
                }
                Ok(1)
            },
        }
    }

    /// Answers a question of an evaluation under `schema_id`: with the
    /// stored row that keeps the tuple asked for, or with the stored rows
    /// that the listing takes, oldest first.
    pub fn answer(&self, schema_id: u128, request: &Request) -> (answer: Answer)
        ensures
            answer@ == self.model(schema_id).reply(request@),
            match answer {
                Answer::Tuple(Some(row)) => request@ matches Question::Tuple(key)
                    && self.rows().contains(row) && row.keeps(schema_id, key),
                Answer::Tuples(listed) => match request@ {
                    Question::Tuples(filter) => listed@ == chosen(
                        self.rows(),
                        schema_id,
                        Pick::Filter(filter),
                        self.rows().len() as int,
                    ),
                    Question::SubjectSets(ns, id, relation) => listed@ == chosen(
                        self.rows(),
                        schema_id,
                        Pick::Usersets(ns, id, relation),
                        self.rows().len() as int,
                    ),
                    _ => false,
                },
                _ => true,
            },
    {
        match request {
            Request::ReadTuple {
                resource_namespace,
                resource_id,
                relation,
                subject_namespace,
                subject_id,
                subject_action,
            } => {
                let key = TupleRow {
                    rowid: 0,
                    schema_id,
                    resource_namespace: resource_namespace.clone(),
                    resource_id: resource_id.clone(),
                    relation: relation.clone(),
                    subject_namespace: subject_namespace.clone(),
                    subject_id: subject_id.clone(),
                    subject_action: subject_action.clone(),
                };
                match self.position(&key) {
                    Some(i) => Answer::Tuple(Some(self.rows[i].duplicate())),
                    None => Answer::Tuple(None),
                }
            },
            Request::ReadTuples { resource_namespace, resource_id, relation } => {
                let filter = TupleRow {
                    rowid: 0,
                    schema_id,
                    resource_namespace: resource_namespace.clone(),
                    resource_id: resource_id.clone(),
                    relation: relation.clone(),
                    subject_namespace: String::new(),
                    subject_id: String::new(),
                    subject_action: String::new(),
                };
                let selection = Selection::Filter(filter);
                proof {
                    lemma_chosen_tuples(
                        self.rows@,
                        schema_id,
                        selection.pick(),
                        self.rows@.len() as int,
                    );
                }
                Answer::Tuples(self.select(schema_id, &selection))
            },
            Request::ReadSubjectsetTuples { resource_namespace, resource_id, relation } => {
                let selection = Selection::Usersets(
                    resource_namespace.clone(),
                    resource_id.clone(),
                    relation.clone(),
                );
                proof {
                    lemma_chosen_tuples(
                        self.rows@,
                        schema_id,
                        selection.pick(),
                        self.rows@.len() as int,
                    );
                }
                Answer::Tuples(self.select(schema_id, &selection))
            },
            Request::Finished => Answer::Failed(misfit_message()),
        }
    }
}

/// The views of a list of strings.
pub open spec fn texts(strings: Seq<String>) -> Seq<Seq<char>> {
    Seq::new(strings.len(), |i: int| strings[i]@)
}

/// The name of the parameter of a query at `position`, of which a filter
/// has the second to the seventh.
pub open spec fn placeholder(position: nat) -> Seq<char> {
    if position == 2 {
        "$2"@
    } else if position == 3 {
        "$3"@
    } else if position == 4 {
        "$4"@
    } else if position == 5 {
        "$5"@
    } else if position == 6 {
        "$6"@
    } else {
        "$7"@
    }
}

/// A query and its arguments with the test of one column added: none for
/// an empty string, which admits everything; else that the column equals
/// the string, which becomes the next argument.
pub open spec fn with_clause(
    built: (Seq<char>, Seq<Seq<char>>),
    column: Seq<char>,
    wanted: Seq<char>,
) -> (Seq<char>, Seq<Seq<char>>) {
    if wanted.len() == 0 {
        built
    } else {
        (
            built.0 + " AND "@ + column + " = "@ + placeholder((built.1.len() + 2) as nat),
            built.1.push(wanted),
        )
    }
}

/// The query that lists the tuples under a schema that pass `filter`, and
/// its arguments after the first, which is the identifier of the schema:
/// the strings of the filter that are not empty, in the order of the columns.
pub open spec fn filter_query_of(filter: Tuple) -> (Seq<char>, Seq<Seq<char>>) {
    let start = ("SELECT * FROM pgfga.tuple WHERE schema_id = $1"@, Seq::<Seq<char>>::empty());
    let one = with_clause(start, "resource_namespace"@, filter.resource_namespace);
    let two = with_clause(one, "resource_id"@, filter.resource_id);
    let three = with_clause(two, "relation"@, filter.relation);
    let four = with_clause(three, "subject_namespace"@, filter.subject_namespace);
    let five = with_clause(four, "subject_id"@, filter.subject_id);
    with_clause(five, "subject_action"@, filter.subject_action)
}

/// Adds the test of one column to a query and its arguments.
fn add_clause(query: String, arguments: Vec<String>, column: &str, wanted: &str) -> (built: (
    String,
    Vec<String>,
))
    requires
        arguments@.len() <= 5,
    ensures
        (built.0@, texts(built.1@)) == with_clause((query@, texts(arguments@)), column@, wanted@),
        built.1@.len() <= arguments@.len() + 1,
{
    if wanted.is_empty() {
        return (query, arguments);
    }
    let position = arguments.len();
    let name = if position == 0 {
        "$2"
    } else if position == 1 {
        "$3"
    } else if position == 2 {
        "$4"
    } else if position == 3 {
        "$5"
    } else if position == 4 {
        "$6"
    } else {
        "$7"
    };
    let query = query.concat(" AND ").concat(column).concat(" = ").concat(name);
    let mut arguments = arguments;
    arguments.push(wanted.to_owned());
    (query, arguments)
}

/// The query that lists the tuples under a schema that pass the filter of
/// these six strings, and its arguments after the identifier of the schema.
pub fn filter_query(
    resource_namespace: &str,
    resource_id: &str,
    relation: &str,
    subject_namespace: &str,
    subject_id: &str,
    subject_action: &str,
) -> (built: (String, Vec<String>))
    ensures
        (built.0@, texts(built.1@)) == filter_query_of(
            tuple_of(
                resource_namespace@,
                resource_id@,
                relation@,
                subject_namespace@,
                subject_id@,
                subject_action@,
            ),
        ),
{
    let query = "SELECT * FROM pgfga.tuple WHERE schema_id = $1".to_owned();
    let arguments: Vec<String> = Vec::new();
    let (query, arguments) = add_clause(query, arguments, "resource_namespace", resource_namespace);
    let (query, arguments) = add_clause(query, arguments, "resource_id", resource_id);
    let (query, arguments) = add_clause(query, arguments, "relation", relation);
    let (query, arguments) = add_clause(query, arguments, "subject_namespace", subject_namespace);
    let (query, arguments) = add_clause(query, arguments, "subject_id", subject_id);
    add_clause(query, arguments, "subject_action", subject_action)
}

} // verus!
