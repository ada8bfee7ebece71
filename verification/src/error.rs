//! The errors of the library.

use vstd::prelude::*;

verus! {

/// What can go wrong while a schema is loaded or a check is evaluated.
#[derive(Debug)]
pub enum PgFgaError {
    /// The tuple store failed; the text is the store's own message.
    SpiError(String),
    /// A stored schema document does not follow the schema grammar.
    SerdeError(String),
    /// A schema breaks a rule on its names: a name declared twice, a name
    /// that is both a relation and a permission, or a reference to a name
    /// that its namespace does not declare.
    SchemaInvalid,
    /// No schema has this identifier.
    UnknownSchemaId(u128),
    /// The evaluation reached the depth limit.
    MaxDepth,
    /// A fault in the shape of the input, meant for the operator's eyes.
    Public(String),
}

/// The mathematical value of an error: its kind and its text.
pub enum Failure {
    SpiError(Seq<char>),
    SerdeError(Seq<char>),
    SchemaInvalid,
    UnknownSchemaId(u128),
    MaxDepth,
    Public(Seq<char>),
}

impl View for PgFgaError {
    type V = Failure;

    open spec fn view(&self) -> Failure {
        match *self {
            PgFgaError::SpiError(m) => Failure::SpiError(m@),
            PgFgaError::SerdeError(m) => Failure::SerdeError(m@),
            PgFgaError::SchemaInvalid => Failure::SchemaInvalid,
            PgFgaError::UnknownSchemaId(id) => Failure::UnknownSchemaId(id),
            PgFgaError::MaxDepth => Failure::MaxDepth,
            PgFgaError::Public(m) => Failure::Public(m@),
        }
    }
}

impl Failure {
    /// The error in words.
    pub open spec fn message(self) -> Seq<char> {
        match self {
            Failure::SpiError(m) => "unexpected error: "@ + m,
            Failure::SerdeError(m) => "error (de)serializing schema: "@ + m,
            Failure::SchemaInvalid => "the schema breaks a rule on its names"@,
            Failure::UnknownSchemaId(_) => "unknown schema id"@,
            Failure::MaxDepth => "check max depth of 25 exceeded"@,
            Failure::Public(m) => m,
        }
    }
}

impl PgFgaError {
    /// The error in words.
    pub fn message(&self) -> (text: String)
        ensures
            text@ == self@.message(),
    {
        match self {
            PgFgaError::SpiError(m) => "unexpected error: ".to_owned().concat(m.as_str()),
            PgFgaError::SerdeError(m) => "error (de)serializing schema: ".to_owned().concat(
                m.as_str(),
            ),
            PgFgaError::SchemaInvalid => "the schema breaks a rule on its names".to_owned(),
            PgFgaError::UnknownSchemaId(_) => "unknown schema id".to_owned(),
            PgFgaError::MaxDepth => "check max depth of 25 exceeded".to_owned(),
            PgFgaError::Public(m) => m.clone(),
        }
    }

    /// A copy of this error.
    pub fn duplicate(&self) -> (copy: PgFgaError)
        ensures
            copy@ == self@,
    {
        match self {
            PgFgaError::SpiError(m) => PgFgaError::SpiError(m.clone()),
            PgFgaError::SerdeError(m) => PgFgaError::SerdeError(m.clone()),
            PgFgaError::SchemaInvalid => PgFgaError::SchemaInvalid,
            PgFgaError::UnknownSchemaId(id) => PgFgaError::UnknownSchemaId(*id),
            PgFgaError::MaxDepth => PgFgaError::MaxDepth,
            PgFgaError::Public(m) => PgFgaError::Public(m.clone()),
        }
    }
}

/// What an evaluation yields: a decision, or the failure that ended it.
pub type Outcome = Result<bool, Failure>;

/// The mathematical value of a result of the evaluator.
pub open spec fn outcome_of(result: Result<bool, PgFgaError>) -> Outcome {
    match result {
        Ok(granted) => Ok(granted),
        Err(e) => Err(e@),
    }
}

} // verus!
