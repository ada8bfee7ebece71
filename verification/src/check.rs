//! The evaluator. A check runs as an [`Evaluation`]: it goes as far as it
//! can on the schema alone, says which tuples it needs next, and goes on
//! when it is given them. Whoever holds the tuples runs the loop:
//!
//! ```text
//! let mut evaluation = checker.check("document", "1", "can_view", "user", "anya", "");
//! loop {
//!     match evaluation.request() {
//!         Request::Finished => break,
//!         request => evaluation.resume(store.answer(request)),
//!     }
//! }
//! evaluation.result()
//! ```
//!
//! [`Checker::decide`] is that loop over a [`Storage`].

use crate::{asking, course, semantics};
use crate::course::{Connective, Course};
use crate::error::{Failure, Outcome, PgFgaError, outcome_of};
use crate::schema::{Rewrite, Schema};
use crate::semantics::{Store, Subject, World, denies, exhausted, grants};
use crate::storage::{SchemaRow, Storage, Tuple, TupleRow, tuples_of};
use vstd::prelude::*;

verus! {

/// The number of levels of traversal at which an evaluation gives up.
pub const MAX_DEPTH: i64 = 25;

/// What an evaluation needs from the tuple store before it can go on.
#[derive(Debug)]
pub enum Request {
    /// Whether the tuple with exactly these six strings is stored.
    ReadTuple {
        resource_namespace: String,
        resource_id: String,
        relation: String,
        subject_namespace: String,
        subject_id: String,
        subject_action: String,
    },
    /// The tuples on a relation of a resource, whatever their subject.
    ReadTuples { resource_namespace: String, resource_id: String, relation: String },
    /// The tuples on a relation of a resource whose subject is a userset.
    ReadSubjectsetTuples { resource_namespace: String, resource_id: String, relation: String },
    /// Nothing: the evaluation has its result.
    Finished,
}

/// A question to the store as a mathematical value.
pub enum Question {
    Tuple(Tuple),
    Tuples(Tuple),
    SubjectSets(Seq<char>, Seq<char>, Seq<char>),
    Nothing,
}

impl View for Request {
    type V = Question;

    open spec fn view(&self) -> Question {
        match *self {
            Request::ReadTuple {
                resource_namespace,
                resource_id,
                relation,
                subject_namespace,
                subject_id,
                subject_action,
            } => Question::Tuple(
                Tuple {
                    resource_namespace: resource_namespace@,
                    resource_id: resource_id@,
                    relation: relation@,
                    subject_namespace: subject_namespace@,
                    subject_id: subject_id@,
                    subject_action: subject_action@,
                },
            ),
            Request::ReadTuples { resource_namespace, resource_id, relation } => Question::Tuples(
                semantics::tupleset_filter(resource_namespace@, resource_id@, relation@),
            ),
            Request::ReadSubjectsetTuples {
                resource_namespace,
                resource_id,
                relation,
            } => Question::SubjectSets(resource_namespace@, resource_id@, relation@),
            Request::Finished => Question::Nothing,
        }
    }
}

/// What the store gave back.
#[derive(Debug)]
pub enum Answer {
    /// To `ReadTuple`: the tuple, if it is stored.
    Tuple(Option<TupleRow>),
    /// To `ReadTuples` and `ReadSubjectsetTuples`: the tuples found.
    Tuples(Vec<TupleRow>),
    /// The store failed, with this message.
    Failed(String),
}

/// An answer of the store as a mathematical value.
pub enum Reply {
    Found(bool),
    Listed(Seq<Tuple>),
    Failed(Seq<char>),
}

impl View for Answer {
    type V = Reply;

    open spec fn view(&self) -> Reply {
        match *self {
            Answer::Tuple(row) => Reply::Found(row is Some),
            Answer::Tuples(rows) => Reply::Listed(tuples_of(rows@)),
            Answer::Failed(message) => Reply::Failed(message@),
        }
    }
}

/// The message of the failure that stands for an answer to another
/// question than the one that was asked.
pub open spec fn misfit() -> Seq<char> {
    "the store answered another question"@
}

impl Reply {
    /// This reply read as one to `ReadTuple`.
    pub open spec fn found(self) -> Result<bool, Seq<char>> {
        match self {
            Reply::Found(present) => Ok(present),
            Reply::Listed(_) => Err(misfit()),
            Reply::Failed(message) => Err(message),
        }
    }

    /// This reply read as one to `ReadTuples` or `ReadSubjectsetTuples`.
    pub open spec fn listed(self) -> Result<Seq<Tuple>, Seq<char>> {
        match self {
            Reply::Found(_) => Err(misfit()),
            Reply::Listed(tuples) => Ok(tuples),
            Reply::Failed(message) => Err(message),
        }
    }
}

impl Store {
    /// What this store replies to `question`.
    pub open spec fn reply(self, question: Question) -> Reply {
        match question {
            Question::Tuple(t) => match (self.tuple)(t) {
                Ok(present) => Reply::Found(present),
                Err(message) => Reply::Failed(message),
            },
            Question::Tuples(filter) => match (self.tuples)(filter) {
                Ok(tuples) => Reply::Listed(tuples),
                Err(message) => Reply::Failed(message),
            },
            Question::SubjectSets(ns, id, relation) => match (self.subject_sets)(ns, id, relation) {
                Ok(tuples) => Reply::Listed(tuples),
                Err(message) => Reply::Failed(message),
            },
            Question::Nothing => Reply::Failed(misfit()),
        }
    }
}

/// The result of an evaluation.
pub type Verdict = Result<bool, PgFgaError>;

/// A search that waits for the outcome of one of its branches.
enum Frame<'a> {
    /// The usersets of a relation; `tuples[next..]` are still to try, and
    /// after them the name as a permission.
    SubjectSets {
        tuples: Vec<TupleRow>,
        next: usize,
        resource_namespace: String,
        resource_id: String,
        action: String,
        depth: i64,
        hops: usize,
    },
    /// The tuples of a tupleset relation; `tuples[next..]` are still to follow.
    Tuples { tuples: Vec<TupleRow>, next: usize, computed_userset: &'a String, depth: i64 },
    /// The children of a union or of an intersection; `children[next..]`
    /// are still to try, and `granted` says whether a child before the one
    /// that is being evaluated was seen to grant.
    Children {
        connective: Connective,
        children: &'a Vec<Rewrite>,
        next: usize,
        granted: bool,
        resource_namespace: String,
        resource_id: String,
        depth: i64,
    },
    /// An exclusion whose minuend is being evaluated.
    Minuend {
        subtrahend: &'a Rewrite,
        resource_namespace: String,
        resource_id: String,
        depth: i64,
    },
    /// An exclusion whose subtrahend is being evaluated.
    Subtrahend { depth: i64 },
}

/// The question that is out with the store, and what the answer is for.
enum Pending<'a> {
    /// Whether the subject is directly in a relation.
    Tuple {
        resource_namespace: String,
        resource_id: String,
        action: String,
        depth: i64,
        hops: usize,
    },
    /// The usersets in a relation.
    SubjectSets {
        resource_namespace: String,
        resource_id: String,
        action: String,
        depth: i64,
        hops: usize,
    },
    /// The tuples of a tupleset relation, along which `computed_userset` is followed.
    Tuples {
        resource_namespace: String,
        resource_id: String,
        tupleset: &'a String,
        computed_userset: &'a String,
        depth: i64,
    },
    /// No question: the evaluation has ended with this result.
    Done(Verdict),
}

/// A check in progress. It runs until it needs the store, says what it
/// needs, and goes on when it is given the answer.
pub struct Evaluation<'a> {
    schema: &'a Schema,
    subject_namespace: String,
    subject_id: String,
    subject_action: String,
    stack: Vec<Frame<'a>>,
    pending: Pending<'a>,
}

impl<'a> Frame<'a> {
    /// The depth at which the search of this frame runs; its branches run
    /// one level deeper.
    spec fn depth(self) -> int {
        match self {
            Frame::SubjectSets { depth, .. } => depth as int,
            Frame::Tuples { depth, .. } => depth as int,
            Frame::Children { depth, .. } => depth as int,
            Frame::Minuend { depth, .. } => depth as int,
            Frame::Subtrahend { depth } => depth as int,
        }
    }

    spec fn well_formed(self) -> bool {
        &&& 0 <= self.depth() < MAX_DEPTH
        &&& match self {
            Frame::SubjectSets { tuples, next, .. } => next <= tuples@.len(),
            Frame::Tuples { tuples, next, .. } => next <= tuples@.len(),
            Frame::Children { children, next, .. } => next <= children@.len(),
            _ => true,
        }
    }

    /// What the search of this frame yields once the branch it waits for
    /// has the outcome `branch`.
    spec fn after_branch(self, branch: Outcome, w: World) -> Outcome {
        match self {
            Frame::SubjectSets {
                tuples,
                next,
                resource_namespace,
                resource_id,
                action,
                depth,
                hops,
            } => if grants(branch) {
                Ok(true)
            } else if exhausted(branch) {
                Err(Failure::MaxDepth)
            } else {
                semantics::expand_subject_sets(
                    w,
                    tuples_of(tuples@),
                    next as int,
                    resource_namespace@,
                    resource_id@,
                    action@,
                    depth as int,
                    hops as nat,
                )
            },
            Frame::Tuples { tuples, next, computed_userset, depth } => if grants(branch) {
                Ok(true)
            } else if exhausted(branch) {
                Err(Failure::MaxDepth)
            } else {
                semantics::follow_tuples(
                    w,
                    tuples_of(tuples@),
                    next as int,
                    computed_userset@,
                    depth as int,
                )
            },
            Frame::Children {
                connective,
                children,
                next,
                granted,
                resource_namespace,
                resource_id,
                depth,
            } => match connective {
                Connective::Any => if grants(branch) {
                    Ok(true)
                } else if exhausted(branch) {
                    Err(Failure::MaxDepth)
                } else {
                    semantics::eval_union(
                        w,
                        resource_namespace@,
                        resource_id@,
                        children@,
                        next as int,
                        depth as int,
                    )
                },
                Connective::All => if denies(branch) {
                    Ok(false)
                } else if exhausted(branch) {
                    Err(Failure::MaxDepth)
                } else {
                    semantics::eval_intersection(
                        w,
                        resource_namespace@,
                        resource_id@,
                        children@,
                        next as int,
                        depth as int,
                        granted || grants(branch),
                    )
                },
            },
            Frame::Minuend {
                subtrahend,
                resource_namespace,
                resource_id,
                depth,
            } => semantics::after_minuend(
                w,
                resource_namespace@,
                resource_id@,
                branch,
                *subtrahend,
                depth as int,
            ),
            Frame::Subtrahend { .. } => semantics::exclude(branch),
        }
    }
}

impl<'a> Frame<'a> {
    /// The questions that the search of this frame still asks once the
    /// branch it waits for has the outcome `branch`.
    spec fn asked_after_branch(self, branch: Outcome, w: World) -> Seq<Question> {
        match self {
            Frame::SubjectSets {
                tuples,
                next,
                resource_namespace,
                resource_id,
                action,
                depth,
                hops,
            } => if grants(branch) || exhausted(branch) {
                Seq::empty()
            } else {
                asking::asked_expand_subject_sets(
                    w,
                    tuples_of(tuples@),
                    next as int,
                    resource_namespace@,
                    resource_id@,
                    action@,
                    depth as int,
                    hops as nat,
                )
            },
            Frame::Tuples { tuples, next, computed_userset, depth } => if grants(branch)
                || exhausted(branch) {
                Seq::empty()
            } else {
                asking::asked_follow_tuples(
                    w,
                    tuples_of(tuples@),
                    next as int,
                    computed_userset@,
                    depth as int,
                )
            },
            Frame::Children {
                connective,
                children,
                next,
                resource_namespace,
                resource_id,
                depth,
                ..
            } => match connective {
                Connective::Any => if grants(branch) || exhausted(branch) {
                    Seq::empty()
                } else {
                    asking::asked_eval_union(
                        w,
                        resource_namespace@,
                        resource_id@,
                        children@,
                        next as int,
                        depth as int,
                    )
                },
                Connective::All => if denies(branch) || exhausted(branch) {
                    Seq::empty()
                } else {
                    asking::asked_eval_intersection(
                        w,
                        resource_namespace@,
                        resource_id@,
                        children@,
                        next as int,
                        depth as int,
                    )
                },
            },
            Frame::Minuend {
                subtrahend,
                resource_namespace,
                resource_id,
                depth,
            } => asking::asked_after_minuend(
                w,
                resource_namespace@,
                resource_id@,
                branch,
                *subtrahend,
                depth as int,
            ),
            Frame::Subtrahend { .. } => Seq::empty(),
        }
    }
}

impl<'a> Frame<'a> {
    /// How the search of this frame goes on once the branch it waits for
    /// has the outcome `branch`.
    spec fn resumed(self, branch: Outcome, w: World) -> Course {
        Course {
            outcome: self.after_branch(branch, w),
            asked: self.asked_after_branch(branch, w),
        }
    }
}

/// The questions that the searches of `stack` still ask once the branch
/// that the innermost waits for has the outcome `branch`.
spec fn unwound_asked(stack: Seq<Frame<'_>>, branch: Outcome, w: World) -> Seq<Question>
    decreases stack.len(),
{
    if stack.len() == 0 {
        Seq::empty()
    } else {
        stack.last().asked_after_branch(branch, w) + unwound_asked(
            stack.drop_last(),
            stack.last().after_branch(branch, w),
            w,
        )
    }
}

/// What the searches of `stack` yield, innermost last, once the branch
/// that the innermost waits for has the outcome `branch`.
spec fn unwound(stack: Seq<Frame<'_>>, branch: Outcome, w: World) -> Outcome
    decreases stack.len(),
{
    if stack.len() == 0 {
        branch
    } else {
        unwound(stack.drop_last(), stack.last().after_branch(branch, w), w)
    }
}

/// Whether every frame is well formed and lies no deeper in the stack than
/// its depth says.
spec fn stack_well_formed(stack: Seq<Frame<'_>>) -> bool {
    forall|i: int|
        0 <= i < stack.len() ==> (#[trigger] stack[i]).well_formed() && i <= stack[i].depth()
}

impl<'a> Pending<'a> {
    spec fn well_formed(self) -> bool {
        match self {
            Pending::Tuple { depth, .. } => 0 <= depth < MAX_DEPTH,
            Pending::SubjectSets { depth, .. } => 0 <= depth < MAX_DEPTH,
            Pending::Tuples { depth, .. } => 0 <= depth < MAX_DEPTH,
            Pending::Done(_) => true,
        }
    }

    /// The depth of the search that asked.
    spec fn depth(self) -> int {
        match self {
            Pending::Tuple { depth, .. } => depth as int,
            Pending::SubjectSets { depth, .. } => depth as int,
            Pending::Tuples { depth, .. } => depth as int,
            Pending::Done(_) => 0,
        }
    }

    /// The question that is out with the store.
    spec fn question(self, subject: Subject) -> Question {
        match self {
            Pending::Tuple { resource_namespace, resource_id, action, .. } => Question::Tuple(
                Tuple {
                    resource_namespace: resource_namespace@,
                    resource_id: resource_id@,
                    relation: action@,
                    subject_namespace: subject.namespace,
                    subject_id: subject.id,
                    subject_action: subject.action,
                },
            ),
            Pending::SubjectSets {
                resource_namespace,
                resource_id,
                action,
                ..
            } => Question::SubjectSets(resource_namespace@, resource_id@, action@),
            Pending::Tuples { resource_namespace, resource_id, tupleset, .. } => Question::Tuples(
                semantics::tupleset_filter(resource_namespace@, resource_id@, tupleset@),
            ),
            Pending::Done(_) => Question::Nothing,
        }
    }

    /// The questions that the search that asked still asks once the store
    /// has replied.
    spec fn asked_after_reply(self, reply: Reply, w: World) -> Seq<Question> {
        match self {
            Pending::Tuple {
                resource_namespace,
                resource_id,
                action,
                depth,
                hops,
            } => asking::asked_after_tuple(
                w,
                resource_namespace@,
                resource_id@,
                action@,
                depth as int,
                hops as nat,
                reply.found(),
            ),
            Pending::SubjectSets {
                resource_namespace,
                resource_id,
                action,
                depth,
                hops,
            } => asking::asked_after_subject_sets(
                w,
                resource_namespace@,
                resource_id@,
                action@,
                depth as int,
                hops as nat,
                reply.listed(),
            ),
            Pending::Tuples { computed_userset, depth, .. } => asking::asked_after_tuples(
                w,
                computed_userset@,
                depth as int,
                reply.listed(),
            ),
            Pending::Done(_) => Seq::empty(),
        }
    }

    /// How the search that asked goes on once the store has replied.
    spec fn replied(self, reply: Reply, w: World) -> Course {
        Course {
            outcome: self.after_reply(reply, w),
            asked: self.asked_after_reply(reply, w),
        }
    }

    /// What the search that asked yields once the store has replied.
    spec fn after_reply(self, reply: Reply, w: World) -> Outcome {
        match self {
            Pending::Tuple {
                resource_namespace,
                resource_id,
                action,
                depth,
                hops,
            } => semantics::after_tuple(
                w,
                resource_namespace@,
                resource_id@,
                action@,
                depth as int,
                hops as nat,
                reply.found(),
            ),
            Pending::SubjectSets {
                resource_namespace,
                resource_id,
                action,
                depth,
                hops,
            } => semantics::after_subject_sets(
                w,
                resource_namespace@,
                resource_id@,
                action@,
                depth as int,
                hops as nat,
                reply.listed(),
            ),
            Pending::Tuples { computed_userset, depth, .. } => semantics::after_tuples(
                w,
                computed_userset@,
                depth as int,
                reply.listed(),
            ),
            Pending::Done(verdict) => outcome_of(verdict),
        }
    }
}

impl<'a> Evaluation<'a> {
    /// The schema that the check is evaluated against.
    pub closed spec fn schema(self) -> Schema {
        *self.schema
    }

    /// The subject of the check.
    pub closed spec fn subject(self) -> Subject {
        Subject {
            namespace: self.subject_namespace@,
            id: self.subject_id@,
            action: self.subject_action@,
        }
    }

    /// The schema and the subject of this check, with `store` as the store.
    pub open spec fn world(self, store: Store) -> World {
        World { schema: self.schema(), store, subject: self.subject() }
    }

    /// What holds of an evaluation at every step, also inside a step.
    spec fn sound(self) -> bool {
        &&& stack_well_formed(self.stack@)
        &&& self.pending.well_formed()
        &&& !(self.pending is Done) ==> self.stack@.len() <= self.pending.depth()
    }

    /// What holds of every evaluation that this module hands out: its
    /// searches are nested no deeper than the depth limit, and when it has
    /// ended no search is left waiting.
    pub closed spec fn well_formed(self) -> bool {
        &&& self.sound()
        &&& self.pending is Done ==> self.stack@.len() == 0
    }

    /// The question that the evaluation waits to have answered.
    pub closed spec fn question(self) -> Question {
        self.pending.question(self.subject())
    }

    /// Whether the evaluation has ended.
    pub open spec fn finished(self) -> bool {
        self.question() is Nothing
    }

    /// How many searches wait for a branch.
    pub closed spec fn height(self) -> nat {
        self.stack@.len()
    }

    /// What the evaluation ends with if the question that is out is
    /// answered by `reply` and every later one as `store` answers it.
    pub closed spec fn outcome_given(self, reply: Reply, store: Store) -> Outcome {
        unwound(self.stack@, self.pending.after_reply(reply, self.world(store)), self.world(store))
    }

    /// What the evaluation ends with if `store` answers its questions.
    pub open spec fn outcome(self, store: Store) -> Outcome {
        self.outcome_given(store.reply(self.question()), store)
    }

    /// The questions that the evaluation still asks after the one that is
    /// out, if that one is answered by `reply` and every later one as
    /// `store` answers it.
    pub closed spec fn asked_given(self, reply: Reply, store: Store) -> Seq<Question> {
        self.pending.asked_after_reply(reply, self.world(store)) + unwound_asked(
            self.stack@,
            self.pending.after_reply(reply, self.world(store)),
            self.world(store),
        )
    }

    /// The questions that the evaluation still asks, the one that is out
    /// first, if `store` answers them.
    pub open spec fn asked_left(self, store: Store) -> Seq<Question> {
        if self.finished() {
            Seq::empty()
        } else {
            seq![self.question()] + self.asked_given(store.reply(self.question()), store)
        }
    }
}

/// Whether `verdict` is a grant.
fn is_grant(verdict: &Verdict) -> (yes: bool)
    ensures
        yes == grants(outcome_of(*verdict)),
{
    match verdict {
        Ok(granted) => *granted,
        Err(_) => false,
    }
}

/// Whether `verdict` is a denial.
fn is_denial(verdict: &Verdict) -> (yes: bool)
    ensures
        yes == denies(outcome_of(*verdict)),
{
    match verdict {
        Ok(granted) => !*granted,
        Err(_) => false,
    }
}

/// Whether `verdict` says that the depth limit was reached.
fn is_exhausted(verdict: &Verdict) -> (yes: bool)
    ensures
        yes == exhausted(outcome_of(*verdict)),
{
    match verdict {
        Err(PgFgaError::MaxDepth) => true,
        _ => false,
    }
}

/// What an exclusion whose minuend did not deny makes of its subtrahend's verdict.
fn excluded(subtrahend: Verdict) -> (verdict: Verdict)
    ensures
        outcome_of(verdict) == semantics::exclude(outcome_of(subtrahend)),
{
    if is_grant(&subtrahend) {
        Ok(false)
    } else if is_exhausted(&subtrahend) {
        Err(PgFgaError::MaxDepth)
    } else {
        Ok(true)
    }
}

/// A search that has handed its branch on yields what the branch makes of it.
proof fn lemma_unwound_push(stack: Seq<Frame<'_>>, frame: Frame<'_>, branch: Outcome, w: World)
    ensures
        unwound(stack.push(frame), branch, w) == unwound(stack, frame.after_branch(branch, w), w),
        unwound_asked(stack.push(frame), branch, w) == frame.asked_after_branch(branch, w)
            + unwound_asked(stack, frame.after_branch(branch, w), w),
{
    assert(stack.push(frame).drop_last() == stack);
}

impl<'a> Evaluation<'a> {
    /// Whether no question is out with the store.
    spec fn idle(self) -> bool {
        self.pending is Done
    }

    /// Whether `self` has the schema and the subject of `before`.
    spec fn same_setting(self, before: Self) -> bool {
        &&& self.schema == before.schema
        &&& self.subject_namespace == before.subject_namespace
        &&& self.subject_id == before.subject_id
        &&& self.subject_action == before.subject_action
    }

    /// What a step of the evaluation leaves as it found it: the schema and
    /// the subject always, and the waiting searches if it came to a verdict.
    spec fn settled(self, before: Self, verdict: Option<Verdict>) -> bool {
        &&& self.sound()
        &&& self.same_setting(before)
        &&& verdict is Some ==> self.stack@ == before.stack@ && self.pending == before.pending
        &&& verdict is None ==> !self.idle()
    }

    /// Whether a step that started from `before` on a search with the
    /// course `course` has done its work: it came to the outcome of the
    /// search without a question, or it left the evaluation waiting for
    /// the store in a state that ends as `before` would with that outcome
    /// for the branch it was waiting for, after the questions of the
    /// search and those of `before`.
    spec fn carried(
        self,
        before: Self,
        verdict: Option<Verdict>,
        store: Store,
        course: Course,
    ) -> bool {
        match verdict {
            Some(v) => course.outcome == outcome_of(v) && course.asked.len() == 0,
            None => {
                &&& self.outcome(store) == unwound(
                    before.stack@,
                    course.outcome,
                    before.world(store),
                )
                &&& self.asked_left(store) =~= course.asked + unwound_asked(
                    before.stack@,
                    course.outcome,
                    before.world(store),
                )
            },
        }
    }

    /// Puts a search on the stack.
    fn push_frame(&mut self, frame: Frame<'a>)
        requires
            old(self).sound(),
            old(self).idle(),
            frame.well_formed(),
            old(self).stack@.len() <= frame.depth(),
        ensures
            final(self).sound(),
            final(self).same_setting(*old(self)),
            final(self).pending == old(self).pending,
            final(self).stack@ == old(self).stack@.push(frame),
    {
        self.stack.push(frame);
    }

    /// Takes the innermost search off the stack.
    fn pop_frame(&mut self) -> (frame: Option<Frame<'a>>)
        requires
            old(self).sound(),
            old(self).idle(),
        ensures
            final(self).sound(),
            final(self).same_setting(*old(self)),
            final(self).pending == old(self).pending,
            match frame {
                Some(f) => old(self).stack@.len() > 0 && f == old(self).stack@.last()
                    && final(self).stack@ == old(self).stack@.drop_last() && f.well_formed()
                    && final(self).stack@.len() <= f.depth(),
                None => old(self).stack@.len() == 0 && final(self).stack@ == old(self).stack@,
            },
    {
        self.stack.pop()
    }

    /// Decides whether the subject has `action` on the resource, as far as
    /// that takes no answer of the store.
    fn check_with_depth(
        &mut self,
        resource_namespace: String,
        resource_id: String,
        action: String,
        depth: i64,
        hops: usize,
    ) -> (verdict: Option<Verdict>)
        requires
            old(self).sound(),
            old(self).idle(),
            0 <= depth <= MAX_DEPTH,
            old(self).stack@.len() <= depth,
        ensures
            final(self).settled(*old(self), verdict),
            forall|store: Store|
                #![trigger old(self).world(store)]
                final(self).carried(
                    *old(self),
                    verdict,
                    store,
                    course::check_with_hops(
                        old(self).world(store),
                        resource_namespace@,
                        resource_id@,
                        action@,
                        depth as int,
                        hops as nat,
                    ),
                ),
        decreases MAX_DEPTH - depth, hops, 5int, 0int,
    {
        if depth >= MAX_DEPTH {
            return Some(Err(PgFgaError::MaxDepth));
        }
        let schema: &'a Schema = self.schema;
        if schema.is_relation(&resource_namespace, &action) {
            self.pending = Pending::Tuple { resource_namespace, resource_id, action, depth, hops };
            None
        } else {
            self.check_permission(&resource_namespace, &resource_id, &action, depth, hops)
        }
    }

    /// Decides what `action` yields as a permission of the resource's namespace.
    fn check_permission(
        &mut self,
        resource_namespace: &String,
        resource_id: &String,
        action: &String,
        depth: i64,
        hops: usize,
    ) -> (verdict: Option<Verdict>)
        requires
            old(self).sound(),
            old(self).idle(),
            0 <= depth < MAX_DEPTH,
            old(self).stack@.len() <= depth,
        ensures
            final(self).settled(*old(self), verdict),
            forall|store: Store|
                #![trigger old(self).world(store)]
                final(self).carried(
                    *old(self),
                    verdict,
                    store,
                    course::check_permission(
                        old(self).world(store),
                        resource_namespace@,
                        resource_id@,
                        action@,
                        depth as int,
                        hops as nat,
                    ),
                ),
        decreases MAX_DEPTH - depth, hops, 1int, 0int,
    {
        let schema: &'a Schema = self.schema;
        match schema.permission(resource_namespace, action) {
            None => Some(Ok(false)),
            Some(rewrite) => {
                if hops == 0 {
                    Some(Err(PgFgaError::MaxDepth))
                } else {
                    self.check_rewrite(resource_namespace, resource_id, rewrite, depth, hops - 1)
                }
            },
        }
    }

    /// Decides the value of `rewrite` on the resource.
    fn check_rewrite(
        &mut self,
        resource_namespace: &String,
        resource_id: &String,
        rewrite: &'a Rewrite,
        depth: i64,
        hops: usize,
    ) -> (verdict: Option<Verdict>)
        requires
            old(self).sound(),
            old(self).idle(),
            0 <= depth <= MAX_DEPTH,
            old(self).stack@.len() <= depth,
        ensures
            final(self).settled(*old(self), verdict),
            forall|store: Store|
                #![trigger old(self).world(store)]
                final(self).carried(
                    *old(self),
                    verdict,
                    store,
                    course::eval_rewrite(
                        old(self).world(store),
                        resource_namespace@,
                        resource_id@,
                        *rewrite,
                        depth as int,
                        hops as nat,
                    ),
                ),
        decreases MAX_DEPTH - depth, hops, 6int, 0int,
    {
        if depth >= MAX_DEPTH {
            return Some(Err(PgFgaError::MaxDepth));
        }
        match rewrite {
            Rewrite::ComputedUserset(name) => self.check_cu(
                resource_namespace,
                resource_id,
                name,
                depth,
                hops,
            ),
            Rewrite::TupleToUserset(tupleset, name) => self.check_ttu(
                resource_namespace,
                resource_id,
                tupleset,
                name,
                depth,
            ),
            Rewrite::Union(children) => self.check_union(
                resource_namespace,
                resource_id,
                children,
                0,
                depth,
            ),
            Rewrite::Intersection(children) => self.check_intersection(
                resource_namespace,
                resource_id,
                children,
                0,
                false,
                depth,
            ),
            Rewrite::Exclusion(minuend, subtrahend) => self.check_exclusion(
                resource_namespace,
                resource_id,
                &**minuend,
                &**subtrahend,
                depth,
            ),
        }
    }

    /// Decides a computed userset: the same question for another name on
    /// the same resource, at the same depth.
    fn check_cu(
        &mut self,
        resource_namespace: &String,
        resource_id: &String,
        computed_userset: &String,
        depth: i64,
        hops: usize,
    ) -> (verdict: Option<Verdict>)
        requires
            old(self).sound(),
            old(self).idle(),
            0 <= depth < MAX_DEPTH,
            old(self).stack@.len() <= depth,
        ensures
            final(self).settled(*old(self), verdict),
            forall|store: Store|
                #![trigger old(self).world(store)]
                final(self).carried(
                    *old(self),
                    verdict,
                    store,
                    course::check_with_hops(
                        old(self).world(store),
                        resource_namespace@,
                        resource_id@,
                        computed_userset@,
                        depth as int,
                        hops as nat,
                    ),
                ),
        decreases MAX_DEPTH - depth, hops, 5int, 1int,
    {
        self.check_with_depth(
            resource_namespace.clone(),
            resource_id.clone(),
            computed_userset.clone(),
            depth,
            hops,
        )
    }

    /// Starts a tuple-to-userset rewrite: asks the store for the tuples on
    /// the tupleset relation.
    fn check_ttu(
        &mut self,
        resource_namespace: &String,
        resource_id: &String,
        tupleset: &'a String,
        computed_userset: &'a String,
        depth: i64,
    ) -> (verdict: Option<Verdict>)
        requires
            old(self).sound(),
            old(self).idle(),
            0 <= depth < MAX_DEPTH,
            old(self).stack@.len() <= depth,
        ensures
            final(self).settled(*old(self), verdict),
            forall|store: Store|
                #![trigger old(self).world(store)]
                final(self).carried(
                    *old(self),
                    verdict,
                    store,
                    course::ask_tuples(
                        old(self).world(store),
                        resource_namespace@,
                        resource_id@,
                        tupleset@,
                        computed_userset@,
                        depth as int,
                    ),
                ),
    {
        self.pending = Pending::Tuples {
            resource_namespace: resource_namespace.clone(),
            resource_id: resource_id.clone(),
            tupleset,
            computed_userset,
            depth,
        };
        None
    }

    /// Searches `children[from..]` under a connective: a union stops at the
    /// first child that grants, an intersection at the first that denies.
    /// `seen` says whether a child before them was seen to grant.
    fn search_children(
        &mut self,
        connective: Connective,
        resource_namespace: &String,
        resource_id: &String,
        children: &'a Vec<Rewrite>,
        from: usize,
        seen: bool,
        depth: i64,
    ) -> (verdict: Option<Verdict>)
        requires
            old(self).sound(),
            old(self).idle(),
            0 <= depth < MAX_DEPTH,
            old(self).stack@.len() <= depth,
            from <= children@.len(),
        ensures
            final(self).settled(*old(self), verdict),
            forall|store: Store|
                #![trigger old(self).world(store)]
                final(self).carried(
                    *old(self),
                    verdict,
                    store,
                    course::search(
                        connective,
                        old(self).world(store),
                        resource_namespace@,
                        resource_id@,
                        children@,
                        from as int,
                        depth as int,
                        seen,
                    ),
                ),
        decreases MAX_DEPTH - depth, 0nat, 0int, children@.len() - from,
    {
        let schema: &'a Schema = self.schema;
        let budget: usize = schema.permission_count(resource_namespace);
        let mut i: usize = from;
        let mut granted = seen;
        while i < children.len()
            invariant
                from <= i <= children@.len(),
                0 <= depth < MAX_DEPTH,
                old(self).sound(),
                old(self).idle(),
                old(self).stack@.len() <= depth,
                self.settled(*old(self), Some(Ok(true))),
                schema == old(self).schema,
                budget == schema.alias_budget(resource_namespace@),
                forall|store: Store|
                    #![trigger old(self).world(store)]
                    course::search(
                        connective,
                        old(self).world(store),
                        resource_namespace@,
                        resource_id@,
                        children@,
                        from as int,
                        depth as int,
                        seen,
                    ) == course::search(
                        connective,
                        old(self).world(store),
                        resource_namespace@,
                        resource_id@,
                        children@,
                        i as int,
                        depth as int,
                        granted,
                    ),
            decreases children@.len() - i,
        {
            let frame = Frame::Children {
                connective,
                children,
                next: i + 1,
                granted,
                resource_namespace: resource_namespace.clone(),
                resource_id: resource_id.clone(),
                depth,
            };
            self.push_frame(frame);
            let ghost pushed = *self;
            let branch = self.check_rewrite(
                resource_namespace,
                resource_id,
                &children[i],
                depth + 1,
                budget,
            );
            proof {
                assert forall|store: Store| #![trigger old(self).world(store)]
                    self.carried(
                        pushed,
                        branch,
                        store,
                        course::eval_rewrite(
                            old(self).world(store),
                            resource_namespace@,
                            resource_id@,
                            children@[i as int],
                            depth + 1,
                            budget as nat,
                        ),
                    ) by {}
            }
            match branch {
                None => {
                    proof {
                        assert forall|store: Store| #![trigger old(self).world(store)]
                            self.carried(
                                *old(self),
                                None,
                                store,
                                course::search(
                                    connective,
                                    old(self).world(store),
                                    resource_namespace@,
                                    resource_id@,
                                    children@,
                                    from as int,
                                    depth as int,
                                    seen,
                                ),
                            ) by {
                            let w = old(self).world(store);
                            let b = semantics::eval_rewrite(
                                w,
                                resource_namespace@,
                                resource_id@,
                                children@[i as int],
                                depth + 1,
                                budget as nat,
                            );
                            lemma_unwound_push(old(self).stack@, frame, b, w);
                        }
                    }
                    return None;
                },
                Some(v) => {
                    let _ = self.pop_frame();
                    assert(self.stack@ == old(self).stack@);
                    match connective {
                        Connective::Any => {
                            if is_grant(&v) {
                                return Some(Ok(true));
                            }
                        },
                        Connective::All => {
                            if is_denial(&v) {
                                return Some(Ok(false));
                            }
                        },
                    }
                    if is_exhausted(&v) {
                        return Some(Err(PgFgaError::MaxDepth));
                    }
                    granted = granted || is_grant(&v);
                    i += 1;
                },
            }
        }
        match connective {
            Connective::Any => Some(Ok(false)),
            Connective::All => Some(Ok(granted)),
        }
    }

    /// Decides the union of `children[from..]`.
    fn check_union(
        &mut self,
        resource_namespace: &String,
        resource_id: &String,
        children: &'a Vec<Rewrite>,
        from: usize,
        depth: i64,
    ) -> (verdict: Option<Verdict>)
        requires
            old(self).sound(),
            old(self).idle(),
            0 <= depth < MAX_DEPTH,
            old(self).stack@.len() <= depth,
            from <= children@.len(),
        ensures
            final(self).settled(*old(self), verdict),
            forall|store: Store|
                #![trigger old(self).world(store)]
                final(self).carried(
                    *old(self),
                    verdict,
                    store,
                    course::eval_union(
                        old(self).world(store),
                        resource_namespace@,
                        resource_id@,
                        children@,
                        from as int,
                        depth as int,
                    ),
                ),
        decreases MAX_DEPTH - depth, 0nat, 0int, children@.len() - from + 1,
    {
        self.search_children(
            Connective::Any,
            resource_namespace,
            resource_id,
            children,
            from,
            false,
            depth,
        )
    }

    /// Decides the intersection of `children[from..]`, where `seen` says
    /// whether a child before them was seen to grant.
    fn check_intersection(
        &mut self,
        resource_namespace: &String,
        resource_id: &String,
        children: &'a Vec<Rewrite>,
        from: usize,
        seen: bool,
        depth: i64,
    ) -> (verdict: Option<Verdict>)
        requires
            old(self).sound(),
            old(self).idle(),
            0 <= depth < MAX_DEPTH,
            old(self).stack@.len() <= depth,
            from <= children@.len(),
        ensures
            final(self).settled(*old(self), verdict),
            forall|store: Store|
                #![trigger old(self).world(store)]
                final(self).carried(
                    *old(self),
                    verdict,
                    store,
                    course::eval_intersection(
                        old(self).world(store),
                        resource_namespace@,
                        resource_id@,
                        children@,
                        from as int,
                        depth as int,
                        seen,
                    ),
                ),
        decreases MAX_DEPTH - depth, 0nat, 0int, children@.len() - from + 1,
    {
        self.search_children(
            Connective::All,
            resource_namespace,
            resource_id,
            children,
            from,
            seen,
            depth,
        )
    }

    /// Decides an exclusion.
    fn check_exclusion(
        &mut self,
        resource_namespace: &String,
        resource_id: &String,
        minuend: &'a Rewrite,
        subtrahend: &'a Rewrite,
        depth: i64,
    ) -> (verdict: Option<Verdict>)
        requires
            old(self).sound(),
            old(self).idle(),
            0 <= depth < MAX_DEPTH,
            old(self).stack@.len() <= depth,
        ensures
            final(self).settled(*old(self), verdict),
            forall|store: Store|
                #![trigger old(self).world(store)]
                final(self).carried(
                    *old(self),
                    verdict,
                    store,
                    course::eval_exclusion(
                        old(self).world(store),
                        resource_namespace@,
                        resource_id@,
                        *minuend,
                        *subtrahend,
                        depth as int,
                    ),
                ),
        decreases MAX_DEPTH - depth, 0nat, 0int, 1int,
    {
        let schema: &'a Schema = self.schema;
        let budget: usize = schema.permission_count(resource_namespace);
        let frame = Frame::Minuend {
            subtrahend,
            resource_namespace: resource_namespace.clone(),
            resource_id: resource_id.clone(),
            depth,
        };
        self.push_frame(frame);
        let ghost pushed = *self;
        let branch = self.check_rewrite(
            resource_namespace,
            resource_id,
            minuend,
            depth + 1,
            budget,
        );
        proof {
            assert forall|store: Store| #![trigger old(self).world(store)]
                self.carried(
                    pushed,
                    branch,
                    store,
                    course::eval_rewrite(
                        old(self).world(store),
                        resource_namespace@,
                        resource_id@,
                        *minuend,
                        depth + 1,
                        budget as nat,
                    ),
                ) by {}
        }
        match branch {
            None => {
                proof {
                    assert forall|store: Store| #![trigger old(self).world(store)]
                        self.carried(
                            *old(self),
                            None,
                            store,
                            course::eval_exclusion(
                                old(self).world(store),
                                resource_namespace@,
                                resource_id@,
                                *minuend,
                                *subtrahend,
                                depth as int,
                            ),
                        ) by {
                        let w = old(self).world(store);
                        let b = semantics::eval_rewrite(
                            w,
                            resource_namespace@,
                            resource_id@,
                            *minuend,
                            depth + 1,
                            budget as nat,
                        );
                        lemma_unwound_push(old(self).stack@, frame, b, w);
                    }
                }
                None
            },
            Some(v) => {
                let _ = self.pop_frame();
                assert(self.stack@ == old(self).stack@);
                let ghost popped = *self;
                let verdict = self.after_minuend(
                    resource_namespace,
                    resource_id,
                    v,
                    subtrahend,
                    depth,
                );
                proof {
                    assert forall|store: Store| #![trigger old(self).world(store)]
                        self.carried(
                            *old(self),
                            verdict,
                            store,
                            course::eval_exclusion(
                                old(self).world(store),
                                resource_namespace@,
                                resource_id@,
                                *minuend,
                                *subtrahend,
                                depth as int,
                            ),
                        ) by {
                        let w = old(self).world(store);
                        assert(popped.world(store) == w);
                    }
                }
                verdict
            },
        }
    }

    /// Decides an exclusion whose minuend has come to `minuend`.
    fn after_minuend(
        &mut self,
        resource_namespace: &String,
        resource_id: &String,
        minuend: Verdict,
        subtrahend: &'a Rewrite,
        depth: i64,
    ) -> (verdict: Option<Verdict>)
        requires
            old(self).sound(),
            old(self).idle(),
            0 <= depth < MAX_DEPTH,
            old(self).stack@.len() <= depth,
        ensures
            final(self).settled(*old(self), verdict),
            forall|store: Store|
                #![trigger old(self).world(store)]
                final(self).carried(
                    *old(self),
                    verdict,
                    store,
                    course::after_minuend(
                        old(self).world(store),
                        resource_namespace@,
                        resource_id@,
                        outcome_of(minuend),
                        *subtrahend,
                        depth as int,
                    ),
                ),
        decreases MAX_DEPTH - depth, 0nat, 0int, 0int,
    {
        if is_denial(&minuend) {
            return Some(Ok(false));
        }
        if is_exhausted(&minuend) {
            return Some(Err(PgFgaError::MaxDepth));
        }
        let schema: &'a Schema = self.schema;
        let budget: usize = schema.permission_count(resource_namespace);
        let frame = Frame::Subtrahend { depth };
        self.push_frame(frame);
        let ghost pushed = *self;
        let branch = self.check_rewrite(
            resource_namespace,
            resource_id,
            subtrahend,
            depth + 1,
            budget,
        );
        proof {
            assert forall|store: Store| #![trigger old(self).world(store)]
                self.carried(
                    pushed,
                    branch,
                    store,
                    course::eval_rewrite(
                        old(self).world(store),
                        resource_namespace@,
                        resource_id@,
                        *subtrahend,
                        depth + 1,
                        budget as nat,
                    ),
                ) by {}
        }
        match branch {
            None => {
                proof {
                    assert forall|store: Store| #![trigger old(self).world(store)]
                        self.carried(
                            *old(self),
                            None,
                            store,
                            course::after_minuend(
                                old(self).world(store),
                                resource_namespace@,
                                resource_id@,
                                outcome_of(minuend),
                                *subtrahend,
                                depth as int,
                            ),
                        ) by {
                        let w = old(self).world(store);
                        let b = semantics::eval_rewrite(
                            w,
                            resource_namespace@,
                            resource_id@,
                            *subtrahend,
                            depth + 1,
                            budget as nat,
                        );
                        lemma_unwound_push(old(self).stack@, frame, b, w);
                    }
                }
                None
            },
            Some(v) => {
                let _ = self.pop_frame();
                assert(self.stack@ == old(self).stack@);
                Some(excluded(v))
            },
        }
    }

    /// Searches the usersets `tuples[from..]` of a relation for one that
    /// the subject belongs to, and tries the name as a permission when
    /// none is found.
    fn expand_subject_sets(
        &mut self,
        given_tuples: Vec<TupleRow>,
        from: usize,
        given_namespace: String,
        given_id: String,
        given_action: String,
        depth: i64,
        hops: usize,
    ) -> (verdict: Option<Verdict>)
        requires
            old(self).sound(),
            old(self).idle(),
            0 <= depth < MAX_DEPTH,
            old(self).stack@.len() <= depth,
            from <= given_tuples@.len(),
        ensures
            final(self).settled(*old(self), verdict),
            forall|store: Store|
                #![trigger old(self).world(store)]
                final(self).carried(
                    *old(self),
                    verdict,
                    store,
                    course::expand_subject_sets(
                        old(self).world(store),
                        tuples_of(given_tuples@),
                        from as int,
                        given_namespace@,
                        given_id@,
                        given_action@,
                        depth as int,
                        hops as nat,
                    ),
                ),
        decreases MAX_DEPTH - depth, hops, 2int, given_tuples@.len() - from,
    {
        let schema: &'a Schema = self.schema;
        let ghost rows = given_tuples;
        let ghost rns = given_namespace;
        let ghost rid = given_id;
        let ghost act = given_action;
        let mut tuples = given_tuples;
        let mut resource_namespace = given_namespace;
        let mut resource_id = given_id;
        let mut action = given_action;
        let mut i: usize = from;
        while i < tuples.len()
            invariant
                rows == given_tuples,
                rns == given_namespace,
                rid == given_id,
                act == given_action,
                from <= i <= rows@.len(),
                0 <= depth < MAX_DEPTH,
                old(self).sound(),
                old(self).idle(),
                old(self).stack@.len() <= depth,
                self.settled(*old(self), Some(Ok(true))),
                schema == old(self).schema,
                tuples == rows,
                resource_namespace == rns,
                resource_id == rid,
                action == act,
                forall|store: Store|
                    #![trigger old(self).world(store)]
                    course::expand_subject_sets(
                        old(self).world(store),
                        tuples_of(rows@),
                        from as int,
                        rns@,
                        rid@,
                        act@,
                        depth as int,
                        hops as nat,
                    ) == course::expand_subject_sets(
                        old(self).world(store),
                        tuples_of(rows@),
                        i as int,
                        rns@,
                        rid@,
                        act@,
                        depth as int,
                        hops as nat,
                    ),
            decreases rows@.len() - i,
        {
            let namespace = tuples[i].subject_namespace.clone();
            let id = tuples[i].subject_id.clone();
            let name = tuples[i].subject_action.clone();
            let budget: usize = schema.permission_count(&namespace);
            let ghost t = tuples_of(rows@)[i as int];
            let frame = Frame::SubjectSets {
                tuples,
                next: i + 1,
                resource_namespace,
                resource_id,
                action,
                depth,
                hops,
            };
            let ghost held = frame;
            self.push_frame(frame);
            let ghost pushed = *self;
            let branch = self.check_with_depth(namespace, id, name, depth + 1, budget);
            proof {
                assert forall|store: Store| #![trigger old(self).world(store)]
                    self.carried(
                        pushed,
                        branch,
                        store,
                        course::check_with_hops(
                            old(self).world(store),
                            t.subject_namespace,
                            t.subject_id,
                            t.subject_action,
                            depth + 1,
                            old(self).world(store).budget(t.subject_namespace),
                        ),
                    ) by {}
            }
            match branch {
                None => {
                    proof {
                        assert forall|store: Store| #![trigger old(self).world(store)]
                            self.carried(
                                *old(self),
                                None,
                                store,
                                course::expand_subject_sets(
                                    old(self).world(store),
                                    tuples_of(rows@),
                                    from as int,
                                    rns@,
                                    rid@,
                                    act@,
                                    depth as int,
                                    hops as nat,
                                ),
                            ) by {
                            let w = old(self).world(store);
                            let b = semantics::check_with_hops(
                                w,
                                t.subject_namespace,
                                t.subject_id,
                                t.subject_action,
                                depth + 1,
                                w.budget(t.subject_namespace),
                            );
                            lemma_unwound_push(old(self).stack@, held, b, w);
                        }
                    }
                    return None;
                },
                Some(v) => {
                    match self.pop_frame() {
                        Some(
                            Frame::SubjectSets {
                                tuples: kept_tuples,
                                resource_namespace: kept_namespace,
                                resource_id: kept_id,
                                action: kept_action,
                                ..
                            },
                        ) => {
                            tuples = kept_tuples;
                            resource_namespace = kept_namespace;
                            resource_id = kept_id;
                            action = kept_action;
                        },
                        _ => {
                            return None;
                        },
                    }
                    assert(self.stack@ == old(self).stack@);
                    if is_grant(&v) {
                        return Some(Ok(true));
                    }
                    if is_exhausted(&v) {
                        return Some(Err(PgFgaError::MaxDepth));
                    }
                    i += 1;
                },
            }
        }
        let ghost last = *self;
        let verdict = self.check_permission(
            &resource_namespace,
            &resource_id,
            &action,
            depth,
            hops,
        );
        proof {
            assert forall|store: Store| #![trigger old(self).world(store)]
                self.carried(
                    *old(self),
                    verdict,
                    store,
                    course::expand_subject_sets(
                        old(self).world(store),
                        tuples_of(rows@),
                        from as int,
                        rns@,
                        rid@,
                        act@,
                        depth as int,
                        hops as nat,
                    ),
                ) by {
                let w = old(self).world(store);
                assert(last.world(store) == w);
            }
        }
        verdict
    }

    /// Searches the tuples `tuples[from..]` of a tupleset relation for one
    /// that leads to an object on which the subject has `computed_userset`.
    fn follow_tuples(
        &mut self,
        given_tuples: Vec<TupleRow>,
        from: usize,
        computed_userset: &'a String,
        depth: i64,
    ) -> (verdict: Option<Verdict>)
        requires
            old(self).sound(),
            old(self).idle(),
            0 <= depth < MAX_DEPTH,
            old(self).stack@.len() <= depth,
            from <= given_tuples@.len(),
        ensures
            final(self).settled(*old(self), verdict),
            forall|store: Store|
                #![trigger old(self).world(store)]
                final(self).carried(
                    *old(self),
                    verdict,
                    store,
                    course::follow_tuples(
                        old(self).world(store),
                        tuples_of(given_tuples@),
                        from as int,
                        computed_userset@,
                        depth as int,
                    ),
                ),
        decreases MAX_DEPTH - depth, 0nat, 0int, given_tuples@.len() - from,
    {
        let schema: &'a Schema = self.schema;
        let ghost rows = given_tuples;
        let mut tuples = given_tuples;
        let mut i: usize = from;
        while i < tuples.len()
            invariant
                rows == given_tuples,
                from <= i <= rows@.len(),
                0 <= depth < MAX_DEPTH,
                old(self).sound(),
                old(self).idle(),
                old(self).stack@.len() <= depth,
                self.settled(*old(self), Some(Ok(true))),
                schema == old(self).schema,
                tuples == rows,
                forall|store: Store|
                    #![trigger old(self).world(store)]
                    course::follow_tuples(
                        old(self).world(store),
                        tuples_of(rows@),
                        from as int,
                        computed_userset@,
                        depth as int,
                    ) == course::follow_tuples(
                        old(self).world(store),
                        tuples_of(rows@),
                        i as int,
                        computed_userset@,
                        depth as int,
                    ),
            decreases rows@.len() - i,
        {
            let ghost t = tuples_of(rows@)[i as int];
            let known = schema.is_relation(&tuples[i].subject_namespace, computed_userset)
                || schema.is_permission(&tuples[i].subject_namespace, computed_userset);
            let free = tuples[i].subject_action.as_str().is_empty();
            let same = tuples[i].subject_action == *computed_userset;
            if !known || !(free || same) {
                i += 1;
                continue ;
            }
            let namespace = tuples[i].subject_namespace.clone();
            let id = tuples[i].subject_id.clone();
            let budget: usize = schema.permission_count(&namespace);
            let frame = Frame::Tuples { tuples, next: i + 1, computed_userset, depth };
            let ghost held = frame;
            self.push_frame(frame);
            let ghost pushed = *self;
            let branch = self.check_with_depth(
                namespace,
                id,
                computed_userset.clone(),
                depth + 1,
                budget,
            );
            proof {
                assert forall|store: Store| #![trigger old(self).world(store)]
                    self.carried(
                        pushed,
                        branch,
                        store,
                        course::check_with_hops(
                            old(self).world(store),
                            t.subject_namespace,
                            t.subject_id,
                            computed_userset@,
                            depth + 1,
                            old(self).world(store).budget(t.subject_namespace),
                        ),
                    ) by {}
            }
            match branch {
                None => {
                    proof {
                        assert forall|store: Store| #![trigger old(self).world(store)]
                            self.carried(
                                *old(self),
                                None,
                                store,
                                course::follow_tuples(
                                    old(self).world(store),
                                    tuples_of(rows@),
                                    from as int,
                                    computed_userset@,
                                    depth as int,
                                ),
                            ) by {
                            let w = old(self).world(store);
                            let b = semantics::check_with_hops(
                                w,
                                t.subject_namespace,
                                t.subject_id,
                                computed_userset@,
                                depth + 1,
                                w.budget(t.subject_namespace),
                            );
                            lemma_unwound_push(old(self).stack@, held, b, w);
                        }
                    }
                    return None;
                },
                Some(v) => {
                    match self.pop_frame() {
                        Some(Frame::Tuples { tuples: kept_tuples, .. }) => {
                            tuples = kept_tuples;
                        },
                        _ => {
                            return None;
                        },
                    }
                    assert(self.stack@ == old(self).stack@);
                    if is_grant(&v) {
                        return Some(Ok(true));
                    }
                    if is_exhausted(&v) {
                        return Some(Err(PgFgaError::MaxDepth));
                    }
                    i += 1;
                },
            }
        }
        Some(Ok(false))
    }

    /// Goes on with the search of `frame`, whose branch has come to `branch`.
    fn continue_frame(&mut self, frame: Frame<'a>, branch: Verdict) -> (verdict: Option<Verdict>)
        requires
            old(self).sound(),
            old(self).idle(),
            frame.well_formed(),
            old(self).stack@.len() <= frame.depth(),
        ensures
            final(self).settled(*old(self), verdict),
            forall|store: Store|
                #![trigger old(self).world(store)]
                final(self).carried(
                    *old(self),
                    verdict,
                    store,
                    frame.resumed(outcome_of(branch), old(self).world(store)),
                ),
    {
        match frame {
            Frame::SubjectSets {
                tuples,
                next,
                resource_namespace,
                resource_id,
                action,
                depth,
                hops,
            } => {
                if is_grant(&branch) {
                    Some(Ok(true))
                } else if is_exhausted(&branch) {
                    Some(Err(PgFgaError::MaxDepth))
                } else {
                    self.expand_subject_sets(
                        tuples,
                        next,
                        resource_namespace,
                        resource_id,
                        action,
                        depth,
                        hops,
                    )
                }
            },
            Frame::Tuples { tuples, next, computed_userset, depth } => {
                if is_grant(&branch) {
                    Some(Ok(true))
                } else if is_exhausted(&branch) {
                    Some(Err(PgFgaError::MaxDepth))
                } else {
                    self.follow_tuples(tuples, next, computed_userset, depth)
                }
            },
            Frame::Children {
                connective,
                children,
                next,
                granted,
                resource_namespace,
                resource_id,
                depth,
            } => {
                let settled = match connective {
                    Connective::Any => is_grant(&branch),
                    Connective::All => is_denial(&branch),
                };
                if settled {
                    match connective {
                        Connective::Any => Some(Ok(true)),
                        Connective::All => Some(Ok(false)),
                    }
                } else if is_exhausted(&branch) {
                    Some(Err(PgFgaError::MaxDepth))
                } else {
                    let seen = granted || is_grant(&branch);
                    self.search_children(
                        connective,
                        &resource_namespace,
                        &resource_id,
                        children,
                        next,
                        seen,
                        depth,
                    )
                }
            },
            Frame::Minuend {
                subtrahend,
                resource_namespace,
                resource_id,
                depth,
            } => self.after_minuend(&resource_namespace, &resource_id, branch, subtrahend, depth),
            Frame::Subtrahend { .. } => Some(excluded(branch)),
        }
    }

    /// Hands `given` to the searches that wait, innermost first, until one
    /// of them needs the store or none is left.
    fn unwind(&mut self, given: Verdict)
        requires
            old(self).sound(),
            old(self).idle(),
        ensures
            final(self).well_formed(),
            final(self).same_setting(*old(self)),
            forall|store: Store|
                #![trigger old(self).world(store)]
                final(self).outcome(store) == unwound(
                    old(self).stack@,
                    outcome_of(given),
                    old(self).world(store),
                ) && final(self).asked_left(store) == unwound_asked(
                    old(self).stack@,
                    outcome_of(given),
                    old(self).world(store),
                ),
    {
        let mut verdict = given;
        let ghost first = outcome_of(verdict);
        loop
            invariant
                first == outcome_of(given),
                self.sound(),
                self.idle(),
                self.same_setting(*old(self)),
                forall|store: Store|
                    #![trigger old(self).world(store)]
                    unwound(self.stack@, outcome_of(verdict), old(self).world(store)) == unwound(
                        old(self).stack@,
                        first,
                        old(self).world(store),
                    ) && unwound_asked(self.stack@, outcome_of(verdict), old(self).world(store))
                        == unwound_asked(old(self).stack@, first, old(self).world(store)),
            decreases self.stack@.len(),
        {
            let ghost branch = outcome_of(verdict);
            match self.pop_frame() {
                None => {
                    self.pending = Pending::Done(verdict);
                    return ;
                },
                Some(frame) => {
                    let ghost popped = *self;
                    let next = self.continue_frame(frame, verdict);
                    proof {
                        assert forall|store: Store| #![trigger old(self).world(store)]
                            self.carried(
                                popped,
                                next,
                                store,
                                frame.resumed(branch, old(self).world(store)),
                            ) && unwound(
                                popped.stack@,
                                frame.after_branch(branch, old(self).world(store)),
                                old(self).world(store),
                            ) == unwound(old(self).stack@, first, old(self).world(store))
                                && frame.asked_after_branch(branch, old(self).world(store))
                                + unwound_asked(
                                popped.stack@,
                                frame.after_branch(branch, old(self).world(store)),
                                old(self).world(store),
                            ) == unwound_asked(
                                old(self).stack@,
                                first,
                                old(self).world(store),
                            ) by {}
                    }
                    match next {
                        Some(v) => {
                            verdict = v;
                        },
                        None => {
                            return ;
                        },
                    }
                },
            }
        }
    }

    /// What the evaluation needs next.
    pub fn request(&self) -> (request: Request)
        ensures
            request@ == self.question(),
    {
        match &self.pending {
            Pending::Tuple { resource_namespace, resource_id, action, .. } => Request::ReadTuple {
                resource_namespace: resource_namespace.clone(),
                resource_id: resource_id.clone(),
                relation: action.clone(),
                subject_namespace: self.subject_namespace.clone(),
                subject_id: self.subject_id.clone(),
                subject_action: self.subject_action.clone(),
            },
            Pending::SubjectSets {
                resource_namespace,
                resource_id,
                action,
                ..
            } => Request::ReadSubjectsetTuples {
                resource_namespace: resource_namespace.clone(),
                resource_id: resource_id.clone(),
                relation: action.clone(),
            },
            Pending::Tuples { resource_namespace, resource_id, tupleset, .. } => {
                let relation: &String = tupleset;
                Request::ReadTuples {
                    resource_namespace: resource_namespace.clone(),
                    resource_id: resource_id.clone(),
                    relation: relation.clone(),
                }
            },
            Pending::Done(_) => Request::Finished,
        }
    }

    /// The result, once the evaluation has ended.
    pub fn result(&self) -> (result: Option<Verdict>)
        requires
            self.well_formed(),
        ensures
            result is Some <==> self.finished(),
            forall|store: Store|
                result matches Some(verdict) ==> #[trigger] self.outcome(store) == outcome_of(
                    verdict,
                ),
    {
        match &self.pending {
            Pending::Done(Ok(granted)) => Some(Ok(*granted)),
            Pending::Done(Err(e)) => Some(Err(e.duplicate())),
            _ => None,
        }
    }

    /// Goes on with the evaluation, given the store's answer to the
    /// question that was out. An answer to another question counts as a
    /// failure of the store. On an evaluation that has ended, nothing changes.
    pub fn resume(&mut self, answer: Answer)
        requires
            old(self).well_formed(),
        ensures
            final(self).well_formed(),
            final(self).schema() == old(self).schema(),
            final(self).subject() == old(self).subject(),
            forall|store: Store|
                #![trigger final(self).outcome(store)]
                #![trigger final(self).asked_left(store)]
                final(self).outcome(store) == old(self).outcome_given(answer@, store)
                    && final(self).asked_left(store) == old(self).asked_given(answer@, store),
    {
        let ghost reply = answer@;
        let mut pending = Pending::Done(Ok(false));
        std::mem::swap(&mut self.pending, &mut pending);
        let ghost idle = *self;
        let ghost asked = pending;
        let verdict = match pending {
            Pending::Done(verdict) => {
                self.pending = Pending::Done(verdict);
                return ;
            },
            Pending::Tuple { resource_namespace, resource_id, action, depth, hops } => {
                match answer {
                    Answer::Tuple(Some(_)) => Some(Ok(true)),
                    Answer::Tuple(None) => {
                        self.pending = Pending::SubjectSets {
                            resource_namespace,
                            resource_id,
                            action,
                            depth,
                            hops,
                        };
                        None
                    },
                    Answer::Tuples(_) => Some(Err(PgFgaError::SpiError(misfit_message()))),
                    Answer::Failed(message) => Some(Err(PgFgaError::SpiError(message))),
                }
            },
            Pending::SubjectSets { resource_namespace, resource_id, action, depth, hops } => {
                match answer {
                    Answer::Tuples(rows) => self.expand_subject_sets(
                        rows,
                        0,
                        resource_namespace,
                        resource_id,
                        action,
                        depth,
                        hops,
                    ),
                    Answer::Tuple(_) => Some(Err(PgFgaError::SpiError(misfit_message()))),
                    Answer::Failed(message) => Some(Err(PgFgaError::SpiError(message))),
                }
            },
            Pending::Tuples { computed_userset, depth, .. } => {
                match answer {
                    Answer::Tuples(rows) => self.follow_tuples(rows, 0, computed_userset, depth),
                    Answer::Tuple(_) => Some(Err(PgFgaError::SpiError(misfit_message()))),
                    Answer::Failed(message) => Some(Err(PgFgaError::SpiError(message))),
                }
            },
        };
        proof {
            assert forall|store: Store| #![trigger old(self).world(store)]
                self.carried(
                    idle,
                    verdict,
                    store,
                    asked.replied(reply, old(self).world(store)),
                ) by {}
        }
        self.finish_step(verdict, Ghost(idle));
        proof {
            assert forall|store: Store|
                #![trigger self.outcome(store)]
                #![trigger self.asked_left(store)]
                self.outcome(store) == old(self).outcome_given(reply, store) && self.asked_left(
                    store,
                ) == old(self).asked_given(reply, store) by {}
        }
    }

    /// Ends a step: a verdict goes to the searches that wait; without one
    /// the evaluation already waits for the store.
    fn finish_step(&mut self, verdict: Option<Verdict>, Ghost(before): Ghost<Self>)
        requires
            old(self).sound(),
            before.idle(),
            old(self).settled(before, verdict),
        ensures
            final(self).well_formed(),
            final(self).same_setting(before),
            forall|store: Store, course: Course|
                #![trigger old(self).carried(before, verdict, store, course)]
                old(self).carried(before, verdict, store, course) ==> {
                    &&& final(self).outcome(store) == unwound(
                        before.stack@,
                        course.outcome,
                        before.world(store),
                    )
                    &&& final(self).asked_left(store) == course.asked + unwound_asked(
                        before.stack@,
                        course.outcome,
                        before.world(store),
                    )
                },
    {
        match verdict {
            Some(v) => {
                self.unwind(v);
            },
            None => {},
        }
    }
}

/// The message of the failure that stands for an answer to another question.
pub fn misfit_message() -> (message: String)
    ensures
        message@ == misfit(),
{
    "the store answered another question".to_owned()
}

/// An evaluator for one schema.
pub struct Checker {
    schema_id: u128,
    schema: Schema,
}

impl Checker {
    /// The schema that checks are evaluated against.
    pub closed spec fn schema(self) -> Schema {
        self.schema
    }

    /// The identifier under which the store keeps the schema and its tuples.
    pub closed spec fn id(self) -> u128 {
        self.schema_id
    }

    /// The identifier under which the store keeps the schema and its tuples.
    pub fn schema_id(&self) -> (id: u128)
        ensures
            id == self.id(),
    {
        self.schema_id
    }

    /// An evaluator for the schema of the last of `rows`, which are the
    /// rows that the store keeps under `schema_id`. Without a row the
    /// identifier is unknown; a schema that breaks the rules on names is
    /// refused.
    pub fn new(rows: Vec<SchemaRow>, schema_id: u128) -> (made: Result<Checker, PgFgaError>)
        ensures
            match made {
                Ok(checker) => rows@.len() > 0 && rows@.last().schema.valid() && checker.schema()
                    == rows@.last().schema && checker.id() == schema_id,
                Err(e) => if rows@.len() == 0 {
                    e@ == Failure::UnknownSchemaId(schema_id)
                } else {
                    !rows@.last().schema.valid() && e@ == Failure::SchemaInvalid
                },
            },
    {
        let mut rows = rows;
        match rows.pop() {
            None => Err(PgFgaError::UnknownSchemaId(schema_id)),
            Some(row) => match row.schema.validate() {
                Ok(_) => Ok(Checker { schema_id, schema: row.schema }),
                Err(e) => Err(e),
            },
        }
    }

    /// Starts to decide whether the subject has `action` on the resource.
    /// The evaluation that comes back has run as far as it could without
    /// the store.
    pub fn check<'a>(
        &'a self,
        resource_namespace: &str,
        resource_id: &str,
        action: &str,
        subject_namespace: &str,
        subject_id: &str,
        subject_action: &str,
    ) -> (evaluation: Evaluation<'a>)
        ensures
            evaluation.well_formed(),
            evaluation.schema() == self.schema(),
            evaluation.subject() == (Subject {
                namespace: subject_namespace@,
                id: subject_id@,
                action: subject_action@,
            }),
            forall|store: Store|
                #![trigger evaluation.outcome(store)]
                #![trigger evaluation.asked_left(store)]
                evaluation.outcome(store) == semantics::check(
                    evaluation.world(store),
                    resource_namespace@,
                    resource_id@,
                    action@,
                ) && evaluation.asked_left(store) == asking::asked_check(
                    evaluation.world(store),
                    resource_namespace@,
                    resource_id@,
                    action@,
                ),
    {
        let namespace = resource_namespace.to_owned();
        let budget: usize = self.schema.permission_count(&namespace);
        let mut evaluation = Evaluation {
            schema: &self.schema,
            subject_namespace: subject_namespace.to_owned(),
            subject_id: subject_id.to_owned(),
            subject_action: subject_action.to_owned(),
            stack: Vec::new(),
            pending: Pending::Done(Ok(false)),
        };
        let ghost fresh = evaluation;
        let verdict = evaluation.check_with_depth(
            namespace,
            resource_id.to_owned(),
            action.to_owned(),
            0,
            budget,
        );
        evaluation.finish_step(verdict, Ghost(fresh));
        proof {
            assert forall|store: Store|
                #![trigger evaluation.outcome(store)]
                #![trigger evaluation.asked_left(store)]
                evaluation.outcome(store) == semantics::check(
                    evaluation.world(store),
                    resource_namespace@,
                    resource_id@,
                    action@,
                ) && evaluation.asked_left(store) == asking::asked_check(
                    evaluation.world(store),
                    resource_namespace@,
                    resource_id@,
                    action@,
                ) by {
                let w = fresh.world(store);
            }
        }
        evaluation
    }

    /// Decides whether the subject has `action` on the resource, with the
    /// tuples that `storage` keeps under the identifier of the schema.
    pub fn decide(
        &self,
        storage: &Storage,
        resource_namespace: &str,
        resource_id: &str,
        action: &str,
        subject_namespace: &str,
        subject_id: &str,
        subject_action: &str,
    ) -> (verdict: Verdict)
        ensures
            outcome_of(verdict) == semantics::check(
                World {
                    schema: self.schema(),
                    store: storage.model(self.id()),
                    subject: Subject {
                        namespace: subject_namespace@,
                        id: subject_id@,
                        action: subject_action@,
                    },
                },
                resource_namespace@,
                resource_id@,
                action@,
            ),
    {
        let mut evaluation = self.check(
            resource_namespace,
            resource_id,
            action,
            subject_namespace,
            subject_id,
            subject_action,
        );
        let ghost store = storage.model(self.id());
        let ghost goal = evaluation.outcome(store);
        loop
            invariant
                evaluation.well_formed(),
                evaluation.outcome(store) == goal,
                store == storage.model(self.id()),
                goal == semantics::check(
                    World {
                        schema: self.schema(),
                        store,
                        subject: Subject {
                            namespace: subject_namespace@,
                            id: subject_id@,
                            action: subject_action@,
                        },
                    },
                    resource_namespace@,
                    resource_id@,
                    action@,
                ),
            decreases evaluation.asked_left(store).len(),
        {
            match evaluation.result() {
                Some(verdict) => {
                    return verdict;
                },
                None => {
                    let request = evaluation.request();
                    let answer = storage.answer(self.schema_id, &request);
                    evaluation.resume(answer);
                },
            }
        }
    }
}

impl<'a> Evaluation<'a> {
    /// No more searches wait in an evaluation than the depth limit allows.
    pub proof fn law_height_is_bounded(self)
        requires
            self.well_formed(),
        ensures
            self.height() <= MAX_DEPTH,
    {
    }

    /// The question that is out is the first of those still to ask.
    pub proof fn law_question_comes_first(self, store: Store)
        requires
            !self.finished(),
        ensures
            self.asked_left(store).len() >= 1,
            self.asked_left(store)[0] == self.question(),
    {
    }

    /// Each answer of the store brings the end nearer: handing the
    /// store's reply to an evaluation that has asked for it leaves the
    /// outcome as it was, and of the questions still to ask all but the
    /// one that was answered.
    pub proof fn law_answers_make_progress(self, after: Self, reply: Reply, store: Store)
        requires
            !self.finished(),
            reply == store.reply(self.question()),
            after.outcome(store) == self.outcome_given(reply, store),
            after.asked_left(store) == self.asked_given(reply, store),
        ensures
            after.outcome(store) == self.outcome(store),
            seq![self.question()] + after.asked_left(store) == self.asked_left(store),
    {
    }
}

} // verus!
