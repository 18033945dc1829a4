//! Operations on offices: each one a short dialogue with the table of
//! offices, in which the name is checked before anything is written.
//!
//! Names are compared as they come, character for character. An office that
//! employees still refer to is for storage to refuse when it is to be
//! removed: the refusal comes back as a failure of storage. The table of
//! offices in memory holds no employees and refuses nothing.

use crate::entity::office::Office;
use crate::repository::office_repository::{OfficeRepository, OfficeTable};
use crate::repository::StorageError;
use crate::service::{unexpected, ServiceError, Stage};
use crate::utils::Validate;
use vstd::prelude::*;

verus! {

/// What a caller can ask for.
#[derive(Debug, PartialEq, Eq)]
pub enum OfficeRequest {
    /// Store a new office.
    Add(Office),
    /// Look an office up by its identity.
    Find(i32),
    /// List all offices.
    ListAll,
    /// Give the office of this identity a new name and capacity.
    Update(i32, Office),
    /// Take the office of this identity out.
    Remove(i32),
}

/// What an operation asks of the table of offices.
#[derive(Debug, PartialEq, Eq)]
pub enum OfficeQuery {
    /// The office of this identity.
    ById(i32),
    /// The office of this name.
    ByName(String),
    /// All offices.
    All,
    /// Store this office.
    Create(Office),
    /// Give the row of this identity the name and capacity of this office.
    Update(i32, Office),
    /// Take the row of this identity out.
    Delete(i32),
}

/// What the table answers.
#[derive(Debug, PartialEq, Eq)]
pub enum OfficeReply {
    /// One office, or none: what was looked up, stored or changed.
    Row(Option<Office>),
    /// Offices, in the order of the table.
    Rows(Vec<Office>),
    /// The number of rows taken out.
    Removed(u64),
    /// Storage could not do what was asked.
    Failed(StorageError),
}

/// An answer of the table by its content.
pub enum OfficeReplyView {
    Row(Option<Office>),
    Rows(Seq<Office>),
    Removed(u64),
    Failed(StorageError),
}

impl View for OfficeReply {
    type V = OfficeReplyView;

    open spec fn view(&self) -> OfficeReplyView {
        match *self {
            OfficeReply::Row(row) => OfficeReplyView::Row(row),
            OfficeReply::Rows(rows) => OfficeReplyView::Rows(rows@),
            OfficeReply::Removed(count) => OfficeReplyView::Removed(count),
            OfficeReply::Failed(error) => OfficeReplyView::Failed(error),
        }
    }
}

/// What an operation hands back when it succeeds.
#[derive(Debug, PartialEq, Eq)]
pub enum OfficeOutcome {
    /// The office as stored or as changed.
    One(Office),
    /// The office that was looked up, if it is there.
    Lookup(Option<Office>),
    /// All offices.
    Many(Vec<Office>),
    /// Whether a row was taken out.
    Removed(bool),
}

/// The success of an operation by its content.
pub enum OfficeOutcomeView {
    One(Office),
    Lookup(Option<Office>),
    Many(Seq<Office>),
    Removed(bool),
}

impl View for OfficeOutcome {
    type V = OfficeOutcomeView;

    open spec fn view(&self) -> OfficeOutcomeView {
        match *self {
            OfficeOutcome::One(office) => OfficeOutcomeView::One(office),
            OfficeOutcome::Lookup(found) => OfficeOutcomeView::Lookup(found),
            OfficeOutcome::Many(offices) => OfficeOutcomeView::Many(offices@),
            OfficeOutcome::Removed(removed) => OfficeOutcomeView::Removed(removed),
        }
    }
}

/// The result of an operation by its content.
pub open spec fn result_view(result: Result<OfficeOutcome, ServiceError>) -> Result<
    OfficeOutcomeView,
    ServiceError,
> {
    match result {
        Ok(outcome) => Ok(outcome@),
        Err(error) => Err(error),
    }
}

/// What an operation does next.
#[derive(Debug, PartialEq, Eq)]
pub enum OfficeStep {
    /// It asks the table, and goes on with the answer.
    Ask(OfficeQuery),
    /// It is done, with this result.
    Done(Result<OfficeOutcome, ServiceError>),
}

/// The next step of an operation by its content.
pub enum OfficeStepView {
    Ask(OfficeQuery),
    Done(Result<OfficeOutcomeView, ServiceError>),
}

impl View for OfficeStep {
    type V = OfficeStepView;

    open spec fn view(&self) -> OfficeStepView {
        match *self {
            OfficeStep::Ask(query) => OfficeStepView::Ask(query),
            OfficeStep::Done(result) => OfficeStepView::Done(result_view(result)),
        }
    }
}

/// An operation under way: what was asked for, and how far it has come.
#[derive(Debug, PartialEq, Eq)]
pub struct OfficeSession {
    pub request: OfficeRequest,
    pub stage: Stage,
}

impl OfficeSession {
    /// The session is over, with `result`.
    pub open spec fn close(self, result: Result<OfficeOutcomeView, ServiceError>) -> (
        OfficeSession,
        OfficeStepView,
    ) {
        (OfficeSession { request: self.request, stage: Stage::Closed }, OfficeStepView::Done(result))
    }

    /// The session puts its last question.
    pub open spec fn commit(self, query: OfficeQuery) -> (OfficeSession, OfficeStepView) {
        (OfficeSession { request: self.request, stage: Stage::Committing }, OfficeStepView::Ask(query))
    }

    /// How an operation starts. An office that is to be stored or changed is
    /// validated first, and the table is then asked for its name; the other
    /// operations put their one question at once.
    pub open spec fn start(request: OfficeRequest) -> (OfficeSession, OfficeStepView) {
        let fresh = OfficeSession { request, stage: Stage::Checking };
        match request {
            OfficeRequest::Add(office) | OfficeRequest::Update(_, office) => match office.violation() {
                Some(reason) => fresh.close(Err(ServiceError::ValidationFailed(reason))),
                None => (fresh, OfficeStepView::Ask(OfficeQuery::ByName(office.name))),
            },
            OfficeRequest::Find(id) => fresh.commit(OfficeQuery::ById(id)),
            OfficeRequest::ListAll => fresh.commit(OfficeQuery::All),
            OfficeRequest::Remove(id) => fresh.commit(OfficeQuery::Delete(id)),
        }
    }

    /// How an operation goes on when the table has answered.
    ///
    /// After the question for the name: a new office is refused as a
    /// duplicate where the name is taken, a change where it is taken by an
    /// office of another identity; otherwise the write is put.
    /// After the last question the answer is the result; a change that found
    /// no row is `NotFound`. A failure of storage ends the operation with
    /// that failure, and so does an answer that does not fit the question.
    pub open spec fn next(self, reply: OfficeReplyView) -> (OfficeSession, OfficeStepView) {
        match self.stage {
            Stage::Checking => match (self.request, reply) {
                (_, OfficeReplyView::Failed(error)) => self.close(
                    Err(ServiceError::StorageUnavailable(error)),
                ),
                (OfficeRequest::Add(office), OfficeReplyView::Row(found)) => if found is Some {
                    self.close(Err(ServiceError::DuplicateName))
                } else {
                    self.commit(OfficeQuery::Create(office))
                },
                (OfficeRequest::Update(id, office), OfficeReplyView::Row(found)) => if found is Some
                    && found->0.id != Some(id) {
                    self.close(Err(ServiceError::DuplicateName))
                } else {
                    self.commit(OfficeQuery::Update(id, office))
                },
                _ => self.close(Err(unexpected())),
            },
            Stage::Committing => match (self.request, reply) {
                (OfficeRequest::Update(_, _), OfficeReplyView::Failed(StorageError::RowNotFound)) =>
                    self.close(Err(ServiceError::NotFound)),
                (_, OfficeReplyView::Failed(error)) => self.close(
                    Err(ServiceError::StorageUnavailable(error)),
                ),
                (OfficeRequest::Add(_), OfficeReplyView::Row(Some(office))) => self.close(
                    Ok(OfficeOutcomeView::One(office)),
                ),
                (OfficeRequest::Update(_, _), OfficeReplyView::Row(Some(office))) => self.close(
                    Ok(OfficeOutcomeView::One(office)),
                ),
                (OfficeRequest::Find(_), OfficeReplyView::Row(found)) => self.close(
                    Ok(OfficeOutcomeView::Lookup(found)),
                ),
                (OfficeRequest::ListAll, OfficeReplyView::Rows(offices)) => self.close(
                    Ok(OfficeOutcomeView::Many(offices)),
                ),
                (OfficeRequest::Remove(_), OfficeReplyView::Removed(count)) => self.close(
                    Ok(OfficeOutcomeView::Removed(count > 0)),
                ),
                _ => self.close(Err(unexpected())),
            },
            _ => self.close(Err(unexpected())),
        }
    }

    /// Starts an operation: the session, and its first step.
    pub fn begin(request: OfficeRequest) -> (r: (OfficeSession, OfficeStep))
        ensures
            (r.0, r.1@) == OfficeSession::start(request),
    {
        let (stage, step) = match &request {
            OfficeRequest::Add(office) => match office.validate() {
                Err(reason) => (
                    Stage::Closed,
                    OfficeStep::Done(Err(ServiceError::ValidationFailed(reason))),
                ),
                Ok(_) => (Stage::Checking, OfficeStep::Ask(OfficeQuery::ByName(office.name.clone()))),
            },
            OfficeRequest::Update(_, office) => match office.validate() {
                Err(reason) => (
                    Stage::Closed,
                    OfficeStep::Done(Err(ServiceError::ValidationFailed(reason))),
                ),
                Ok(_) => (Stage::Checking, OfficeStep::Ask(OfficeQuery::ByName(office.name.clone()))),
            },
            OfficeRequest::Find(id) => (Stage::Committing, OfficeStep::Ask(OfficeQuery::ById(*id))),
            OfficeRequest::ListAll => (Stage::Committing, OfficeStep::Ask(OfficeQuery::All)),
            OfficeRequest::Remove(id) => (
                Stage::Committing,
                OfficeStep::Ask(OfficeQuery::Delete(*id)),
            ),
        };
        (OfficeSession { request, stage }, step)
    }

    /// Goes on with the answer of the table: the session, and its next step.
    pub fn resume(self, reply: OfficeReply) -> (r: (OfficeSession, OfficeStep))
        ensures
            (r.0, r.1@) == self.next(reply@),
            r.1 is Ask ==> r.0.stage.rank() < self.stage.rank(),
            r.1 is Done ==> r.0.stage is Closed,
    {
        let step = match self.stage {
            Stage::Checking => match (&self.request, reply) {
                (_, OfficeReply::Failed(error)) => OfficeStep::Done(
                    Err(ServiceError::StorageUnavailable(error)),
                ),
                (OfficeRequest::Add(office), OfficeReply::Row(found)) => {
                    if found.is_some() {
                        OfficeStep::Done(Err(ServiceError::DuplicateName))
                    } else {
                        OfficeStep::Ask(OfficeQuery::Create(office.clone()))
                    }
                },
                (OfficeRequest::Update(id, office), OfficeReply::Row(found)) => {
                    let taken = match found {
                        Some(other) => match other.id {
                            Some(other_id) => other_id != *id,
                            None => true,
                        },
                        None => false,
                    };
                    if taken {
                        OfficeStep::Done(Err(ServiceError::DuplicateName))
                    } else {
                        OfficeStep::Ask(OfficeQuery::Update(*id, office.clone()))
                    }
                },
                _ => OfficeStep::Done(Err(ServiceError::StorageUnavailable(StorageError::UnexpectedReply))),
            },
            Stage::Committing => match (&self.request, reply) {
                (OfficeRequest::Update(_, _), OfficeReply::Failed(StorageError::RowNotFound)) =>
                    OfficeStep::Done(Err(ServiceError::NotFound)),
                (_, OfficeReply::Failed(error)) => OfficeStep::Done(
                    Err(ServiceError::StorageUnavailable(error)),
                ),
                (OfficeRequest::Add(_), OfficeReply::Row(Some(office))) => OfficeStep::Done(
                    Ok(OfficeOutcome::One(office)),
                ),
                (OfficeRequest::Update(_, _), OfficeReply::Row(Some(office))) => OfficeStep::Done(
                    Ok(OfficeOutcome::One(office)),
                ),
                (OfficeRequest::Find(_), OfficeReply::Row(found)) => OfficeStep::Done(
                    Ok(OfficeOutcome::Lookup(found)),
                ),
                (OfficeRequest::ListAll, OfficeReply::Rows(offices)) => OfficeStep::Done(
                    Ok(OfficeOutcome::Many(offices)),
                ),
                (OfficeRequest::Remove(_), OfficeReply::Removed(count)) => OfficeStep::Done(
                    Ok(OfficeOutcome::Removed(count > 0)),
                ),
                _ => OfficeStep::Done(Err(ServiceError::StorageUnavailable(StorageError::UnexpectedReply))),
            },
            _ => OfficeStep::Done(Err(ServiceError::StorageUnavailable(StorageError::UnexpectedReply))),
        };
        let stage = match step {
            OfficeStep::Ask(_) => Stage::Committing,
            OfficeStep::Done(_) => Stage::Closed,
        };
        (OfficeSession { request: self.request, stage }, step)
    }
}


/// The office of a result that holds one office. A success of another kind
/// is an answer that does not fit, and an error stays what it is.
pub fn expect_office(result: Result<OfficeOutcome, ServiceError>) -> (r: Result<
    Office,
    ServiceError,
>)
    ensures
        r == (match result {
            Ok(OfficeOutcome::One(office)) => Ok::<Office, ServiceError>(office),
            Ok(_) => Err(unexpected()),
            Err(error) => Err(error),
        }),
{
    match result {
        Ok(OfficeOutcome::One(office)) => Ok(office),
        Ok(_) => Err(ServiceError::StorageUnavailable(StorageError::UnexpectedReply)),
        Err(error) => Err(error),
    }
}

/// What was found, of a result that holds a lookup. A success of another
/// kind is an answer that does not fit, and an error stays what it is.
pub fn expect_lookup(result: Result<OfficeOutcome, ServiceError>) -> (r: Result<
    Option<Office>,
    ServiceError,
>)
    ensures
        r == (match result {
            Ok(OfficeOutcome::Lookup(found)) => Ok::<Option<Office>, ServiceError>(found),
            Ok(_) => Err(unexpected()),
            Err(error) => Err(error),
        }),
{
    match result {
        Ok(OfficeOutcome::Lookup(found)) => Ok(found),
        Ok(_) => Err(ServiceError::StorageUnavailable(StorageError::UnexpectedReply)),
        Err(error) => Err(error),
    }
}

/// The offices of a result that holds a list. A success of another kind is
/// an answer that does not fit, and an error stays what it is.
pub fn expect_offices(result: Result<OfficeOutcome, ServiceError>) -> (r: Result<
    Vec<Office>,
    ServiceError,
>)
    ensures
        r == (match result {
            Ok(OfficeOutcome::Many(offices)) => Ok::<Vec<Office>, ServiceError>(offices),
            Ok(_) => Err(unexpected()),
            Err(error) => Err(error),
        }),
{
    match result {
        Ok(OfficeOutcome::Many(offices)) => Ok(offices),
        Ok(_) => Err(ServiceError::StorageUnavailable(StorageError::UnexpectedReply)),
        Err(error) => Err(error),
    }
}

/// Whether a row was taken out, of a result that says so. A success of
/// another kind is an answer that does not fit, and an error stays what it
/// is.
pub fn expect_removed(result: Result<OfficeOutcome, ServiceError>) -> (r: Result<
    bool,
    ServiceError,
>)
    ensures
        r == (match result {
            Ok(OfficeOutcome::Removed(removed)) => Ok::<bool, ServiceError>(removed),
            Ok(_) => Err(unexpected()),
            Err(error) => Err(error),
        }),
{
    match result {
        Ok(OfficeOutcome::Removed(removed)) => Ok(removed),
        Ok(_) => Err(ServiceError::StorageUnavailable(StorageError::UnexpectedReply)),
        Err(error) => Err(error),
    }
}

/// What the table answers to a question, and what it holds afterwards.
pub open spec fn respond(table: OfficeTable, query: OfficeQuery) -> (OfficeTable, OfficeReplyView) {
    match query {
        OfficeQuery::ById(id) => (table, OfficeReplyView::Row(table.by_id(id))),
        OfficeQuery::ByName(name) => (table, OfficeReplyView::Row(table.by_name(name@))),
        OfficeQuery::All => (table, OfficeReplyView::Rows(table.rows)),
        OfficeQuery::Create(office) => if table.has_room() {
            (table.insert(office), OfficeReplyView::Row(Some(table.stored(office))))
        } else {
            (table, OfficeReplyView::Failed(StorageError::IdentitiesExhausted))
        },
        OfficeQuery::Update(id, office) => if table.has_id(id) {
            (table.update(id, office), OfficeReplyView::Row(Some(OfficeTable::replaced(id, office))))
        } else {
            (table, OfficeReplyView::Failed(StorageError::RowNotFound))
        },
        OfficeQuery::Delete(id) => (
            table.remove(id),
            OfficeReplyView::Removed(
                if table.has_id(id) {
                    1
                } else {
                    0
                },
            ),
        ),
    }
}

/// Whether a question leaves the table as it is.
pub open spec fn reads_only(query: OfficeQuery) -> bool {
    query is ById || query is ByName || query is All
}

/// Where a session ends when its questions are put to `table` one after the
/// other: the table afterwards, and the result.
pub open spec fn run(table: OfficeTable, session: OfficeSession, step: OfficeStepView) -> (
    OfficeTable,
    Result<OfficeOutcomeView, ServiceError>,
)
    decreases session.stage.rank(),
{
    match step {
        OfficeStepView::Done(result) => (table, result),
        OfficeStepView::Ask(query) => if session.stage is Closed {
            (table, Err(unexpected()))
        } else {
            let answered = respond(table, query);
            let moved = session.next(answered.1);
            run(answered.0, moved.0, moved.1)
        },
    }
}

/// What an operation does to `table` from start to end, and its result.
pub open spec fn serve(table: OfficeTable, request: OfficeRequest) -> (
    OfficeTable,
    Result<OfficeOutcomeView, ServiceError>,
) {
    run(table, OfficeSession::start(request).0, OfficeSession::start(request).1)
}

/// The result of adding `office` to `table`: refused where it breaks a rule,
/// then where its name is taken; a failure where the table has no identity
/// left; else the office as stored.
pub open spec fn added(table: OfficeTable, office: Office) -> Result<Office, ServiceError> {
    if office.violation() is Some {
        Err(ServiceError::ValidationFailed(office.violation()->0))
    } else if table.has_name(office.name@) {
        Err(ServiceError::DuplicateName)
    } else if !table.has_room() {
        Err(ServiceError::StorageUnavailable(StorageError::IdentitiesExhausted))
    } else {
        Ok(table.stored(office))
    }
}

/// The table after `office` was to be added: with it where that succeeded,
/// unchanged where it did not.
pub open spec fn after_add(table: OfficeTable, office: Office) -> OfficeTable {
    if added(table, office) is Ok {
        table.insert(office)
    } else {
        table
    }
}

/// The result of giving the office `id` the name and capacity of `office`:
/// refused where `office` breaks a rule, then where an office of another
/// identity has the name; `NotFound` where no office has the identity `id`;
/// else the office as it now stands.
pub open spec fn updated(table: OfficeTable, id: i32, office: Office) -> Result<
    Office,
    ServiceError,
> {
    if office.violation() is Some {
        Err(ServiceError::ValidationFailed(office.violation()->0))
    } else if table.by_name(office.name@) is Some && table.by_name(office.name@)->0.id != Some(id) {
        Err(ServiceError::DuplicateName)
    } else if !table.has_id(id) {
        Err(ServiceError::NotFound)
    } else {
        Ok(OfficeTable::replaced(id, office))
    }
}

/// The table after the office `id` was to be changed: changed where that
/// succeeded, unchanged where it did not.
pub open spec fn after_update(table: OfficeTable, id: i32, office: Office) -> OfficeTable {
    if updated(table, id, office) is Ok {
        table.update(id, office)
    } else {
        table
    }
}

/// Adding an office, question by question, comes to what `added` and
/// `after_add` say.
pub proof fn lemma_serve_add(table: OfficeTable, office: Office)
    ensures
        serve(table, OfficeRequest::Add(office)) == (
            after_add(table, office),
            match added(table, office) {
                Ok(created) => Ok::<OfficeOutcomeView, ServiceError>(OfficeOutcomeView::One(created)),
                Err(error) => Err(error),
            },
        ),
{
    reveal_with_fuel(run, 3);
}

/// Looking an office up comes to a search of the table by identity, and
/// leaves the table as it is.
pub proof fn lemma_serve_find(table: OfficeTable, id: i32)
    ensures
        serve(table, OfficeRequest::Find(id)) == (
            table,
            Ok::<OfficeOutcomeView, ServiceError>(OfficeOutcomeView::Lookup(table.by_id(id))),
        ),
{
    reveal_with_fuel(run, 3);
}

/// Listing the offices comes to the rows of the table, and leaves the table
/// as it is.
pub proof fn lemma_serve_list(table: OfficeTable)
    ensures
        serve(table, OfficeRequest::ListAll) == (
            table,
            Ok::<OfficeOutcomeView, ServiceError>(OfficeOutcomeView::Many(table.rows)),
        ),
{
    reveal_with_fuel(run, 3);
}

/// Changing an office, question by question, comes to what `updated` and
/// `after_update` say.
pub proof fn lemma_serve_update(table: OfficeTable, id: i32, office: Office)
    ensures
        serve(table, OfficeRequest::Update(id, office)) == (
            after_update(table, id, office),
            match updated(table, id, office) {
                Ok(changed) => Ok::<OfficeOutcomeView, ServiceError>(OfficeOutcomeView::One(changed)),
                Err(error) => Err(error),
            },
        ),
{
    reveal_with_fuel(run, 3);
}

/// Removing an office takes its row out, and says whether there was one.
pub proof fn lemma_serve_remove(table: OfficeTable, id: i32)
    ensures
        serve(table, OfficeRequest::Remove(id)) == (
            table.remove(id),
            Ok::<OfficeOutcomeView, ServiceError>(OfficeOutcomeView::Removed(table.has_id(id))),
        ),
{
    reveal_with_fuel(run, 3);
}

/// The operations on offices, over a table of offices in memory.
pub struct OfficeService {
    repo: OfficeRepository,
}

impl View for OfficeService {
    type V = OfficeTable;

    closed spec fn view(&self) -> OfficeTable {
        self.repo@
    }
}

impl OfficeService {
    /// The service over the table `repo`.
    pub fn new(repo: OfficeRepository) -> (service: OfficeService)
        ensures
            service@ == repo@,
            service@.wf(),
    {
        proof {
            use_type_invariant(&repo);
        }
        OfficeService { repo }
    }

    /// The table, given back.
    pub fn into_repository(self) -> (repo: OfficeRepository)
        ensures
            repo@ == self@,
    {
        self.repo
    }

    /// Puts a question that changes nothing to the table.
    fn peek(&self, query: OfficeQuery) -> (reply: OfficeReply)
        requires
            reads_only(query),
        ensures
            self@.wf(),
            (self@, reply@) == respond(self@, query),
    {
        match query {
            OfficeQuery::ById(id) => OfficeReply::Row(self.repo.get_office_by_id(id)),
            OfficeQuery::ByName(name) => OfficeReply::Row(
                self.repo.get_office_by_name(name.as_str()),
            ),
            _ => OfficeReply::Rows(self.repo.get_all_offices()),
        }
    }

    /// Puts a question to the table and hands back the answer: what a session
    /// asks, one question at a time, when it is driven by hand.
    pub fn answer(&mut self, query: OfficeQuery) -> (reply: OfficeReply)
        ensures
            final(self)@.wf(),
            (final(self)@, reply@) == respond(old(self)@, query),
    {
        match query {
            OfficeQuery::Create(office) => match self.repo.create_office(&office) {
                Ok(created) => OfficeReply::Row(Some(created)),
                Err(error) => OfficeReply::Failed(error),
            },
            OfficeQuery::Update(id, office) => match self.repo.update_office_by_id(id, &office) {
                Ok(changed) => OfficeReply::Row(Some(changed)),
                Err(error) => OfficeReply::Failed(error),
            },
            OfficeQuery::Delete(id) => OfficeReply::Removed(self.repo.delete_office(id)),
            _ => self.peek(query),
        }
    }

    /// Carries an operation that only reads through, from its first question
    /// to its result.
    fn consult(&self, request: OfficeRequest) -> (r: Result<OfficeOutcome, ServiceError>)
        requires
            request is Find || request is ListAll,
        ensures
            self@.wf(),
            (self@, result_view(r)) == serve(self@, request),
    {
        proof {
            use_type_invariant(&self.repo);
        }
        let started = OfficeSession::begin(request);
        let mut session = started.0;
        let mut step = started.1;
        loop
            invariant
                self@.wf(),
                run(self@, session, step@) == serve(self@, request),
                session.request is Find || session.request is ListAll,
                step matches OfficeStep::Ask(query) ==> reads_only(query),
            decreases session.stage.rank(), (if step is Ask { 1nat } else { 0nat }),
        {
            match step {
                OfficeStep::Done(result) => {
                    return result;
                },
                OfficeStep::Ask(query) => {
                    if session.stage == Stage::Closed {
                        step = OfficeStep::Done(
                            Err(ServiceError::StorageUnavailable(StorageError::UnexpectedReply)),
                        );
                    } else {
                        let reply = self.peek(query);
                        let moved = session.resume(reply);
                        session = moved.0;
                        step = moved.1;
                    }
                },
            }
        }
    }

    /// Carries an operation through, from its first question to its result.
    fn drive(&mut self, request: OfficeRequest) -> (r: Result<OfficeOutcome, ServiceError>)
        ensures
            final(self)@.wf(),
            (final(self)@, result_view(r)) == serve(old(self)@, request),
    {
        proof {
            use_type_invariant(&self.repo);
        }
        let started = OfficeSession::begin(request);
        let mut session = started.0;
        let mut step = started.1;
        loop
            invariant
                self@.wf(),
                run(self@, session, step@) == serve(old(self)@, request),
            decreases session.stage.rank(), (if step is Ask { 1nat } else { 0nat }),
        {
            match step {
                OfficeStep::Done(result) => {
                    return result;
                },
                OfficeStep::Ask(query) => {
                    if session.stage == Stage::Closed {
                        step = OfficeStep::Done(
                            Err(ServiceError::StorageUnavailable(StorageError::UnexpectedReply)),
                        );
                    } else {
                        let reply = self.answer(query);
                        let moved = session.resume(reply);
                        session = moved.0;
                        step = moved.1;
                    }
                },
            }
        }
    }

    /// Stores a new office.
    ///
    /// The office is validated first; then its name must be free; then it is
    /// stored and returned with its identity. The table is changed only where
    /// the result is `Ok`.
    pub fn add_office(&mut self, office: &Office) -> (r: Result<Office, ServiceError>)
        ensures
            final(self)@.wf(),
            r == added(old(self)@, *office),
            final(self)@ == after_add(old(self)@, *office),
    {
        proof {
            lemma_serve_add(self@, *office);
        }
        expect_office(self.drive(OfficeRequest::Add(office.clone())))
    }

    /// The office of identity `id`, or `None` where there is none. The table
    /// in memory never fails, so the result is always `Ok`.
    pub fn find_office_by_id(&self, id: i32) -> (r: Result<Option<Office>, ServiceError>)
        ensures
            self@.wf(),
            r == Ok::<Option<Office>, ServiceError>(self@.by_id(id)),
    {
        proof {
            lemma_serve_find(self@, id);
        }
        expect_lookup(self.consult(OfficeRequest::Find(id)))
    }

    /// All offices, in the order in which they were stored.
    pub fn list_all_offices(&self) -> (r: Result<Vec<Office>, ServiceError>)
        ensures
            self@.wf(),
            r is Ok,
            r->Ok_0@ == self@.rows,
    {
        proof {
            lemma_serve_list(self@);
        }
        expect_offices(self.consult(OfficeRequest::ListAll))
    }

    /// Gives the office of identity `id` the name and capacity of `office`.
    ///
    /// `office` is validated first; then its name must be free or be the
    /// name of the office `id` itself; then the row is changed and returned.
    /// The table is changed only where the result is `Ok`.
    pub fn update_office(&mut self, id: i32, office: &Office) -> (r: Result<Office, ServiceError>)
        ensures
            final(self)@.wf(),
            r == updated(old(self)@, id, *office),
            final(self)@ == after_update(old(self)@, id, *office),
    {
        proof {
            lemma_serve_update(self@, id, *office);
        }
        expect_office(self.drive(OfficeRequest::Update(id, office.clone())))
    }

    /// Takes the office of identity `id` out. `Ok(false)` where there is no
    /// such office: that is no error.
    pub fn remove_office(&mut self, id: i32) -> (r: Result<bool, ServiceError>)
        ensures
            final(self)@.wf(),
            r == Ok::<bool, ServiceError>(old(self)@.has_id(id)),
            final(self)@ == old(self)@.remove(id),
    {
        proof {
            lemma_serve_remove(self@, id);
        }
        expect_removed(self.drive(OfficeRequest::Remove(id)))
    }
}


/// Adding an office keeps the table well formed, and keeps the names of its
/// offices apart where they were apart.
pub proof fn law_add_keeps_order(table: OfficeTable, office: Office)
    requires
        table.wf(),
    ensures
        after_add(table, office).wf(),
        table.names_unique() ==> after_add(table, office).names_unique(),
{
    let after = after_add(table, office);
    if added(table, office) is Ok {
        let last = table.rows.len() as int;
        assert forall|i: int, j: int| 0 <= i < j < after.rows.len() implies (
        #[trigger] after.rows[i]).id != (#[trigger] after.rows[j]).id by {
            if j < last {
                assert(table.rows[i].id != table.rows[j].id);
            } else {
                assert(table.rows[i].id->0 < table.next_id);
            }
        }
        if table.names_unique() {
            assert forall|i: int, j: int| 0 <= i < j < after.rows.len() implies (
            #[trigger] after.rows[i]).name@ != (#[trigger] after.rows[j]).name@ by {
                if j < last {
                    assert(table.rows[i].name@ != table.rows[j].name@);
                } else {
                    assert(table.rows[i].name@ != office.name@);
                }
            }
        }
    }
}

/// Of two valid offices with one name, added one after the other to a table
/// that has room and does not hold the name, the first is stored and the
/// second is refused as a duplicate: exactly one comes through, whichever of
/// the two is served first.
pub proof fn law_one_name_one_office(table: OfficeTable, first: Office, second: Office)
    requires
        table.wf(),
        first.violation() is None,
        second.violation() is None,
        first.name@ == second.name@,
        !table.has_name(first.name@),
        table.has_room(),
    ensures
        added(table, first) is Ok,
        added(after_add(table, first), second) == Err::<Office, ServiceError>(
            ServiceError::DuplicateName,
        ),
        after_add(after_add(table, first), second) == after_add(table, first),
{
    law_name_is_taken_after_add(table, first, second);
}

/// Once an office has been stored, no valid office of the same name is:
/// it is refused as a duplicate, and the table stays as it is.
pub proof fn law_name_is_taken_after_add(table: OfficeTable, first: Office, second: Office)
    requires
        added(table, first) is Ok,
        second.violation() is None,
        first.name@ == second.name@,
    ensures
        added(after_add(table, first), second) == Err::<Office, ServiceError>(
            ServiceError::DuplicateName,
        ),
        after_add(after_add(table, first), second) == after_add(table, first),
{
    let after = after_add(table, first);
    let last = table.rows.len() as int;
    assert(after.rows[last].name@ == second.name@);
}

/// Looking an office up changes nothing, so a second look finds what the
/// first one found.
pub proof fn law_lookup_repeats(table: OfficeTable, id: i32)
    ensures
        serve(table, OfficeRequest::Find(id)).0 == table,
        serve(serve(table, OfficeRequest::Find(id)).0, OfficeRequest::Find(id)).1 == serve(
            table,
            OfficeRequest::Find(id),
        ).1,
{
    lemma_serve_find(table, id);
}

/// An office that was added is found under the identity it was given, with
/// the name and the capacity it came with.
pub proof fn law_add_then_find(table: OfficeTable, office: Office)
    requires
        table.wf(),
        added(table, office) is Ok,
    ensures
        ({
            let created = added(table, office)->Ok_0;
            &&& created.id is Some
            &&& created.name == office.name
            &&& created.max_occupancy == office.max_occupancy
            &&& after_add(table, office).by_id(created.id->0) == Some(created)
        }),
{
    law_add_keeps_order(table, office);
    let after = after_add(table, office);
    crate::repository::office_repository::lemma_row_by_id(after, table.rows.len() as int);
}

/// Changing an office keeps the table well formed, and keeps the names of
/// its offices apart where they were apart.
pub proof fn law_update_keeps_order(table: OfficeTable, id: i32, office: Office)
    requires
        table.wf(),
    ensures
        after_update(table, id, office).wf(),
        table.names_unique() ==> after_update(table, id, office).names_unique(),
{
    let after = after_update(table, id, office);
    if updated(table, id, office) is Ok {
        let at = table.index_of(id);
        assert(table.rows[at].id == Some(id));
        assert forall|i: int, j: int| 0 <= i < j < after.rows.len() implies (
        #[trigger] after.rows[i]).id != (#[trigger] after.rows[j]).id by {
            assert(table.rows[i].id != table.rows[j].id);
        }
        assert forall|i: int| 0 <= i < after.rows.len() implies (#[trigger] after.rows[i]).id is Some
            && 1 <= after.rows[i].id->0 < after.next_id by {
            assert(table.rows[i].id is Some);
        }
        if table.names_unique() {
            assert forall|i: int, j: int| 0 <= i < j < after.rows.len() implies (
            #[trigger] after.rows[i]).name@ != (#[trigger] after.rows[j]).name@ by {
                assert(table.rows[i].name@ != table.rows[j].name@);
                if i == at && table.rows[j].name@ == office.name@ {
                    lemma_named_office_is_the_one(table, office.name@, j);
                    assert(table.rows[j].id != table.rows[at].id);
                }
                if j == at && table.rows[i].name@ == office.name@ {
                    lemma_named_office_is_the_one(table, office.name@, i);
                    assert(table.rows[i].id != table.rows[at].id);
                }
            }
        }
    }
}

/// Where the names of a table are apart, a search by name finds the one row
/// that has the name.
pub proof fn lemma_named_office_is_the_one(table: OfficeTable, name: Seq<char>, i: int)
    requires
        table.names_unique(),
        0 <= i < table.rows.len(),
        table.rows[i].name@ == name,
    ensures
        table.by_name(name) == Some(table.rows[i]),
{
    assert forall|j: int| 0 <= j < i implies (#[trigger] table.rows[j]).name@ != name by {
        assert(table.rows[j].name@ != table.rows[i].name@);
    }
    crate::repository::office_repository::lemma_row_by_name(table, name, i);
}

/// Removing an office keeps the table well formed, and keeps the names of
/// its offices apart where they were apart.
pub proof fn law_remove_keeps_order(table: OfficeTable, id: i32)
    requires
        table.wf(),
    ensures
        table.remove(id).wf(),
        table.names_unique() ==> table.remove(id).names_unique(),
        !table.remove(id).has_id(id),
{
    let after = table.remove(id);
    if table.has_id(id) {
        let at = table.index_of(id);
        assert(table.rows[at].id == Some(id));
        assert forall|i: int| 0 <= i < after.rows.len() implies (#[trigger] after.rows[i])
            == table.rows[if i < at { i } else { i + 1 }] by {}
        assert forall|i: int, j: int| 0 <= i < j < after.rows.len() implies (
        #[trigger] after.rows[i]).id != (#[trigger] after.rows[j]).id by {
            assert(table.rows[if i < at { i } else { i + 1 }].id != table.rows[if j < at { j } else { j + 1 }].id);
        }
        assert forall|i: int| 0 <= i < after.rows.len() implies (#[trigger] after.rows[i]).id is Some
            && 1 <= after.rows[i].id->0 < after.next_id by {
            assert(table.rows[if i < at { i } else { i + 1 }].id is Some);
        }
        if table.names_unique() {
            assert forall|i: int, j: int| 0 <= i < j < after.rows.len() implies (
            #[trigger] after.rows[i]).name@ != (#[trigger] after.rows[j]).name@ by {
                assert(table.rows[if i < at { i } else { i + 1 }].name@ != table.rows[if j < at { j } else { j + 1 }].name@);
            }
        }
        if after.has_id(id) {
            let k = after.index_of(id);
            assert(after.rows[k].id == Some(id));
            assert(table.rows[if k < at { k } else { k + 1 }].id != table.rows[at].id);
        }
    }
}

} // verus!
