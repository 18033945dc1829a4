//! Operations on employees: each one a short dialogue with the two tables,
//! in which the office is looked up and its employees are counted before an
//! employee is let in.

use crate::entity::employee::Employee;
use crate::entity::office::Office;
use crate::repository::employee_repository::{
    lemma_employee_by_id,
    lemma_in_office_len,
    lemma_in_office_push,
    lemma_in_office_remove,
    lemma_in_office_update,
    lemma_table_stays_wf,
    EmployeeRepository,
    EmployeeTable,
};
use crate::repository::office_repository::{OfficeRepository, OfficeTable};
use crate::repository::StorageError;
use crate::service::{unexpected, ServiceError, Stage};
use crate::utils::Validate;
use vstd::prelude::*;

verus! {

/// What a caller can ask for.
#[derive(Debug, PartialEq, Eq)]
pub enum EmployeeRequest {
    /// Store a new employee.
    Add(Employee),
    /// Look an employee up by identity.
    Find(i32),
    /// List all employees.
    ListAll,
    /// List the employees of the office of this identity.
    ListByOffice(i32),
    /// Give the employee of this identity new fields, the office among them.
    Update(i32, Employee),
    /// Take the employee of this identity out.
    Remove(i32),
}

/// What an operation asks of the tables.
#[derive(Debug, PartialEq, Eq)]
pub enum EmployeeQuery {
    /// The office of this identity.
    OfficeById(i32),
    /// The number of employees of the office of this identity.
    Count(i32),
    /// The employee of this identity.
    ById(i32),
    /// All employees.
    All,
    /// The employees of the office of this identity.
    ByOffice(i32),
    /// Store this employee.
    Create(Employee),
    /// Give the row of this identity the fields of this employee.
    Update(i32, Employee),
    /// Take the row of this identity out.
    Delete(i32),
}

/// What the tables answer.
#[derive(Debug, PartialEq, Eq)]
pub enum EmployeeReply {
    /// The office that was looked up, if it is there.
    Office(Option<Office>),
    /// A number of employees.
    Count(i64),
    /// One employee, or none: what was looked up, stored or changed.
    Row(Option<Employee>),
    /// Employees, in the order of the table.
    Rows(Vec<Employee>),
    /// The number of rows taken out.
    Removed(u64),
    /// Storage could not do what was asked.
    Failed(StorageError),
}

/// An answer of the tables by its content.
pub enum EmployeeReplyView {
    Office(Option<Office>),
    Count(i64),
    Row(Option<Employee>),
    Rows(Seq<Employee>),
    Removed(u64),
    Failed(StorageError),
}

impl View for EmployeeReply {
    type V = EmployeeReplyView;

    open spec fn view(&self) -> EmployeeReplyView {
        match *self {
            EmployeeReply::Office(office) => EmployeeReplyView::Office(office),
            EmployeeReply::Count(count) => EmployeeReplyView::Count(count),
            EmployeeReply::Row(row) => EmployeeReplyView::Row(row),
            EmployeeReply::Rows(rows) => EmployeeReplyView::Rows(rows@),
            EmployeeReply::Removed(count) => EmployeeReplyView::Removed(count),
            EmployeeReply::Failed(error) => EmployeeReplyView::Failed(error),
        }
    }
}

/// What an operation hands back when it succeeds.
#[derive(Debug, PartialEq, Eq)]
pub enum EmployeeOutcome {
    /// The employee as stored or as changed.
    One(Employee),
    /// The employee that was looked up, if it is there.
    Lookup(Option<Employee>),
    /// The employees that were asked for.
    Many(Vec<Employee>),
    /// Whether a row was taken out.
    Removed(bool),
}

/// The success of an operation by its content.
pub enum EmployeeOutcomeView {
    One(Employee),
    Lookup(Option<Employee>),
    Many(Seq<Employee>),
    Removed(bool),
}

impl View for EmployeeOutcome {
    type V = EmployeeOutcomeView;

    open spec fn view(&self) -> EmployeeOutcomeView {
        match *self {
            EmployeeOutcome::One(employee) => EmployeeOutcomeView::One(employee),
            EmployeeOutcome::Lookup(found) => EmployeeOutcomeView::Lookup(found),
            EmployeeOutcome::Many(employees) => EmployeeOutcomeView::Many(employees@),
            EmployeeOutcome::Removed(removed) => EmployeeOutcomeView::Removed(removed),
        }
    }
}

/// The result of an operation by its content.
pub open spec fn result_view(result: Result<EmployeeOutcome, ServiceError>) -> Result<
    EmployeeOutcomeView,
    ServiceError,
> {
    match result {
        Ok(outcome) => Ok(outcome@),
        Err(error) => Err(error),
    }
}

/// What an operation does next.
#[derive(Debug, PartialEq, Eq)]
pub enum EmployeeStep {
    /// It asks the tables, and goes on with the answer.
    Ask(EmployeeQuery),
    /// It is done, with this result.
    Done(Result<EmployeeOutcome, ServiceError>),
}

/// The next step of an operation by its content.
pub enum EmployeeStepView {
    Ask(EmployeeQuery),
    Done(Result<EmployeeOutcomeView, ServiceError>),
}

impl View for EmployeeStep {
    type V = EmployeeStepView;

    open spec fn view(&self) -> EmployeeStepView {
        match *self {
            EmployeeStep::Ask(query) => EmployeeStepView::Ask(query),
            EmployeeStep::Done(result) => EmployeeStepView::Done(result_view(result)),
        }
    }
}

/// An operation under way: what was asked for, how far it has come, and the
/// capacity of the office, once the office has been looked up (zero before).
#[derive(Debug, PartialEq, Eq)]
pub struct EmployeeSession {
    pub request: EmployeeRequest,
    pub stage: Stage,
    pub capacity: i32,
}

impl EmployeeSession {
    /// The session is over, with `result`.
    pub open spec fn close(self, result: Result<EmployeeOutcomeView, ServiceError>) -> (
        EmployeeSession,
        EmployeeStepView,
    ) {
        (
            EmployeeSession { request: self.request, stage: Stage::Closed, capacity: self.capacity },
            EmployeeStepView::Done(result),
        )
    }

    /// The session goes on to `stage` and puts `query`.
    pub open spec fn ask(self, stage: Stage, query: EmployeeQuery) -> (
        EmployeeSession,
        EmployeeStepView,
    ) {
        (
            EmployeeSession { request: self.request, stage, capacity: self.capacity },
            EmployeeStepView::Ask(query),
        )
    }

    /// The session has learnt the capacity of the office.
    pub open spec fn knowing(self, capacity: i32) -> EmployeeSession {
        EmployeeSession { request: self.request, stage: self.stage, capacity }
    }

    /// How an operation starts. An employee that is to be stored or changed
    /// is validated first, and the office is then looked up; a list by office
    /// looks the office up as well; the other operations put their one
    /// question at once.
    pub open spec fn start(request: EmployeeRequest) -> (EmployeeSession, EmployeeStepView) {
        let fresh = EmployeeSession { request, stage: Stage::Checking, capacity: 0 };
        match request {
            EmployeeRequest::Add(employee) | EmployeeRequest::Update(_, employee) =>
                match employee.violation() {
                    Some(reason) => fresh.close(Err(ServiceError::ValidationFailed(reason))),
                    None => fresh.ask(Stage::Checking, EmployeeQuery::OfficeById(employee.office_id)),
                },
            EmployeeRequest::ListByOffice(office_id) => fresh.ask(
                Stage::Checking,
                EmployeeQuery::OfficeById(office_id),
            ),
            EmployeeRequest::Find(id) => fresh.ask(Stage::Committing, EmployeeQuery::ById(id)),
            EmployeeRequest::ListAll => fresh.ask(Stage::Committing, EmployeeQuery::All),
            EmployeeRequest::Remove(id) => fresh.ask(Stage::Committing, EmployeeQuery::Delete(id)),
        }
    }

    /// How an operation goes on when the tables have answered.
    ///
    /// After the question for the office: `OfficeNotFound` where it is not
    /// there. Then a new employee has the office counted; an employee that is
    /// to be changed is looked up first, is `NotFound` where it is not there,
    /// and has the office counted only where it moves to another office.
    /// After the count: `OfficeAtCapacity`, with the count and the capacity,
    /// where the count has reached the capacity; else the write is put.
    /// After the last question the answer is the result; a change that found
    /// no row is `NotFound`. A failure of storage ends the operation with
    /// that failure, and so does an answer that does not fit the question.
    pub open spec fn next(self, reply: EmployeeReplyView) -> (EmployeeSession, EmployeeStepView) {
        match self.stage {
            Stage::Checking => match (self.request, reply) {
                (_, EmployeeReplyView::Failed(error)) => self.close(
                    Err(ServiceError::StorageUnavailable(error)),
                ),
                (EmployeeRequest::Add(employee), EmployeeReplyView::Office(found)) => match found {
                    None => self.close(Err(ServiceError::OfficeNotFound)),
                    Some(office) => self.knowing(office.max_occupancy).ask(
                        Stage::Counting,
                        EmployeeQuery::Count(employee.office_id),
                    ),
                },
                (EmployeeRequest::Update(id, _), EmployeeReplyView::Office(found)) => match found {
                    None => self.close(Err(ServiceError::OfficeNotFound)),
                    Some(office) => self.knowing(office.max_occupancy).ask(
                        Stage::Locating,
                        EmployeeQuery::ById(id),
                    ),
                },
                (EmployeeRequest::ListByOffice(office_id), EmployeeReplyView::Office(found)) =>
                    match found {
                        None => self.close(Err(ServiceError::OfficeNotFound)),
                        Some(_) => self.ask(Stage::Committing, EmployeeQuery::ByOffice(office_id)),
                    },
                _ => self.close(Err(unexpected())),
            },
            Stage::Locating => match (self.request, reply) {
                (_, EmployeeReplyView::Failed(error)) => self.close(
                    Err(ServiceError::StorageUnavailable(error)),
                ),
                (EmployeeRequest::Update(id, employee), EmployeeReplyView::Row(found)) => match found {
                    None => self.close(Err(ServiceError::NotFound)),
                    Some(current) => if current.office_id == employee.office_id {
                        self.ask(Stage::Committing, EmployeeQuery::Update(id, employee))
                    } else {
                        self.ask(Stage::Counting, EmployeeQuery::Count(employee.office_id))
                    },
                },
                _ => self.close(Err(unexpected())),
            },
            Stage::Counting => match (self.request, reply) {
                (_, EmployeeReplyView::Failed(error)) => self.close(
                    Err(ServiceError::StorageUnavailable(error)),
                ),
                (EmployeeRequest::Add(employee), EmployeeReplyView::Count(count)) => if count
                    >= self.capacity {
                    self.close(Err(ServiceError::OfficeAtCapacity(count, self.capacity)))
                } else {
                    self.ask(Stage::Committing, EmployeeQuery::Create(employee))
                },
                (EmployeeRequest::Update(id, employee), EmployeeReplyView::Count(count)) => if count
                    >= self.capacity {
                    self.close(Err(ServiceError::OfficeAtCapacity(count, self.capacity)))
                } else {
                    self.ask(Stage::Committing, EmployeeQuery::Update(id, employee))
                },
                _ => self.close(Err(unexpected())),
            },
            Stage::Committing => match (self.request, reply) {
                (
                    EmployeeRequest::Update(_, _),
                    EmployeeReplyView::Failed(StorageError::RowNotFound),
                ) => self.close(Err(ServiceError::NotFound)),
                (_, EmployeeReplyView::Failed(error)) => self.close(
                    Err(ServiceError::StorageUnavailable(error)),
                ),
                (EmployeeRequest::Add(_), EmployeeReplyView::Row(Some(employee))) => self.close(
                    Ok(EmployeeOutcomeView::One(employee)),
                ),
                (EmployeeRequest::Update(_, _), EmployeeReplyView::Row(Some(employee))) => self.close(
                    Ok(EmployeeOutcomeView::One(employee)),
                ),
                (EmployeeRequest::Find(_), EmployeeReplyView::Row(found)) => self.close(
                    Ok(EmployeeOutcomeView::Lookup(found)),
                ),
                (EmployeeRequest::ListAll, EmployeeReplyView::Rows(employees)) => self.close(
                    Ok(EmployeeOutcomeView::Many(employees)),
                ),
                (EmployeeRequest::ListByOffice(_), EmployeeReplyView::Rows(employees)) => self.close(
                    Ok(EmployeeOutcomeView::Many(employees)),
                ),
                (EmployeeRequest::Remove(_), EmployeeReplyView::Removed(count)) => self.close(
                    Ok(EmployeeOutcomeView::Removed(count > 0)),
                ),
                _ => self.close(Err(unexpected())),
            },
            Stage::Closed => self.close(Err(unexpected())),
        }
    }

    /// Starts an operation: the session, and its first step.
    pub fn begin(request: EmployeeRequest) -> (r: (EmployeeSession, EmployeeStep))
        ensures
            (r.0, r.1@) == EmployeeSession::start(request),
    {
        let (stage, step) = match &request {
            EmployeeRequest::Add(employee) => match employee.validate() {
                Err(reason) => (
                    Stage::Closed,
                    EmployeeStep::Done(Err(ServiceError::ValidationFailed(reason))),
                ),
                Ok(_) => (
                    Stage::Checking,
                    EmployeeStep::Ask(EmployeeQuery::OfficeById(employee.office_id)),
                ),
            },
            EmployeeRequest::Update(_, employee) => match employee.validate() {
                Err(reason) => (
                    Stage::Closed,
                    EmployeeStep::Done(Err(ServiceError::ValidationFailed(reason))),
                ),
                Ok(_) => (
                    Stage::Checking,
                    EmployeeStep::Ask(EmployeeQuery::OfficeById(employee.office_id)),
                ),
            },
            EmployeeRequest::ListByOffice(office_id) => (
                Stage::Checking,
                EmployeeStep::Ask(EmployeeQuery::OfficeById(*office_id)),
            ),
            EmployeeRequest::Find(id) => (
                Stage::Committing,
                EmployeeStep::Ask(EmployeeQuery::ById(*id)),
            ),
            EmployeeRequest::ListAll => (Stage::Committing, EmployeeStep::Ask(EmployeeQuery::All)),
            EmployeeRequest::Remove(id) => (
                Stage::Committing,
                EmployeeStep::Ask(EmployeeQuery::Delete(*id)),
            ),
        };
        (EmployeeSession { request, stage, capacity: 0 }, step)
    }

    /// Goes on with the answer of the tables: the session, and its next step.
    pub fn resume(self, reply: EmployeeReply) -> (r: (EmployeeSession, EmployeeStep))
        ensures
            (r.0, r.1@) == self.next(reply@),
            r.1 is Ask ==> r.0.stage.rank() < self.stage.rank(),
            r.1 is Done ==> r.0.stage is Closed,
    {
        let failed = EmployeeStep::Done(
            Err(ServiceError::StorageUnavailable(StorageError::UnexpectedReply)),
        );
        let mut capacity = self.capacity;
        let (stage, step) = match self.stage {
            Stage::Checking => match (&self.request, reply) {
                (_, EmployeeReply::Failed(error)) => (
                    Stage::Closed,
                    EmployeeStep::Done(Err(ServiceError::StorageUnavailable(error))),
                ),
                (EmployeeRequest::Add(employee), EmployeeReply::Office(found)) => match found {
                    None => (Stage::Closed, EmployeeStep::Done(Err(ServiceError::OfficeNotFound))),
                    Some(office) => {
                        capacity = office.max_occupancy;
                        (Stage::Counting, EmployeeStep::Ask(EmployeeQuery::Count(employee.office_id)))
                    },
                },
                (EmployeeRequest::Update(id, _), EmployeeReply::Office(found)) => match found {
                    None => (Stage::Closed, EmployeeStep::Done(Err(ServiceError::OfficeNotFound))),
                    Some(office) => {
                        capacity = office.max_occupancy;
                        (Stage::Locating, EmployeeStep::Ask(EmployeeQuery::ById(*id)))
                    },
                },
                (EmployeeRequest::ListByOffice(office_id), EmployeeReply::Office(found)) =>
                    match found {
                        None => (
                            Stage::Closed,
                            EmployeeStep::Done(Err(ServiceError::OfficeNotFound)),
                        ),
                        Some(_) => (
                            Stage::Committing,
                            EmployeeStep::Ask(EmployeeQuery::ByOffice(*office_id)),
                        ),
                    },
                _ => (Stage::Closed, failed),
            },
            Stage::Locating => match (&self.request, reply) {
                (_, EmployeeReply::Failed(error)) => (
                    Stage::Closed,
                    EmployeeStep::Done(Err(ServiceError::StorageUnavailable(error))),
                ),
                (EmployeeRequest::Update(id, employee), EmployeeReply::Row(found)) => match found {
                    None => (Stage::Closed, EmployeeStep::Done(Err(ServiceError::NotFound))),
                    Some(current) => {
                        if current.office_id == employee.office_id {
                            (
                                Stage::Committing,
                                EmployeeStep::Ask(EmployeeQuery::Update(*id, employee.clone())),
                            )
                        } else {
                            (
                                Stage::Counting,
                                EmployeeStep::Ask(EmployeeQuery::Count(employee.office_id)),
                            )
                        }
                    },
                },
                _ => (Stage::Closed, failed),
            },
            Stage::Counting => match (&self.request, reply) {
                (_, EmployeeReply::Failed(error)) => (
                    Stage::Closed,
                    EmployeeStep::Done(Err(ServiceError::StorageUnavailable(error))),
                ),
                (EmployeeRequest::Add(employee), EmployeeReply::Count(count)) => {
                    if count >= capacity as i64 {
                        (
                            Stage::Closed,
                            EmployeeStep::Done(Err(ServiceError::OfficeAtCapacity(count, capacity))),
                        )
                    } else {
                        (
                            Stage::Committing,
                            EmployeeStep::Ask(EmployeeQuery::Create(employee.clone())),
                        )
                    }
                },
                (EmployeeRequest::Update(id, employee), EmployeeReply::Count(count)) => {
                    if count >= capacity as i64 {
                        (
                            Stage::Closed,
                            EmployeeStep::Done(Err(ServiceError::OfficeAtCapacity(count, capacity))),
                        )
                    } else {
                        (
                            Stage::Committing,
                            EmployeeStep::Ask(EmployeeQuery::Update(*id, employee.clone())),
                        )
                    }
                },
                _ => (Stage::Closed, failed),
            },
            Stage::Committing => match (&self.request, reply) {
                (EmployeeRequest::Update(_, _), EmployeeReply::Failed(StorageError::RowNotFound)) => (
                    Stage::Closed,
                    EmployeeStep::Done(Err(ServiceError::NotFound)),
                ),
                (_, EmployeeReply::Failed(error)) => (
                    Stage::Closed,
                    EmployeeStep::Done(Err(ServiceError::StorageUnavailable(error))),
                ),
                (EmployeeRequest::Add(_), EmployeeReply::Row(Some(employee))) => (
                    Stage::Closed,
                    EmployeeStep::Done(Ok(EmployeeOutcome::One(employee))),
                ),
                (EmployeeRequest::Update(_, _), EmployeeReply::Row(Some(employee))) => (
                    Stage::Closed,
                    EmployeeStep::Done(Ok(EmployeeOutcome::One(employee))),
                ),
                (EmployeeRequest::Find(_), EmployeeReply::Row(found)) => (
                    Stage::Closed,
                    EmployeeStep::Done(Ok(EmployeeOutcome::Lookup(found))),
                ),
                (EmployeeRequest::ListAll, EmployeeReply::Rows(employees)) => (
                    Stage::Closed,
                    EmployeeStep::Done(Ok(EmployeeOutcome::Many(employees))),
                ),
                (EmployeeRequest::ListByOffice(_), EmployeeReply::Rows(employees)) => (
                    Stage::Closed,
                    EmployeeStep::Done(Ok(EmployeeOutcome::Many(employees))),
                ),
                (EmployeeRequest::Remove(_), EmployeeReply::Removed(count)) => (
                    Stage::Closed,
                    EmployeeStep::Done(Ok(EmployeeOutcome::Removed(count > 0))),
                ),
                _ => (Stage::Closed, failed),
            },
            Stage::Closed => (Stage::Closed, failed),
        };
        (EmployeeSession { request: self.request, stage, capacity }, step)
    }
}


/// The employee of a result that holds one employee. A success of another kind
/// is an answer that does not fit, and an error stays what it is.
pub fn expect_employee(result: Result<EmployeeOutcome, ServiceError>) -> (r: Result<
    Employee,
    ServiceError,
>)
    ensures
        r == (match result {
            Ok(EmployeeOutcome::One(employee)) => Ok::<Employee, ServiceError>(employee),
            Ok(_) => Err(unexpected()),
            Err(error) => Err(error),
        }),
{
    match result {
        Ok(EmployeeOutcome::One(employee)) => Ok(employee),
        Ok(_) => Err(ServiceError::StorageUnavailable(StorageError::UnexpectedReply)),
        Err(error) => Err(error),
    }
}

/// What was found, of a result that holds a lookup. A success of another
/// kind is an answer that does not fit, and an error stays what it is.
pub fn expect_lookup(result: Result<EmployeeOutcome, ServiceError>) -> (r: Result<
    Option<Employee>,
    ServiceError,
>)
    ensures
        r == (match result {
            Ok(EmployeeOutcome::Lookup(found)) => Ok::<Option<Employee>, ServiceError>(found),
            Ok(_) => Err(unexpected()),
            Err(error) => Err(error),
        }),
{
    match result {
        Ok(EmployeeOutcome::Lookup(found)) => Ok(found),
        Ok(_) => Err(ServiceError::StorageUnavailable(StorageError::UnexpectedReply)),
        Err(error) => Err(error),
    }
}

/// The employees of a result that holds a list. A success of another kind is
/// an answer that does not fit, and an error stays what it is.
pub fn expect_employees(result: Result<EmployeeOutcome, ServiceError>) -> (r: Result<
    Vec<Employee>,
    ServiceError,
>)
    ensures
        r == (match result {
            Ok(EmployeeOutcome::Many(employees)) => Ok::<Vec<Employee>, ServiceError>(employees),
            Ok(_) => Err(unexpected()),
            Err(error) => Err(error),
        }),
{
    match result {
        Ok(EmployeeOutcome::Many(employees)) => Ok(employees),
        Ok(_) => Err(ServiceError::StorageUnavailable(StorageError::UnexpectedReply)),
        Err(error) => Err(error),
    }
}

/// Whether a row was taken out, of a result that says so. A success of
/// another kind is an answer that does not fit, and an error stays what it
/// is.
pub fn expect_removed(result: Result<EmployeeOutcome, ServiceError>) -> (r: Result<
    bool,
    ServiceError,
>)
    ensures
        r == (match result {
            Ok(EmployeeOutcome::Removed(removed)) => Ok::<bool, ServiceError>(removed),
            Ok(_) => Err(unexpected()),
            Err(error) => Err(error),
        }),
{
    match result {
        Ok(EmployeeOutcome::Removed(removed)) => Ok(removed),
        Ok(_) => Err(ServiceError::StorageUnavailable(StorageError::UnexpectedReply)),
        Err(error) => Err(error),
    }
}

/// What the two tables hold together.
pub struct Books {
    pub offices: OfficeTable,
    pub employees: EmployeeTable,
}

impl Books {
    /// Both tables are well formed.
    pub open spec fn wf(self) -> bool {
        self.offices.wf() && self.employees.wf()
    }

    /// The same offices, with other employees.
    pub open spec fn with_employees(self, employees: EmployeeTable) -> Books {
        Books { offices: self.offices, employees }
    }

    /// Every employee works in an office that is there.
    pub open spec fn references_hold(self) -> bool {
        forall|i: int|
            0 <= i < self.employees.rows.len() ==> self.offices.has_id(
                (#[trigger] self.employees.rows[i]).office_id,
            )
    }

    /// The office `office_id` has no more employees than it has room for.
    pub open spec fn within_capacity(self, office_id: i32) -> bool {
        self.offices.by_id(office_id) matches Some(office) ==> self.employees.occupants(office_id)
            <= office.max_occupancy
    }
}

/// What the tables answer to a question, and what they hold afterwards.
pub open spec fn respond(books: Books, query: EmployeeQuery) -> (Books, EmployeeReplyView) {
    let employees = books.employees;
    match query {
        EmployeeQuery::OfficeById(id) => (books, EmployeeReplyView::Office(books.offices.by_id(id))),
        EmployeeQuery::Count(office_id) => (
            books,
            EmployeeReplyView::Count(employees.occupants(office_id) as i64),
        ),
        EmployeeQuery::ById(id) => (books, EmployeeReplyView::Row(employees.by_id(id))),
        EmployeeQuery::All => (books, EmployeeReplyView::Rows(employees.rows)),
        EmployeeQuery::ByOffice(office_id) => (
            books,
            EmployeeReplyView::Rows(employees.of_office(office_id)),
        ),
        EmployeeQuery::Create(employee) => if employees.has_room() {
            (
                books.with_employees(employees.insert(employee)),
                EmployeeReplyView::Row(Some(employees.stored(employee))),
            )
        } else {
            (books, EmployeeReplyView::Failed(StorageError::IdentitiesExhausted))
        },
        EmployeeQuery::Update(id, employee) => if employees.has_id(id) {
            (
                books.with_employees(employees.update(id, employee)),
                EmployeeReplyView::Row(Some(EmployeeTable::replaced(id, employee))),
            )
        } else {
            (books, EmployeeReplyView::Failed(StorageError::RowNotFound))
        },
        EmployeeQuery::Delete(id) => (
            books.with_employees(employees.remove(id)),
            EmployeeReplyView::Removed(
                if employees.has_id(id) {
                    1
                } else {
                    0
                },
            ),
        ),
    }
}

/// Whether a question leaves the tables as they are.
pub open spec fn reads_only(query: EmployeeQuery) -> bool {
    !(query is Create || query is Update || query is Delete)
}

/// Where a session ends when its questions are put to `books` one after the
/// other: the tables afterwards, and the result.
pub open spec fn run(books: Books, session: EmployeeSession, step: EmployeeStepView) -> (
    Books,
    Result<EmployeeOutcomeView, ServiceError>,
)
    decreases session.stage.rank(),
{
    match step {
        EmployeeStepView::Done(result) => (books, result),
        EmployeeStepView::Ask(query) => if session.stage is Closed {
            (books, Err(unexpected()))
        } else {
            let answered = respond(books, query);
            let moved = session.next(answered.1);
            run(answered.0, moved.0, moved.1)
        },
    }
}

/// What an operation does to `books` from start to end, and its result.
pub open spec fn serve(books: Books, request: EmployeeRequest) -> (
    Books,
    Result<EmployeeOutcomeView, ServiceError>,
) {
    run(books, EmployeeSession::start(request).0, EmployeeSession::start(request).1)
}

/// The result of adding `employee`: refused where the employee breaks a rule;
/// `OfficeNotFound` where the office is not there; `OfficeAtCapacity`, with
/// the number of employees in the office and its capacity, where the office
/// is full; a failure where the table has no identity left; else the
/// employee as stored.
pub open spec fn hired(books: Books, employee: Employee) -> Result<Employee, ServiceError> {
    let office = books.offices.by_id(employee.office_id);
    let occupants = books.employees.occupants(employee.office_id);
    if employee.violation() is Some {
        Err(ServiceError::ValidationFailed(employee.violation()->0))
    } else if office is None {
        Err(ServiceError::OfficeNotFound)
    } else if occupants >= office->0.max_occupancy {
        Err(ServiceError::OfficeAtCapacity(occupants as i64, office->0.max_occupancy))
    } else if !books.employees.has_room() {
        Err(ServiceError::StorageUnavailable(StorageError::IdentitiesExhausted))
    } else {
        Ok(books.employees.stored(employee))
    }
}

/// The tables after `employee` was to be added: with the employee where that
/// succeeded, unchanged where it did not.
pub open spec fn after_hire(books: Books, employee: Employee) -> Books {
    if hired(books, employee) is Ok {
        books.with_employees(books.employees.insert(employee))
    } else {
        books
    }
}

/// The result of giving the employee `id` the fields of `employee`: refused
/// where `employee` breaks a rule; `OfficeNotFound` where the new office is
/// not there; `NotFound` where no employee has the identity `id`;
/// `OfficeAtCapacity` where the employee moves to another office and that
/// office is full; else the employee as it now stands. An employee that
/// stays in its office is not counted against the capacity again.
pub open spec fn moved(books: Books, id: i32, employee: Employee) -> Result<Employee, ServiceError> {
    let office = books.offices.by_id(employee.office_id);
    let current = books.employees.by_id(id);
    let occupants = books.employees.occupants(employee.office_id);
    if employee.violation() is Some {
        Err(ServiceError::ValidationFailed(employee.violation()->0))
    } else if office is None {
        Err(ServiceError::OfficeNotFound)
    } else if current is None {
        Err(ServiceError::NotFound)
    } else if current->0.office_id != employee.office_id && occupants >= office->0.max_occupancy {
        Err(ServiceError::OfficeAtCapacity(occupants as i64, office->0.max_occupancy))
    } else {
        Ok(EmployeeTable::replaced(id, employee))
    }
}

/// The tables after the employee `id` was to be changed: changed where that
/// succeeded, unchanged where it did not.
pub open spec fn after_move(books: Books, id: i32, employee: Employee) -> Books {
    if moved(books, id, employee) is Ok {
        books.with_employees(books.employees.update(id, employee))
    } else {
        books
    }
}

/// The result of listing the employees of the office `office_id`:
/// `OfficeNotFound` where the office is not there, else its employees, of
/// which there may be none.
pub open spec fn listed(books: Books, office_id: i32) -> Result<Seq<Employee>, ServiceError> {
    if books.offices.by_id(office_id) is None {
        Err(ServiceError::OfficeNotFound)
    } else {
        Ok(books.employees.of_office(office_id))
    }
}

/// In well-formed tables the number of employees of an office fits the
/// integers that carry it.
pub proof fn lemma_count_fits(books: Books, office_id: i32)
    requires
        books.wf(),
    ensures
        books.employees.occupants(office_id) < i32::MAX,
        books.employees.occupants(office_id) as i64 == books.employees.occupants(office_id),
{
    lemma_in_office_len(books.employees.rows, office_id);
}

/// Adding an employee, question by question, comes to what `hired` and
/// `after_hire` say.
pub proof fn lemma_serve_hire(books: Books, employee: Employee)
    requires
        books.wf(),
    ensures
        serve(books, EmployeeRequest::Add(employee)) == (
            after_hire(books, employee),
            match hired(books, employee) {
                Ok(created) => Ok::<EmployeeOutcomeView, ServiceError>(
                    EmployeeOutcomeView::One(created),
                ),
                Err(error) => Err(error),
            },
        ),
{
    reveal_with_fuel(run, 5);
    lemma_count_fits(books, employee.office_id);
}

/// Changing an employee, question by question, comes to what `moved` and
/// `after_move` say.
pub proof fn lemma_serve_move(books: Books, id: i32, employee: Employee)
    requires
        books.wf(),
    ensures
        serve(books, EmployeeRequest::Update(id, employee)) == (
            after_move(books, id, employee),
            match moved(books, id, employee) {
                Ok(changed) => Ok::<EmployeeOutcomeView, ServiceError>(
                    EmployeeOutcomeView::One(changed),
                ),
                Err(error) => Err(error),
            },
        ),
{
    reveal_with_fuel(run, 5);
    lemma_count_fits(books, employee.office_id);
    if books.employees.has_id(id) {
        let at = books.employees.index_of(id);
        assert(books.employees.rows[at].id == Some(id));
    }
}

/// Looking an employee up comes to a search of the table by identity, and
/// leaves the tables as they are.
pub proof fn lemma_serve_find(books: Books, id: i32)
    ensures
        serve(books, EmployeeRequest::Find(id)) == (
            books,
            Ok::<EmployeeOutcomeView, ServiceError>(
                EmployeeOutcomeView::Lookup(books.employees.by_id(id)),
            ),
        ),
{
    reveal_with_fuel(run, 5);
}

/// Listing the employees comes to the rows of the table, and leaves the
/// tables as they are.
pub proof fn lemma_serve_list(books: Books)
    ensures
        serve(books, EmployeeRequest::ListAll) == (
            books,
            Ok::<EmployeeOutcomeView, ServiceError>(EmployeeOutcomeView::Many(books.employees.rows)),
        ),
{
    reveal_with_fuel(run, 5);
}

/// Listing the employees of an office comes to what `listed` says, and
/// leaves the tables as they are.
pub proof fn lemma_serve_list_by_office(books: Books, office_id: i32)
    ensures
        serve(books, EmployeeRequest::ListByOffice(office_id)) == (
            books,
            match listed(books, office_id) {
                Ok(employees) => Ok::<EmployeeOutcomeView, ServiceError>(
                    EmployeeOutcomeView::Many(employees),
                ),
                Err(error) => Err(error),
            },
        ),
{
    reveal_with_fuel(run, 5);
}

/// Removing an employee takes its row out, and says whether there was one.
pub proof fn lemma_serve_remove(books: Books, id: i32)
    ensures
        serve(books, EmployeeRequest::Remove(id)) == (
            books.with_employees(books.employees.remove(id)),
            Ok::<EmployeeOutcomeView, ServiceError>(
                EmployeeOutcomeView::Removed(books.employees.has_id(id)),
            ),
        ),
{
    reveal_with_fuel(run, 5);
}

/// The operations on employees, over the two tables in memory.
pub struct EmployeeService {
    repo: EmployeeRepository,
    office_repo: OfficeRepository,
}

impl View for EmployeeService {
    type V = Books;

    closed spec fn view(&self) -> Books {
        Books { offices: self.office_repo@, employees: self.repo@ }
    }
}

impl EmployeeService {
    /// The service over the table of employees `repo` and the table of
    /// offices `office_repo`.
    pub fn new(repo: EmployeeRepository, office_repo: OfficeRepository) -> (service:
        EmployeeService)
        ensures
            service@ == (Books { offices: office_repo@, employees: repo@ }),
            service@.wf(),
    {
        proof {
            use_type_invariant(&repo);
            use_type_invariant(&office_repo);
        }
        EmployeeService { repo, office_repo }
    }

    /// The two tables, given back: employees, then offices.
    pub fn into_repositories(self) -> (repos: (EmployeeRepository, OfficeRepository))
        ensures
            repos.0@ == self@.employees,
            repos.1@ == self@.offices,
    {
        (self.repo, self.office_repo)
    }

    /// Puts a question that changes nothing to the tables.
    fn peek(&self, query: EmployeeQuery) -> (reply: EmployeeReply)
        requires
            reads_only(query),
        ensures
            self@.wf(),
            (self@, reply@) == respond(self@, query),
    {
        proof {
            use_type_invariant(&self.repo);
            use_type_invariant(&self.office_repo);
        }
        match query {
            EmployeeQuery::OfficeById(id) => EmployeeReply::Office(
                self.office_repo.get_office_by_id(id),
            ),
            EmployeeQuery::Count(office_id) => EmployeeReply::Count(
                self.repo.current_employee_nr_by_office_id(office_id),
            ),
            EmployeeQuery::ById(id) => EmployeeReply::Row(self.repo.get_employee_by_id(id)),
            EmployeeQuery::ByOffice(office_id) => EmployeeReply::Rows(
                self.repo.get_employees_by_office_id(office_id),
            ),
            _ => EmployeeReply::Rows(self.repo.get_all_employees()),
        }
    }

    /// Puts a question to the tables and hands back the answer: what a session
    /// asks, one question at a time, when it is driven by hand.
    pub fn answer(&mut self, query: EmployeeQuery) -> (reply: EmployeeReply)
        ensures
            final(self)@.wf(),
            (final(self)@, reply@) == respond(old(self)@, query),
    {
        proof {
            use_type_invariant(&self.office_repo);
        }
        match query {
            EmployeeQuery::Create(employee) => match self.repo.create_employee(&employee) {
                Ok(created) => EmployeeReply::Row(Some(created)),
                Err(error) => EmployeeReply::Failed(error),
            },
            EmployeeQuery::Update(id, employee) => match self.repo.update_employee_by_id(
                id,
                &employee,
            ) {
                Ok(changed) => EmployeeReply::Row(Some(changed)),
                Err(error) => EmployeeReply::Failed(error),
            },
            EmployeeQuery::Delete(id) => EmployeeReply::Removed(self.repo.delete_employee(id)),
            _ => self.peek(query),
        }
    }

    /// Carries an operation that only reads through, from its first question
    /// to its result.
    fn consult(&self, request: EmployeeRequest) -> (r: Result<EmployeeOutcome, ServiceError>)
        requires
            request is Find || request is ListAll || request is ListByOffice,
        ensures
            self@.wf(),
            (self@, result_view(r)) == serve(self@, request),
    {
        proof {
            use_type_invariant(&self.repo);
            use_type_invariant(&self.office_repo);
        }
        let started = EmployeeSession::begin(request);
        let mut session = started.0;
        let mut step = started.1;
        loop
            invariant
                self@.wf(),
                run(self@, session, step@) == serve(self@, request),
                session.request is Find || session.request is ListAll || session.request
                    is ListByOffice,
                step matches EmployeeStep::Ask(query) ==> reads_only(query),
            decreases session.stage.rank(), (if step is Ask { 1nat } else { 0nat }),
        {
            match step {
                EmployeeStep::Done(result) => {
                    return result;
                },
                EmployeeStep::Ask(query) => {
                    if session.stage == Stage::Closed {
                        step = EmployeeStep::Done(
                            Err(ServiceError::StorageUnavailable(StorageError::UnexpectedReply)),
                        );
                    } else {
                        let reply = self.peek(query);
                        let moved = session.resume(reply);
                        session = moved.0;
                        step = moved.1;
                    }
                },
            }
        }
    }

    /// Carries an operation through, from its first question to its result.
    fn drive(&mut self, request: EmployeeRequest) -> (r: Result<EmployeeOutcome, ServiceError>)
        ensures
            final(self)@.wf(),
            (final(self)@, result_view(r)) == serve(old(self)@, request),
    {
        proof {
            use_type_invariant(&self.repo);
            use_type_invariant(&self.office_repo);
        }
        let started = EmployeeSession::begin(request);
        let mut session = started.0;
        let mut step = started.1;
        loop
            invariant
                self@.wf(),
                run(self@, session, step@) == serve(old(self)@, request),
            decreases session.stage.rank(), (if step is Ask { 1nat } else { 0nat }),
        {
            match step {
                EmployeeStep::Done(result) => {
                    return result;
                },
                EmployeeStep::Ask(query) => {
                    if session.stage == Stage::Closed {
                        step = EmployeeStep::Done(
                            Err(ServiceError::StorageUnavailable(StorageError::UnexpectedReply)),
                        );
                    } else {
                        let reply = self.answer(query);
                        let moved = session.resume(reply);
                        session = moved.0;
                        step = moved.1;
                    }
                },
            }
        }
    }

    /// Stores a new employee.
    ///
    /// The employee is validated first; then the office must be there; then
    /// the office must have room, by the number of employees it has now; then
    /// the employee is stored and returned with its identity. The tables are
    /// changed only where the result is `Ok`.
    pub fn add_employee(&mut self, employee: &Employee) -> (r: Result<Employee, ServiceError>)
        ensures
            final(self)@.wf(),
            r == hired(old(self)@, *employee),
            final(self)@ == after_hire(old(self)@, *employee),
    {
        proof {
            use_type_invariant(&self.repo);
            use_type_invariant(&self.office_repo);
            lemma_serve_hire(self@, *employee);
        }
        expect_employee(self.drive(EmployeeRequest::Add(employee.clone())))
    }

    /// The employee of identity `id`, or `None` where there is none. The
    /// tables in memory never fail, so the result is always `Ok`.
    pub fn find_employee_by_id(&self, id: i32) -> (r: Result<Option<Employee>, ServiceError>)
        ensures
            self@.wf(),
            r == Ok::<Option<Employee>, ServiceError>(self@.employees.by_id(id)),
    {
        proof {
            lemma_serve_find(self@, id);
        }
        expect_lookup(self.consult(EmployeeRequest::Find(id)))
    }

    /// All employees, in the order in which they were stored.
    pub fn list_all_employees(&self) -> (r: Result<Vec<Employee>, ServiceError>)
        ensures
            self@.wf(),
            r is Ok,
            r->Ok_0@ == self@.employees.rows,
    {
        proof {
            lemma_serve_list(self@);
        }
        expect_employees(self.consult(EmployeeRequest::ListAll))
    }

    /// The employees of the office `office_id`, in the order in which they
    /// were stored; `OfficeNotFound` where the office is not there.
    pub fn list_employees_by_office_id(&self, office_id: i32) -> (r: Result<
        Vec<Employee>,
        ServiceError,
    >)
        ensures
            self@.wf(),
            match listed(self@, office_id) {
                Ok(employees) => r is Ok && r->Ok_0@ == employees,
                Err(error) => r == Err::<Vec<Employee>, ServiceError>(error),
            },
    {
        proof {
            lemma_serve_list_by_office(self@, office_id);
        }
        expect_employees(self.consult(EmployeeRequest::ListByOffice(office_id)))
    }

    /// Gives the employee of identity `id` the fields of `employee`, the
    /// office among them.
    ///
    /// `employee` is validated first; then the new office must be there; then
    /// the employee `id` must be there; then, where the employee moves to
    /// another office, that office must have room. The tables are changed
    /// only where the result is `Ok`.
    pub fn update_employee(&mut self, id: i32, employee: &Employee) -> (r: Result<
        Employee,
        ServiceError,
    >)
        ensures
            final(self)@.wf(),
            r == moved(old(self)@, id, *employee),
            final(self)@ == after_move(old(self)@, id, *employee),
    {
        proof {
            use_type_invariant(&self.repo);
            use_type_invariant(&self.office_repo);
            lemma_serve_move(self@, id, *employee);
        }
        expect_employee(self.drive(EmployeeRequest::Update(id, employee.clone())))
    }

    /// Takes the employee of identity `id` out. `Ok(false)` where there is
    /// no such employee: that is no error.
    pub fn remove_employee(&mut self, id: i32) -> (r: Result<bool, ServiceError>)
        ensures
            final(self)@.wf(),
            r == Ok::<bool, ServiceError>(old(self)@.employees.has_id(id)),
            final(self)@ == old(self)@.with_employees(old(self)@.employees.remove(id)),
    {
        proof {
            lemma_serve_remove(self@, id);
        }
        expect_removed(self.drive(EmployeeRequest::Remove(id)))
    }
}


/// Where an office has room for exactly one more, and two valid employees
/// ask for it, the one that is served first is let in and the other is
/// refused with `OfficeAtCapacity`, which carries the count, now equal to the
/// capacity: exactly one comes through, whichever of the two is first. An
/// office of capacity one that has no employee is the plainest case.
pub proof fn law_last_place_goes_once(books: Books, first: Employee, second: Employee)
    requires
        books.wf(),
        first.violation() is None,
        second.violation() is None,
        first.office_id == second.office_id,
        books.offices.by_id(first.office_id) is Some,
        books.employees.occupants(first.office_id) + 1 == books.offices.by_id(
            first.office_id,
        )->0.max_occupancy,
        books.employees.has_room(),
    ensures
        hired(books, first) is Ok,
        hired(after_hire(books, first), second) == Err::<Employee, ServiceError>(
            ServiceError::OfficeAtCapacity(
                books.offices.by_id(first.office_id)->0.max_occupancy as i64,
                books.offices.by_id(first.office_id)->0.max_occupancy,
            ),
        ),
        after_hire(after_hire(books, first), second) == after_hire(books, first),
{
    law_hire_fills_office(books, first);
    lemma_count_fits(books, first.office_id);
}

/// An employee that was let in is the last of its office, which has one
/// employee more than before; the other offices have the employees they had;
/// and the office is still within its capacity where it was before. The
/// tables stay well formed.
pub proof fn law_hire_fills_office(books: Books, employee: Employee)
    requires
        books.wf(),
    ensures
        after_hire(books, employee).wf(),
        after_hire(books, employee).offices == books.offices,
        hired(books, employee) matches Ok(created) ==> {
            &&& created.id is Some
            &&& created.office_id == employee.office_id
            &&& after_hire(books, employee).employees.by_id(created.id->0) == Some(created)
            &&& after_hire(books, employee).employees.of_office(employee.office_id)
                == books.employees.of_office(employee.office_id).push(created)
            &&& after_hire(books, employee).within_capacity(employee.office_id)
        },
        forall|other: i32|
            other != employee.office_id || hired(books, employee) is Err ==> (
            #[trigger] after_hire(books, employee).employees.of_office(other))
                == books.employees.of_office(other),
{
    lemma_table_stays_wf(books.employees, 0, employee);
    if hired(books, employee) is Ok {
        let created = books.employees.stored(employee);
        let after = after_hire(books, employee);
        lemma_in_office_push(books.employees.rows, created, employee.office_id);
        lemma_employee_by_id(after.employees, books.employees.rows.len() as int);
        assert forall|other: i32| other != employee.office_id implies (
        #[trigger] after.employees.of_office(other)) == books.employees.of_office(other) by {
            lemma_in_office_push(books.employees.rows, created, other);
        }
    }
}

/// A change of an employee keeps every office within its capacity that was
/// within it before, and keeps the tables well formed.
pub proof fn law_move_keeps_capacity(books: Books, id: i32, employee: Employee, office_id: i32)
    requires
        books.wf(),
        books.within_capacity(office_id),
    ensures
        after_move(books, id, employee).wf(),
        after_move(books, id, employee).offices == books.offices,
        after_move(books, id, employee).within_capacity(office_id),
{
    lemma_table_stays_wf(books.employees, id, employee);
    if moved(books, id, employee) is Ok {
        let at = books.employees.index_of(id);
        assert(books.employees.rows[at].id == Some(id));
        lemma_in_office_update(
            books.employees.rows,
            at,
            EmployeeTable::replaced(id, employee),
            office_id,
        );
    }
}

/// Taking an employee out keeps every office within its capacity that was
/// within it before, keeps the tables well formed, and leaves no employee of
/// that identity.
pub proof fn law_remove_keeps_capacity(books: Books, id: i32, office_id: i32)
    requires
        books.wf(),
        books.within_capacity(office_id),
    ensures
        books.with_employees(books.employees.remove(id)).wf(),
        books.with_employees(books.employees.remove(id)).within_capacity(office_id),
        !books.employees.remove(id).has_id(id),
{
    let employee = arbitrary::<Employee>();
    lemma_table_stays_wf(books.employees, id, employee);
    if books.employees.has_id(id) {
        let at = books.employees.index_of(id);
        lemma_in_office_remove(books.employees.rows, at, office_id);
    }
}

/// Looking up or listing changes nothing, so asking again gives the same
/// answer.
pub proof fn law_reading_repeats(books: Books, request: EmployeeRequest)
    requires
        request is Find || request is ListAll || request is ListByOffice,
    ensures
        serve(books, request).0 == books,
        serve(serve(books, request).0, request).1 == serve(books, request).1,
{
    match request {
        EmployeeRequest::Find(id) => lemma_serve_find(books, id),
        EmployeeRequest::ListAll => lemma_serve_list(books),
        EmployeeRequest::ListByOffice(office_id) => lemma_serve_list_by_office(books, office_id),
        _ => {},
    }
}


/// Where every employee works in an office that is there, that is still so
/// after an employee was added, changed or taken out.
pub proof fn law_references_hold(books: Books, id: i32, employee: Employee)
    requires
        books.wf(),
        books.references_hold(),
    ensures
        after_hire(books, employee).references_hold(),
        after_move(books, id, employee).references_hold(),
        books.with_employees(books.employees.remove(id)).references_hold(),
{
    if hired(books, employee) is Ok {
        let after = after_hire(books, employee);
        assert forall|i: int| 0 <= i < after.employees.rows.len() implies after.offices.has_id(
            (#[trigger] after.employees.rows[i]).office_id,
        ) by {
            if i < books.employees.rows.len() {
                assert(after.employees.rows[i] == books.employees.rows[i]);
            }
        }
    }
    if moved(books, id, employee) is Ok {
        let after = after_move(books, id, employee);
        let at = books.employees.index_of(id);
        assert forall|i: int| 0 <= i < after.employees.rows.len() implies after.offices.has_id(
            (#[trigger] after.employees.rows[i]).office_id,
        ) by {
            if i != at {
                assert(after.employees.rows[i] == books.employees.rows[i]);
            }
        }
    }
    if books.employees.has_id(id) {
        let after = books.with_employees(books.employees.remove(id));
        let at = books.employees.index_of(id);
        assert forall|i: int| 0 <= i < after.employees.rows.len() implies after.offices.has_id(
            (#[trigger] after.employees.rows[i]).office_id,
        ) by {
            assert(after.employees.rows[i] == books.employees.rows[if i < at { i } else { i + 1 }]);
        }
    }
}

} // verus!
