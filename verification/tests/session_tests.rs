use corp_data_api::entity::employee::Employee;
use corp_data_api::entity::office::Office;
use corp_data_api::repository::StorageError;
use corp_data_api::service::employee_service::{
    EmployeeOutcome, EmployeeQuery, EmployeeReply, EmployeeRequest, EmployeeSession, EmployeeStep,
};
use corp_data_api::service::office_service::{
    OfficeOutcome, OfficeQuery, OfficeReply, OfficeRequest, OfficeSession, OfficeStep,
};
use corp_data_api::repository::employee_repository::EmployeeRepository;
use corp_data_api::repository::office_repository::OfficeRepository;
use corp_data_api::service::employee_service::EmployeeService;
use corp_data_api::service::office_service::OfficeService;
use corp_data_api::service::{ServiceError, Stage};
use corp_data_api::utils::calendar::BirthDate;
use corp_data_api::utils::ValidationError;

fn office(name: &str, max_occupancy: i32) -> Office {
    Office { id: None, name: name.into(), max_occupancy }
}

fn stored(id: i32, name: &str, max_occupancy: i32) -> Office {
    Office { id: Some(id), name: name.into(), max_occupancy }
}

fn employee(office_id: i32) -> Employee {
    Employee {
        id: None,
        first_name: "Kristoffer".into(),
        last_name: "Anden".into(),
        birth_date: BirthDate::from_ymd_opt(1950, 12, 23).unwrap(),
        office_id,
    }
}

fn engine_down() -> StorageError {
    StorageError::Engine("connection refused".to_string())
}

fn office_query(step: OfficeStep) -> OfficeQuery {
    match step {
        OfficeStep::Ask(query) => query,
        OfficeStep::Done(_) => panic!("the operation is over"),
    }
}

fn office_result(step: OfficeStep) -> Result<OfficeOutcome, ServiceError> {
    match step {
        OfficeStep::Done(result) => result,
        OfficeStep::Ask(_) => panic!("the operation goes on"),
    }
}

fn employee_query(step: EmployeeStep) -> EmployeeQuery {
    match step {
        EmployeeStep::Ask(query) => query,
        EmployeeStep::Done(_) => panic!("the operation is over"),
    }
}

fn employee_result(step: EmployeeStep) -> Result<EmployeeOutcome, ServiceError> {
    match step {
        EmployeeStep::Done(result) => result,
        EmployeeStep::Ask(_) => panic!("the operation goes on"),
    }
}

#[test]
fn add_office_asks_for_the_name_and_then_writes() {
    let (session, step) = OfficeSession::begin(OfficeRequest::Add(office("Aalborg", 3)));
    assert_eq!(session.stage, Stage::Checking);
    assert!(matches!(office_query(step), OfficeQuery::ByName(name) if name == "Aalborg"));
    let (session, step) = session.resume(OfficeReply::Row(None));
    assert_eq!(session.stage, Stage::Committing);
    assert!(matches!(office_query(step), OfficeQuery::Create(sent) if sent == office("Aalborg", 3)));
    let (session, step) = session.resume(OfficeReply::Row(Some(stored(4, "Aalborg", 3))));
    assert_eq!(session.stage, Stage::Closed);
    assert!(matches!(office_result(step), Ok(OfficeOutcome::One(created)) if created == stored(4, "Aalborg", 3)));
}

#[test]
fn add_office_stops_at_a_taken_name() {
    let (session, _) = OfficeSession::begin(OfficeRequest::Add(office("Aalborg", 3)));
    let (session, step) = session.resume(OfficeReply::Row(Some(stored(1, "Aalborg", 9))));
    assert_eq!(session.stage, Stage::Closed);
    assert!(matches!(office_result(step), Err(ServiceError::DuplicateName)));
}

#[test]
fn invalid_office_asks_nothing() {
    let (session, step) = OfficeSession::begin(OfficeRequest::Add(office("Aalborg", 0)));
    assert_eq!(session.stage, Stage::Closed);
    assert!(matches!(
        office_result(step),
        Err(ServiceError::ValidationFailed(ValidationError::InvalidCapacity))
    ));
    let (_, step) = OfficeSession::begin(OfficeRequest::Update(1, office(" ", 1)));
    assert!(matches!(office_result(step), Err(ServiceError::ValidationFailed(_))));
}

#[test]
fn update_office_lets_the_own_name_through() {
    let (session, _) = OfficeSession::begin(OfficeRequest::Update(2, office("Aalborg", 3)));
    let (session, step) = session.resume(OfficeReply::Row(Some(stored(2, "Aalborg", 9))));
    assert!(matches!(office_query(step), OfficeQuery::Update(2, sent) if sent == office("Aalborg", 3)));
    let (_, step) = session.resume(OfficeReply::Failed(StorageError::RowNotFound));
    assert!(matches!(office_result(step), Err(ServiceError::NotFound)));

    let (session, _) = OfficeSession::begin(OfficeRequest::Update(2, office("Aalborg", 3)));
    let (_, step) = session.resume(OfficeReply::Row(Some(stored(1, "Aalborg", 9))));
    assert!(matches!(office_result(step), Err(ServiceError::DuplicateName)));
}

#[test]
fn office_reads_and_removal_take_one_question() {
    let (session, step) = OfficeSession::begin(OfficeRequest::Find(8));
    assert!(matches!(office_query(step), OfficeQuery::ById(8)));
    let (_, step) = session.resume(OfficeReply::Row(None));
    assert!(matches!(office_result(step), Ok(OfficeOutcome::Lookup(None))));

    let (session, step) = OfficeSession::begin(OfficeRequest::ListAll);
    assert!(matches!(office_query(step), OfficeQuery::All));
    let (_, step) = session.resume(OfficeReply::Rows(vec![stored(1, "A", 1)]));
    assert!(matches!(office_result(step), Ok(OfficeOutcome::Many(rows)) if rows.len() == 1));

    let (session, step) = OfficeSession::begin(OfficeRequest::Remove(8));
    assert!(matches!(office_query(step), OfficeQuery::Delete(8)));
    let (_, step) = session.resume(OfficeReply::Removed(0));
    assert!(matches!(office_result(step), Ok(OfficeOutcome::Removed(false))));

    let (session, _) = OfficeSession::begin(OfficeRequest::Remove(8));
    let (_, step) = session.resume(OfficeReply::Removed(1));
    assert!(matches!(office_result(step), Ok(OfficeOutcome::Removed(true))));
}

#[test]
fn storage_failure_ends_an_office_operation() {
    let (session, _) = OfficeSession::begin(OfficeRequest::Add(office("Aalborg", 3)));
    let (session, step) = session.resume(OfficeReply::Failed(engine_down()));
    assert_eq!(session.stage, Stage::Closed);
    assert!(matches!(
        office_result(step),
        Err(ServiceError::StorageUnavailable(error)) if error == engine_down()
    ));

    let (session, _) = OfficeSession::begin(OfficeRequest::Add(office("Aalborg", 3)));
    let (session, _) = session.resume(OfficeReply::Row(None));
    let (_, step) = session.resume(OfficeReply::Failed(StorageError::IdentitiesExhausted));
    assert!(matches!(
        office_result(step),
        Err(ServiceError::StorageUnavailable(StorageError::IdentitiesExhausted))
    ));

    let (session, _) = OfficeSession::begin(OfficeRequest::Find(1));
    let (_, step) = session.resume(OfficeReply::Failed(StorageError::RowNotFound));
    assert!(matches!(
        office_result(step),
        Err(ServiceError::StorageUnavailable(StorageError::RowNotFound))
    ));
}

#[test]
fn answer_that_does_not_fit_ends_an_office_operation() {
    let (session, _) = OfficeSession::begin(OfficeRequest::Find(1));
    let (session, step) = session.resume(OfficeReply::Removed(1));
    assert!(matches!(
        office_result(step),
        Err(ServiceError::StorageUnavailable(StorageError::UnexpectedReply))
    ));
    let (session, step) = session.resume(OfficeReply::Row(None));
    assert_eq!(session.stage, Stage::Closed);
    assert!(matches!(
        office_result(step),
        Err(ServiceError::StorageUnavailable(StorageError::UnexpectedReply))
    ));
    let (session, _) = OfficeSession::begin(OfficeRequest::Add(office("Aalborg", 3)));
    let (session, _) = session.resume(OfficeReply::Row(None));
    let (_, step) = session.resume(OfficeReply::Row(None));
    assert!(matches!(
        office_result(step),
        Err(ServiceError::StorageUnavailable(StorageError::UnexpectedReply))
    ));
}

#[test]
fn add_employee_looks_up_counts_and_writes() {
    let (session, step) = EmployeeSession::begin(EmployeeRequest::Add(employee(3)));
    assert_eq!(session.stage, Stage::Checking);
    assert!(matches!(employee_query(step), EmployeeQuery::OfficeById(3)));
    let (session, step) = session.resume(EmployeeReply::Office(Some(stored(3, "Aalborg", 2))));
    assert_eq!(session.stage, Stage::Counting);
    assert_eq!(session.capacity, 2);
    assert!(matches!(employee_query(step), EmployeeQuery::Count(3)));
    let (session, step) = session.resume(EmployeeReply::Count(1));
    assert_eq!(session.stage, Stage::Committing);
    assert!(matches!(employee_query(step), EmployeeQuery::Create(sent) if sent == employee(3)));
    let mut created = employee(3);
    created.id = Some(11);
    let (session, step) = session.resume(EmployeeReply::Row(Some(created.clone())));
    assert_eq!(session.stage, Stage::Closed);
    assert!(matches!(employee_result(step), Ok(EmployeeOutcome::One(e)) if e == created));
}

#[test]
fn add_employee_stops_at_a_full_office() {
    for (count, capacity) in [(2i64, 2i32), (3, 2), (1, 1), (0, 0), (5, -1)] {
        let (session, _) = EmployeeSession::begin(EmployeeRequest::Add(employee(3)));
        let (session, _) = session.resume(EmployeeReply::Office(Some(stored(3, "A", capacity))));
        let (_, step) = session.resume(EmployeeReply::Count(count));
        assert!(matches!(
            employee_result(step),
            Err(ServiceError::OfficeAtCapacity(c, m)) if c == count && m == capacity
        ));
    }
}

#[test]
fn add_employee_stops_at_an_absent_office() {
    let (session, _) = EmployeeSession::begin(EmployeeRequest::Add(employee(3)));
    let (session, step) = session.resume(EmployeeReply::Office(None));
    assert_eq!(session.stage, Stage::Closed);
    assert!(matches!(employee_result(step), Err(ServiceError::OfficeNotFound)));
}

#[test]
fn invalid_employee_asks_nothing() {
    let mut sent = employee(3);
    sent.last_name = "Lionel Messi".into();
    let (session, step) = EmployeeSession::begin(EmployeeRequest::Add(sent.clone()));
    assert_eq!(session.stage, Stage::Closed);
    assert!(matches!(
        employee_result(step),
        Err(ServiceError::ValidationFailed(ValidationError::NameContainsWhitespace))
    ));
    let (_, step) = EmployeeSession::begin(EmployeeRequest::Update(1, sent));
    assert!(matches!(employee_result(step), Err(ServiceError::ValidationFailed(_))));
}

#[test]
fn update_employee_counts_only_on_a_move() {
    let mut current = employee(3);
    current.id = Some(6);
    let (session, step) = EmployeeSession::begin(EmployeeRequest::Update(6, employee(3)));
    assert!(matches!(employee_query(step), EmployeeQuery::OfficeById(3)));
    let (session, step) = session.resume(EmployeeReply::Office(Some(stored(3, "A", 1))));
    assert_eq!(session.stage, Stage::Locating);
    assert!(matches!(employee_query(step), EmployeeQuery::ById(6)));
    let (session, step) = session.resume(EmployeeReply::Row(Some(current.clone())));
    assert_eq!(session.stage, Stage::Committing);
    assert!(matches!(employee_query(step), EmployeeQuery::Update(6, sent) if sent == employee(3)));
    let (_, step) = session.resume(EmployeeReply::Row(Some(current.clone())));
    assert!(matches!(employee_result(step), Ok(EmployeeOutcome::One(e)) if e == current));

    current.office_id = 4;
    let (session, _) = EmployeeSession::begin(EmployeeRequest::Update(6, employee(3)));
    let (session, _) = session.resume(EmployeeReply::Office(Some(stored(3, "A", 1))));
    let (session, step) = session.resume(EmployeeReply::Row(Some(current.clone())));
    assert_eq!(session.stage, Stage::Counting);
    assert!(matches!(employee_query(step), EmployeeQuery::Count(3)));
    let (_, step) = session.resume(EmployeeReply::Count(1));
    assert!(matches!(employee_result(step), Err(ServiceError::OfficeAtCapacity(1, 1))));

    let (session, _) = EmployeeSession::begin(EmployeeRequest::Update(6, employee(3)));
    let (session, _) = session.resume(EmployeeReply::Office(Some(stored(3, "A", 1))));
    let (session, _) = session.resume(EmployeeReply::Row(Some(current)));
    let (session, step) = session.resume(EmployeeReply::Count(0));
    assert!(matches!(employee_query(step), EmployeeQuery::Update(6, _)));
    let (_, step) = session.resume(EmployeeReply::Failed(StorageError::RowNotFound));
    assert!(matches!(employee_result(step), Err(ServiceError::NotFound)));
}

#[test]
fn update_employee_stops_where_something_is_absent() {
    let (session, _) = EmployeeSession::begin(EmployeeRequest::Update(6, employee(3)));
    let (_, step) = session.resume(EmployeeReply::Office(None));
    assert!(matches!(employee_result(step), Err(ServiceError::OfficeNotFound)));
    let (session, _) = EmployeeSession::begin(EmployeeRequest::Update(6, employee(3)));
    let (session, _) = session.resume(EmployeeReply::Office(Some(stored(3, "A", 1))));
    let (_, step) = session.resume(EmployeeReply::Row(None));
    assert!(matches!(employee_result(step), Err(ServiceError::NotFound)));
}

#[test]
fn list_by_office_looks_the_office_up_first() {
    let (session, step) = EmployeeSession::begin(EmployeeRequest::ListByOffice(999333));
    assert!(matches!(employee_query(step), EmployeeQuery::OfficeById(999333)));
    let (_, step) = session.resume(EmployeeReply::Office(None));
    assert!(matches!(employee_result(step), Err(ServiceError::OfficeNotFound)));

    let (session, _) = EmployeeSession::begin(EmployeeRequest::ListByOffice(3));
    let (session, step) = session.resume(EmployeeReply::Office(Some(stored(3, "A", 1))));
    assert!(matches!(employee_query(step), EmployeeQuery::ByOffice(3)));
    let (_, step) = session.resume(EmployeeReply::Rows(vec![]));
    assert!(matches!(employee_result(step), Ok(EmployeeOutcome::Many(rows)) if rows.is_empty()));
}

#[test]
fn employee_reads_and_removal_take_one_question() {
    let (session, step) = EmployeeSession::begin(EmployeeRequest::Find(8));
    assert!(matches!(employee_query(step), EmployeeQuery::ById(8)));
    let (_, step) = session.resume(EmployeeReply::Row(None));
    assert!(matches!(employee_result(step), Ok(EmployeeOutcome::Lookup(None))));

    let (session, step) = EmployeeSession::begin(EmployeeRequest::ListAll);
    assert!(matches!(employee_query(step), EmployeeQuery::All));
    let (_, step) = session.resume(EmployeeReply::Rows(vec![employee(1), employee(2)]));
    assert!(matches!(employee_result(step), Ok(EmployeeOutcome::Many(rows)) if rows.len() == 2));

    let (session, step) = EmployeeSession::begin(EmployeeRequest::Remove(8));
    assert!(matches!(employee_query(step), EmployeeQuery::Delete(8)));
    let (_, step) = session.resume(EmployeeReply::Removed(1));
    assert!(matches!(employee_result(step), Ok(EmployeeOutcome::Removed(true))));
}

#[test]
fn storage_failure_ends_an_employee_operation() {
    let (session, _) = EmployeeSession::begin(EmployeeRequest::Add(employee(3)));
    let (_, step) = session.resume(EmployeeReply::Failed(engine_down()));
    assert!(matches!(
        employee_result(step),
        Err(ServiceError::StorageUnavailable(error)) if error == engine_down()
    ));
    let (session, _) = EmployeeSession::begin(EmployeeRequest::Add(employee(3)));
    let (session, _) = session.resume(EmployeeReply::Office(Some(stored(3, "A", 1))));
    let (_, step) = session.resume(EmployeeReply::Failed(engine_down()));
    assert!(matches!(employee_result(step), Err(ServiceError::StorageUnavailable(_))));
    let (session, _) = EmployeeSession::begin(EmployeeRequest::Add(employee(3)));
    let (session, _) = session.resume(EmployeeReply::Office(Some(stored(3, "A", 1))));
    let (session, _) = session.resume(EmployeeReply::Count(0));
    let (_, step) = session.resume(EmployeeReply::Failed(StorageError::RowNotFound));
    assert!(matches!(
        employee_result(step),
        Err(ServiceError::StorageUnavailable(StorageError::RowNotFound))
    ));
}

#[test]
fn answer_that_does_not_fit_ends_an_employee_operation() {
    let (session, _) = EmployeeSession::begin(EmployeeRequest::Add(employee(3)));
    let (session, step) = session.resume(EmployeeReply::Count(0));
    assert_eq!(session.stage, Stage::Closed);
    assert!(matches!(
        employee_result(step),
        Err(ServiceError::StorageUnavailable(StorageError::UnexpectedReply))
    ));
    let (_, step) = session.resume(EmployeeReply::Office(None));
    assert!(matches!(
        employee_result(step),
        Err(ServiceError::StorageUnavailable(StorageError::UnexpectedReply))
    ));
}

type EmployeeVerdict = Result<EmployeeOutcome, ServiceError>;

/// Two operations on employees with their questions answered turn by turn:
/// `true` in the schedule is a turn of the first. Where `guarded`, an
/// operation that is about to ask for the office waits while the other is
/// between that question and its result. What the schedule leaves open is
/// carried through at the end.
fn race_for_office(
    service: &mut EmployeeService,
    first: EmployeeRequest,
    second: EmployeeRequest,
    schedule: &[bool],
    guarded: bool,
) -> (EmployeeVerdict, EmployeeVerdict) {
    let (session, step) = EmployeeSession::begin(first);
    let mut first = (Some(session), Some(step));
    let (session, step) = EmployeeSession::begin(second);
    let mut second = (Some(session), Some(step));
    let mut holder: Option<bool> = None;
    let mut turns: Vec<bool> = schedule.to_vec();
    turns.extend([true; 8]);
    turns.extend([false; 8]);
    turns.extend([true; 8]);
    for to_first in turns {
        let mover = if to_first { &mut first } else { &mut second };
        let query = match mover.1.take() {
            Some(EmployeeStep::Ask(query)) => query,
            other => {
                mover.1 = other;
                continue;
            }
        };
        let at_the_door = matches!(query, EmployeeQuery::OfficeById(_));
        if guarded && at_the_door && holder == Some(!to_first) {
            mover.1 = Some(EmployeeStep::Ask(query));
            continue;
        }
        let reply = service.answer(query);
        let (session, step) = mover.0.take().unwrap().resume(reply);
        if matches!(step, EmployeeStep::Done(_)) {
            if holder == Some(to_first) {
                holder = None;
            }
        } else if at_the_door {
            holder = Some(to_first);
        }
        *mover = (Some(session), Some(step));
    }
    (employee_result(first.1.unwrap()), employee_result(second.1.unwrap()))
}

fn one_place_left() -> EmployeeService {
    let mut offices = OfficeRepository::new();
    offices.create_office(&office("Vester Hassing", 1)).unwrap();
    EmployeeService::new(EmployeeRepository::new(), offices)
}

fn schedules() -> Vec<Vec<bool>> {
    let mut all = vec![vec![]];
    for length in 1..=6 {
        for bits in 0..(1u32 << length) {
            all.push((0..length).map(|turn| bits & (1 << turn) != 0).collect());
        }
    }
    all
}

#[test]
fn guarded_race_lets_exactly_one_in() {
    for schedule in schedules() {
        let mut service = one_place_left();
        let (first, second) = race_for_office(
            &mut service,
            EmployeeRequest::Add(employee(1)),
            EmployeeRequest::Add(employee(1)),
            &schedule,
            true,
        );
        let full = |verdict: &EmployeeVerdict| {
            matches!(verdict, Err(ServiceError::OfficeAtCapacity(1, 1)))
        };
        assert!(
            (first.is_ok() && full(&second)) || (full(&first) && second.is_ok()),
            "schedule {:?}",
            schedule
        );
        let first_moves_first = schedule.first().copied().unwrap_or(true);
        assert_eq!(first.is_ok(), first_moves_first, "schedule {:?}", schedule);
        assert_eq!(service.list_employees_by_office_id(1).unwrap().len(), 1);
    }
}

#[test]
fn unguarded_race_can_overfill_the_office() {
    let mut service = one_place_left();
    let (first, second) = race_for_office(
        &mut service,
        EmployeeRequest::Add(employee(1)),
        EmployeeRequest::Add(employee(1)),
        &[true, false, true, false, true, false],
        false,
    );
    assert!(first.is_ok());
    assert!(second.is_ok());
    assert_eq!(service.list_employees_by_office_id(1).unwrap().len(), 2);
}

#[test]
fn guarded_race_ends_like_one_after_the_other() {
    let moving = || {
        let mut moving = employee(2);
        moving.first_name = "Ann".into();
        moving
    };
    let start = || {
        let mut offices = OfficeRepository::new();
        offices.create_office(&office("Aalborg", 1)).unwrap();
        offices.create_office(&office("Skagen", 1)).unwrap();
        let mut service = EmployeeService::new(EmployeeRepository::new(), offices);
        service.add_employee(&employee(1)).unwrap();
        service
    };
    for schedule in schedules() {
        let mut raced = start();
        let (first, second) = race_for_office(
            &mut raced,
            EmployeeRequest::Update(1, moving()),
            EmployeeRequest::Add(employee(2)),
            &schedule,
            true,
        );

        let mut serial = start();
        let first_moves_first = schedule.first().copied().unwrap_or(true);
        let (one, other) = if first_moves_first {
            let one = serial.update_employee(1, &moving());
            let other = serial.add_employee(&employee(2));
            (one, other)
        } else {
            let other = serial.add_employee(&employee(2));
            let one = serial.update_employee(1, &moving());
            (one, other)
        };
        assert_eq!(first.is_ok(), one.is_ok(), "schedule {:?}", schedule);
        assert_eq!(second.is_ok(), other.is_ok(), "schedule {:?}", schedule);
        assert_ne!(first.is_ok(), second.is_ok(), "schedule {:?}", schedule);
        assert_eq!(raced.list_all_employees(), serial.list_all_employees());
    }
}

#[test]
fn office_session_can_be_driven_by_hand() {
    let mut service = OfficeService::new(OfficeRepository::new());
    let (mut session, mut step) = OfficeSession::begin(OfficeRequest::Add(office("Aalborg", 3)));
    let mut questions = 0;
    let result = loop {
        match step {
            OfficeStep::Done(result) => break result,
            OfficeStep::Ask(query) => {
                questions += 1;
                let reply = service.answer(query);
                (session, step) = session.resume(reply);
            }
        }
    };
    assert_eq!(questions, 2);
    assert!(matches!(result, Ok(OfficeOutcome::One(created)) if created == stored(1, "Aalborg", 3)));
    assert_eq!(service.find_office_by_id(1), Ok(Some(stored(1, "Aalborg", 3))));
}

type OfficeVerdict = Result<OfficeOutcome, ServiceError>;

/// Two operations on offices with their questions answered turn by turn, as
/// `race_for_office` does it for employees; the question that an operation
/// waits with is the one for the name.
fn race_for_name(
    service: &mut OfficeService,
    first: OfficeRequest,
    second: OfficeRequest,
    schedule: &[bool],
    guarded: bool,
) -> (OfficeVerdict, OfficeVerdict) {
    let (session, step) = OfficeSession::begin(first);
    let mut first = (Some(session), Some(step));
    let (session, step) = OfficeSession::begin(second);
    let mut second = (Some(session), Some(step));
    let mut holder: Option<bool> = None;
    let mut turns: Vec<bool> = schedule.to_vec();
    turns.extend([true; 8]);
    turns.extend([false; 8]);
    turns.extend([true; 8]);
    for to_first in turns {
        let mover = if to_first { &mut first } else { &mut second };
        let query = match mover.1.take() {
            Some(OfficeStep::Ask(query)) => query,
            other => {
                mover.1 = other;
                continue;
            }
        };
        let at_the_door = matches!(query, OfficeQuery::ByName(_));
        if guarded && at_the_door && holder == Some(!to_first) {
            mover.1 = Some(OfficeStep::Ask(query));
            continue;
        }
        let reply = service.answer(query);
        let (session, step) = mover.0.take().unwrap().resume(reply);
        if matches!(step, OfficeStep::Done(_)) {
            if holder == Some(to_first) {
                holder = None;
            }
        } else if at_the_door {
            holder = Some(to_first);
        }
        *mover = (Some(session), Some(step));
    }
    (office_result(first.1.unwrap()), office_result(second.1.unwrap()))
}

#[test]
fn guarded_race_stores_a_name_once() {
    for schedule in schedules() {
        let mut service = OfficeService::new(OfficeRepository::new());
        let (first, second) = race_for_name(
            &mut service,
            OfficeRequest::Add(office("Vester Hassing", 1)),
            OfficeRequest::Add(office("Vester Hassing", 2)),
            &schedule,
            true,
        );
        let duplicate =
            |verdict: &OfficeVerdict| matches!(verdict, Err(ServiceError::DuplicateName));
        assert!(
            (first.is_ok() && duplicate(&second)) || (duplicate(&first) && second.is_ok()),
            "schedule {:?}",
            schedule
        );
        let stored_first = schedule.first().copied().unwrap_or(true);
        let offices = service.list_all_offices().unwrap();
        assert_eq!(offices.len(), 1);
        assert_eq!(offices[0].max_occupancy, if stored_first { 1 } else { 2 });
    }
}

#[test]
fn unguarded_race_can_store_a_name_twice() {
    let mut service = OfficeService::new(OfficeRepository::new());
    let (first, second) = race_for_name(
        &mut service,
        OfficeRequest::Add(office("Vester Hassing", 1)),
        OfficeRequest::Add(office("Vester Hassing", 2)),
        &[true, false, true, false],
        false,
    );
    assert!(first.is_ok());
    assert!(second.is_ok());
    assert_eq!(service.list_all_offices().unwrap().len(), 2);
}
