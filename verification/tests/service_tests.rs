use corp_data_api::entity::employee::Employee;
use corp_data_api::entity::office::Office;
use corp_data_api::repository::employee_repository::EmployeeRepository;
use corp_data_api::repository::office_repository::OfficeRepository;
use corp_data_api::repository::StorageError;
use corp_data_api::service::employee_service::EmployeeService;
use corp_data_api::service::office_service::OfficeService;
use corp_data_api::service::ServiceError;
use corp_data_api::utils::calendar::BirthDate;
use corp_data_api::utils::{NameKind, ValidationError};

fn office(name: &str, max_occupancy: i32) -> Office {
    Office { id: None, name: name.into(), max_occupancy }
}

fn employee(first_name: &str, last_name: &str, office_id: i32) -> Employee {
    Employee {
        id: None,
        first_name: first_name.into(),
        last_name: last_name.into(),
        birth_date: BirthDate::from_ymd_opt(1950, 1, 1).expect("Invalid date"),
        office_id,
    }
}

fn service_with(offices: &[Office]) -> EmployeeService {
    let mut office_repo = OfficeRepository::new();
    for office in offices {
        office_repo.create_office(office).unwrap();
    }
    EmployeeService::new(EmployeeRepository::new(), office_repo)
}

#[test]
fn employee_office_max_occ_test() {
    let mut office_repo = OfficeRepository::new();
    let employee_repo = EmployeeRepository::new();

    let office = Office { id: None, name: "Vester Hassing".into(), max_occupancy: 1 };
    let office_created = office_repo.create_office(&office).unwrap();
    let mut service = EmployeeService::new(employee_repo, office_repo);

    let emp1 = Employee { id: None, first_name: "Kristoffer".into(), last_name: "Første".into(), birth_date: BirthDate::from_ymd_opt(1950, 1, 1).expect("Invalid date"), office_id: office_created.id.unwrap() };
    service.add_employee(&emp1).unwrap();

    let emp2 = Employee { id: None, first_name: "Kristoffer".into(), last_name: "Anden".into(), birth_date: BirthDate::from_ymd_opt(1950, 12, 23).expect("Invalid date"), office_id: office_created.id.unwrap() };
    let res = service.add_employee(&emp2);
    assert!(res.is_err());
    assert_eq!(res, Err(ServiceError::OfficeAtCapacity(1, 1)));
}

#[test]
fn list_employees_by_office_service_test() {
    let mut office_repo = OfficeRepository::new();
    let employee_repo = EmployeeRepository::new();

    let office = Office { id: None, name: "TestOffice".into(), max_occupancy: 5 };
    let office_created = office_repo.create_office(&office).unwrap();
    let mut service = EmployeeService::new(employee_repo, office_repo);

    let emp1 = Employee { id: None, first_name: "Kristoffer".into(), last_name: "Første".into(), birth_date: BirthDate::from_ymd_opt(1950, 1, 1).expect("Invalid date"), office_id: office_created.id.unwrap() };
    let emp2 = Employee { id: None, first_name: "Kristoffer2".into(), last_name: "Anden".into(), birth_date: BirthDate::from_ymd_opt(1950, 12, 23).expect("Invalid date"), office_id: office_created.id.unwrap() };

    service.add_employee(&emp1).unwrap();
    service.add_employee(&emp2).unwrap();

    let employees = service.list_employees_by_office_id(office_created.id.unwrap()).unwrap();
    assert_eq!(employees.len(), 2);
    assert!(employees.iter().any(|e| e.first_name == "Kristoffer"));
    assert!(employees.iter().any(|e| e.first_name == "Kristoffer2"));

    let result = service.list_employees_by_office_id(999333);
    assert!(result.is_err());
    assert_eq!(result, Err(ServiceError::OfficeNotFound));
}

#[test]
fn last_place_goes_to_whoever_comes_first() {
    let first = employee("Kristoffer", "Første", 1);
    let second = employee("Kristoffer", "Anden", 1);

    let mut service = service_with(&[office("Vester Hassing", 1)]);
    assert!(service.add_employee(&first).is_ok());
    assert_eq!(service.add_employee(&second), Err(ServiceError::OfficeAtCapacity(1, 1)));

    let mut service = service_with(&[office("Vester Hassing", 1)]);
    assert!(service.add_employee(&second).is_ok());
    assert_eq!(service.add_employee(&first), Err(ServiceError::OfficeAtCapacity(1, 1)));
    assert_eq!(service.list_all_employees().unwrap().len(), 1);
}

#[test]
fn office_fills_up_to_its_capacity() {
    let mut service = service_with(&[office("Aalborg", 3)]);
    for name in ["A", "B", "C"] {
        assert!(service.add_employee(&employee(name, "Doe", 1)).is_ok());
    }
    assert_eq!(
        service.add_employee(&employee("D", "Doe", 1)),
        Err(ServiceError::OfficeAtCapacity(3, 3))
    );
    assert_eq!(service.remove_employee(2), Ok(true));
    let again = service.add_employee(&employee("D", "Doe", 1)).unwrap();
    assert_eq!(again.id, Some(4));
    assert_eq!(service.list_employees_by_office_id(1).unwrap().len(), 3);
}

#[test]
fn added_employee_comes_back_with_identity() {
    let mut service = service_with(&[office("Aalborg", 3)]);
    let sent = employee("Kristoffer", "Første", 1);
    let created = service.add_employee(&sent).unwrap();
    assert_eq!(created.id, Some(1));
    assert_eq!(created.first_name, sent.first_name);
    assert_eq!(created.last_name, sent.last_name);
    assert_eq!(created.birth_date, sent.birth_date);
    assert_eq!(created.office_id, 1);
    assert_eq!(service.find_employee_by_id(1), Ok(Some(created.clone())));
    assert_eq!(service.find_employee_by_id(1), Ok(Some(created)));
    assert_eq!(service.find_employee_by_id(2), Ok(None));
}

#[test]
fn employee_is_validated_before_the_office_is_looked_up() {
    let mut service = service_with(&[]);
    let mut sent = employee("Kristoffer", "Lionel Messi", 5);
    assert_eq!(
        service.add_employee(&sent),
        Err(ServiceError::ValidationFailed(ValidationError::NameContainsWhitespace))
    );
    assert_eq!(
        service.update_employee(1, &sent),
        Err(ServiceError::ValidationFailed(ValidationError::NameContainsWhitespace))
    );
    sent.last_name = "Messi".into();
    assert_eq!(service.add_employee(&sent), Err(ServiceError::OfficeNotFound));
    assert_eq!(service.update_employee(1, &sent), Err(ServiceError::OfficeNotFound));
    assert_eq!(service.list_all_employees(), Ok(vec![]));
}

#[test]
fn employee_of_absent_office_is_refused() {
    let mut service = service_with(&[office("Aalborg", 1)]);
    assert_eq!(service.add_employee(&employee("A", "Doe", 2)), Err(ServiceError::OfficeNotFound));
    assert_eq!(service.list_employees_by_office_id(2), Err(ServiceError::OfficeNotFound));
    assert_eq!(service.list_employees_by_office_id(1), Ok(vec![]));
}

#[test]
fn update_of_absent_employee_is_not_found() {
    let mut service = service_with(&[office("Aalborg", 1)]);
    assert_eq!(service.update_employee(1, &employee("A", "Doe", 1)), Err(ServiceError::NotFound));
}

#[test]
fn employee_that_stays_is_not_counted_again() {
    let mut service = service_with(&[office("Aalborg", 1)]);
    service.add_employee(&employee("Ann", "Doe", 1)).unwrap();
    let changed = service.update_employee(1, &employee("Anna", "Roe", 1)).unwrap();
    assert_eq!(changed.id, Some(1));
    assert_eq!(changed.first_name, "Anna");
    assert_eq!(changed.last_name, "Roe");
    assert_eq!(service.list_employees_by_office_id(1).unwrap(), vec![changed]);
}

#[test]
fn employee_that_moves_needs_room() {
    let mut service = service_with(&[office("Aalborg", 1), office("Skagen", 1)]);
    service.add_employee(&employee("Ann", "Doe", 1)).unwrap();
    service.add_employee(&employee("Bob", "Doe", 2)).unwrap();
    assert_eq!(
        service.update_employee(1, &employee("Ann", "Doe", 2)),
        Err(ServiceError::OfficeAtCapacity(1, 1))
    );
    assert_eq!(service.find_employee_by_id(1).unwrap().unwrap().office_id, 1);
    assert_eq!(service.remove_employee(2), Ok(true));
    let moved = service.update_employee(1, &employee("Ann", "Doe", 2)).unwrap();
    assert_eq!(moved.office_id, 2);
    assert_eq!(service.list_employees_by_office_id(1), Ok(vec![]));
    assert_eq!(service.list_employees_by_office_id(2), Ok(vec![moved]));
}

#[test]
fn removing_an_absent_employee_is_no_error() {
    let mut service = service_with(&[office("Aalborg", 1)]);
    assert_eq!(service.remove_employee(1), Ok(false));
    service.add_employee(&employee("Ann", "Doe", 1)).unwrap();
    assert_eq!(service.remove_employee(1), Ok(true));
    assert_eq!(service.remove_employee(1), Ok(false));
}

#[test]
fn repositories_come_back_from_the_service() {
    let mut service = service_with(&[office("Aalborg", 2)]);
    service.add_employee(&employee("Ann", "Doe", 1)).unwrap();
    let (employees, offices) = service.into_repositories();
    assert_eq!(employees.get_all_employees().len(), 1);
    assert_eq!(offices.get_all_offices().len(), 1);
    let mut office_service = OfficeService::new(offices);
    assert_eq!(office_service.remove_office(1), Ok(true));
    assert_eq!(office_service.into_repository().get_all_offices().len(), 0);
}

#[test]
fn same_name_is_stored_once() {
    let mut service = OfficeService::new(OfficeRepository::new());
    let first = service.add_office(&office("Vester Hassing", 1));
    let second = service.add_office(&office("Vester Hassing", 7));
    assert_eq!(first, Ok(Office { id: Some(1), name: "Vester Hassing".into(), max_occupancy: 1 }));
    assert_eq!(second, Err(ServiceError::DuplicateName));
    assert_eq!(service.list_all_offices().unwrap().len(), 1);
}

#[test]
fn names_differ_by_case() {
    let mut service = OfficeService::new(OfficeRepository::new());
    assert!(service.add_office(&office("Aalborg", 1)).is_ok());
    assert!(service.add_office(&office("aalborg", 1)).is_ok());
    assert_eq!(service.add_office(&office("Aalborg", 1)), Err(ServiceError::DuplicateName));
}

#[test]
fn added_office_is_found_again() {
    let mut service = OfficeService::new(OfficeRepository::new());
    let sent = office("Aalborg", 3);
    let created = service.add_office(&sent).unwrap();
    let found = service.find_office_by_id(created.id.unwrap()).unwrap().unwrap();
    assert_eq!(found.name, sent.name);
    assert_eq!(found.max_occupancy, sent.max_occupancy);
    assert_eq!(found, created);
}

#[test]
fn lookup_twice_gives_the_same() {
    let mut service = OfficeService::new(OfficeRepository::new());
    service.add_office(&office("Aalborg", 3)).unwrap();
    assert_eq!(service.find_office_by_id(1), service.find_office_by_id(1));
    assert_eq!(service.find_office_by_id(2), service.find_office_by_id(2));
    assert_eq!(service.find_office_by_id(2), Ok(None));
    assert_eq!(service.list_all_offices(), service.list_all_offices());
}

#[test]
fn invalid_office_is_refused_before_the_name_is_looked_up() {
    let mut service = OfficeService::new(OfficeRepository::new());
    service.add_office(&office("Aalborg", 3)).unwrap();
    assert_eq!(
        service.add_office(&office("Aalborg", 0)),
        Err(ServiceError::ValidationFailed(ValidationError::InvalidCapacity))
    );
    assert_eq!(
        service.add_office(&office("  ", 1)),
        Err(ServiceError::ValidationFailed(ValidationError::EmptyName(NameKind::Office)))
    );
    assert_eq!(
        service.update_office(1, &office("", 1)),
        Err(ServiceError::ValidationFailed(ValidationError::EmptyName(NameKind::Office)))
    );
    assert_eq!(service.list_all_offices().unwrap().len(), 1);
}

#[test]
fn office_keeps_its_own_name_on_update() {
    let mut service = OfficeService::new(OfficeRepository::new());
    service.add_office(&office("Aalborg", 3)).unwrap();
    service.add_office(&office("Skagen", 3)).unwrap();
    let changed = service.update_office(1, &office("Aalborg", 9)).unwrap();
    assert_eq!(changed, Office { id: Some(1), name: "Aalborg".into(), max_occupancy: 9 });
    assert_eq!(service.update_office(1, &office("Skagen", 9)), Err(ServiceError::DuplicateName));
    assert_eq!(service.find_office_by_id(1), Ok(Some(changed)));
    let renamed = service.update_office(2, &office("Grenen", 2)).unwrap();
    assert_eq!(renamed, Office { id: Some(2), name: "Grenen".into(), max_occupancy: 2 });
}

#[test]
fn update_of_absent_office_is_not_found() {
    let mut service = OfficeService::new(OfficeRepository::new());
    assert_eq!(service.update_office(12, &office("Aalborg", 3)), Err(ServiceError::NotFound));
    service.add_office(&office("Aalborg", 3)).unwrap();
    assert_eq!(service.update_office(12, &office("Aalborg", 3)), Err(ServiceError::DuplicateName));
    assert_eq!(service.update_office(12, &office("Skagen", 3)), Err(ServiceError::NotFound));
}

#[test]
fn removing_an_absent_office_is_no_error() {
    let mut service = OfficeService::new(OfficeRepository::new());
    assert_eq!(service.remove_office(33), Ok(false));
    service.add_office(&office("Aalborg", 3)).unwrap();
    assert_eq!(service.remove_office(1), Ok(true));
    assert_eq!(service.remove_office(1), Ok(false));
    assert_eq!(service.find_office_by_id(1), Ok(None));
}

#[test]
fn name_is_free_again_after_removal() {
    let mut service = OfficeService::new(OfficeRepository::new());
    service.add_office(&office("Aalborg", 3)).unwrap();
    service.remove_office(1).unwrap();
    let again = service.add_office(&office("Aalborg", 3)).unwrap();
    assert_eq!(again.id, Some(2));
}

#[test]
fn exhausted_tables_fail_as_storage() {
    let mut offices = OfficeService::new(OfficeRepository::starting_at(i32::MAX).unwrap());
    assert_eq!(
        offices.add_office(&office("Aalborg", 1)),
        Err(ServiceError::StorageUnavailable(StorageError::IdentitiesExhausted))
    );
    assert_eq!(offices.list_all_offices(), Ok(vec![]));

    let mut office_repo = OfficeRepository::new();
    office_repo.create_office(&office("Aalborg", 1)).unwrap();
    let mut employees =
        EmployeeService::new(EmployeeRepository::starting_at(i32::MAX).unwrap(), office_repo);
    assert_eq!(
        employees.add_employee(&employee("Ann", "Doe", 1)),
        Err(ServiceError::StorageUnavailable(StorageError::IdentitiesExhausted))
    );
    assert_eq!(employees.list_all_employees(), Ok(vec![]));
}

#[test]
fn capacity_is_not_looked_at_for_an_office_that_shrinks() {
    let mut offices = OfficeService::new(OfficeRepository::new());
    offices.add_office(&office("Aalborg", 2)).unwrap();
    let mut service = EmployeeService::new(EmployeeRepository::new(), offices.into_repository());
    service.add_employee(&employee("Ann", "Doe", 1)).unwrap();
    service.add_employee(&employee("Bob", "Doe", 1)).unwrap();
    let (employee_repo, office_repo) = service.into_repositories();
    let mut offices = OfficeService::new(office_repo);
    assert_eq!(offices.update_office(1, &office("Aalborg", 1)).unwrap().max_occupancy, 1);
    let mut service = EmployeeService::new(employee_repo, offices.into_repository());
    assert_eq!(
        service.add_employee(&employee("Cid", "Doe", 1)),
        Err(ServiceError::OfficeAtCapacity(2, 1))
    );
    assert!(service.update_employee(1, &employee("Anna", "Doe", 1)).is_ok());
}
