use suaide::{Settings, Status, SuaideError, Task, TaskChangeSet, TaskStore};

fn settings() -> Settings {
    Settings { db_url: ":memory:".to_string(), ticket_prefix: String::new() }
}

fn add(store: &mut TaskStore, description: &str, ticket: Option<&str>) -> Result<Task, SuaideError> {
    let ticket = settings().qualify_ticket(ticket.map(String::from));
    store.insert(description.to_string(), ticket, 10_000)
}

fn insert_task(store: &mut TaskStore, ticket: &str) {
    store.insert("Test Description".to_string(), Some(ticket.to_string()), 10_000).expect("Insert should be successful");
}

fn check_added(store: &TaskStore, ticket: Option<&str>, description: &str) {
    let result = store.find("1").expect("This should return an Ok");
    assert_eq!(result.id, 1);
    assert_eq!(result.ticket, ticket.map(String::from));
    assert_eq!(result.description, description.to_string());
    assert_eq!(result.status, Status::Open);
    assert_eq!(result.closed, None);
}

#[test]
fn test_full_flag_inputs_short() {
    let mut store = TaskStore::new();
    assert!(add(&mut store, "Test Description", Some("1234")).is_ok());
    check_added(&store, Some("1234"), "Test Description");
}

#[test]
fn test_full_flag_inputs_short_no_ticket() {
    let mut store = TaskStore::new();
    assert!(add(&mut store, "Test Description", None).is_ok());
    check_added(&store, None, "Test Description");
}

#[test]
fn test_full_flag_inputs_long() {
    let mut store = TaskStore::new();
    assert!(add(&mut store, "Test Description", Some("1234")).is_ok());
    check_added(&store, Some("1234"), "Test Description");
}

#[test]
fn test_full_flag_inputs_long_no_ticket() {
    let mut store = TaskStore::new();
    assert!(add(&mut store, "Test Description", None).is_ok());
    check_added(&store, None, "Test Description");
}

#[test]
fn test_ticket_id_already_exists() {
    let mut store = TaskStore::new();
    insert_task(&mut store, "1234");
    match add(&mut store, "Test Description", Some("1234")).unwrap_err() {
        SuaideError::TicketAlreadyExistsError => {},
        _ => panic!("Expected ticket already exists error"),
    }
}

#[test]
fn test_prompts() {
    let mut store = TaskStore::new();
    assert!(add(&mut store, "MOCK DATA", Some("MOCK DATA")).is_ok());
    check_added(&store, Some("MOCK DATA"), "MOCK DATA");
}

#[test]
fn test_prompts_error_on_duplicate_id() {
    let mut store = TaskStore::new();
    insert_task(&mut store, "MOCK DATA");
    match add(&mut store, "MOCK DATA", Some("MOCK DATA")).unwrap_err() {
        SuaideError::TicketAlreadyExistsError => {},
        _ => panic!("Expected ticket already exists error"),
    }
}

#[test]
fn happy_path() {
    let mut store = TaskStore::new();
    insert_task(&mut store, "1234");
    let result = store.close("1234", "1234", 20_000);
    assert!(result.is_ok());

    let result = store.find("1").expect("This should return an Ok");
    assert_eq!(result.id, 1);
    assert_eq!(result.ticket, Some("1234".to_string()));
    assert_eq!(result.description, "Test Description".to_string());
    assert_eq!(result.status, Status::Closed);
    assert!(result.closed.is_some());
}

#[test]
fn should_error_with_not_found() {
    let mut store = TaskStore::new();
    match store.close("1234", "1234", 20_000).unwrap_err() {
        SuaideError::NotFound => {},
        _ => panic!("Expected Not Found error"),
    }
}

#[test]
fn should_edit_a_task() {
    let mut store = TaskStore::new();
    store
        .restore(Task {
            id: 1,
            ticket: Some("1234".to_string()),
            description: "Test Description".to_string(),
            status: Status::Cancelled,
            opened: 10_000,
            closed: None,
        })
        .expect("Insert should be successful");

    let task = store.find("1234").expect("This should return an Ok");
    let ticket = settings().qualify_ticket(Some("MOCK DATA".to_string()));
    let changes = TaskChangeSet::from_edit(&task, "MOCK DATA".to_string(), ticket, task.status, 20_000);
    assert!(store.update(task.id, &changes).is_ok());

    let result = store.find("1").expect("This should return an Ok");
    assert_eq!(result.id, 1);
    assert_eq!(result.ticket, Some("MOCK DATA".to_string()));
    assert_eq!(result.description, "MOCK DATA".to_string());
    assert_eq!(result.status, Status::Cancelled);
    assert_eq!(result.closed, None);
}
