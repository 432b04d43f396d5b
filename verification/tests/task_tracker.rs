use task_tracker::cli::{parse, render_created, render_found, render_missing, run, Cli, Task, TaskAdd, TaskGet};
use task_tracker::persistency::{check_object_id, FailingClient, InMemoryClient};
use task_tracker::todo::{create_task, get_task, Task as TodoTask};

fn add_cmd(title: &str) -> Cli {
    Cli { task: Task::Add(TaskAdd { title: title.to_string() }) }
}

fn get_cmd(id: &str) -> Cli {
    Cli { task: Task::Get(TaskGet { id: id.to_string() }) }
}

#[test]
fn round_trip_returns_created_title() {
    let mut client = InMemoryClient::new();
    let id = create_task(&mut client, "Buy milk").unwrap();
    let task = get_task(&client, id).unwrap();
    assert_eq!(task.title, "Buy milk");
}

#[test]
fn round_trip_keeps_earlier_tasks() {
    let mut client = InMemoryClient::new();
    let first = create_task(&mut client, "Buy milk").unwrap();
    let second = create_task(&mut client, "Walk the dog").unwrap();
    assert_ne!(first, second);
    assert_eq!(get_task(&client, first).unwrap().title, "Buy milk");
    assert_eq!(get_task(&client, second).unwrap().title, "Walk the dog");
}

#[test]
fn absent_id_returns_empty() {
    let mut client = InMemoryClient::new();
    let _ = create_task(&mut client, "Buy milk");
    assert!(get_task(&client, "ffffffffffffffffffffffff".to_string()).is_none());
    assert!(get_task(&client, "000000000000000000000001".to_string()).is_none());
}

#[test]
fn malformed_id_returns_empty() {
    let mut client = InMemoryClient::new();
    let _ = create_task(&mut client, "Buy milk");
    assert!(get_task(&client, "not-a-valid-id-format".to_string()).is_none());
    assert!(get_task(&client, "".to_string()).is_none());
}

#[test]
fn failing_backend_returns_empty() {
    let mut client = FailingClient::new();
    assert!(create_task(&mut client, "Buy milk").is_none());
    assert!(create_task(&mut client, "").is_none());
    assert!(get_task(&client, "000000000000000000000000".to_string()).is_none());
}

#[test]
fn created_id_is_24_hex_characters() {
    let mut client = InMemoryClient::new();
    let id = create_task(&mut client, "Buy milk").unwrap();
    assert_eq!(id.chars().count(), 24);
    assert!(check_object_id(&id));
}

#[test]
fn add_prints_id_line() {
    let mut client = InMemoryClient::new();
    let line = run(&mut client, add_cmd("Buy milk")).unwrap();
    let (prefix, id) = line.split_at(4);
    assert_eq!(prefix, "id: ");
    assert!(check_object_id(id));
    assert_eq!(id.len(), 24);
}

#[test]
fn add_on_failing_backend_prints_nothing() {
    let mut client = FailingClient::new();
    assert!(run(&mut client, add_cmd("Buy milk")).is_none());
}

#[test]
fn get_prints_stored_title() {
    let mut client = InMemoryClient::new();
    let line = run(&mut client, add_cmd("Buy milk")).unwrap();
    let id = &line[4..];
    let out = run(&mut client, get_cmd(id)).unwrap();
    assert_eq!(out, "title: Buy milk");
}

#[test]
fn get_absent_id_prints_no_entry() {
    let mut client = InMemoryClient::new();
    let out = run(&mut client, get_cmd("000000000000000000000000")).unwrap();
    assert_eq!(out, "No entry found.");
}

#[test]
fn get_malformed_id_prints_same_as_absent() {
    let mut client = InMemoryClient::new();
    let absent = run(&mut client, get_cmd("000000000000000000000000")).unwrap();
    let malformed = run(&mut client, get_cmd("not-an-id")).unwrap();
    assert_eq!(malformed, "No entry found.");
    assert_eq!(malformed, absent);
}

#[test]
fn parse_accepts_add() {
    let args = vec!["add".to_string(), "Buy milk".to_string()];
    match parse(&args) {
        Some(Cli { task: Task::Add(TaskAdd { title }) }) => assert_eq!(title, "Buy milk"),
        _ => panic!("expected the add subcommand"),
    }
}

#[test]
fn parse_accepts_get() {
    let args = vec!["get".to_string(), "000000000000000000000000".to_string()];
    match parse(&args) {
        Some(Cli { task: Task::Get(TaskGet { id }) }) => {
            assert_eq!(id, "000000000000000000000000")
        }
        _ => panic!("expected the get subcommand"),
    }
}

#[test]
fn empty_title_is_accepted_by_domain() {
    let mut client = InMemoryClient::new();
    let id = create_task(&mut client, "").unwrap();
    assert_eq!(get_task(&client, id).unwrap().title, "");
}

#[test]
fn parse_does_not_validate_id_format() {
    let args = vec!["get".to_string(), "not-an-id".to_string()];
    match parse(&args) {
        Some(Cli { task: Task::Get(TaskGet { id }) }) => assert_eq!(id, "not-an-id"),
        _ => panic!("expected the get subcommand"),
    }
}

#[test]
fn parse_rejects_bad_input() {
    assert!(parse(&vec![]).is_none());
    assert!(parse(&vec!["add".to_string()]).is_none());
    assert!(parse(&vec!["add".to_string(), "a".to_string(), "b".to_string()]).is_none());
    assert!(parse(&vec!["del".to_string(), "a".to_string()]).is_none());
    assert!(parse(&vec!["ADD".to_string(), "a".to_string()]).is_none());
}

#[test]
fn check_object_id_accepts_24_hex() {
    assert!(check_object_id("000000000000000000000000"));
    assert!(check_object_id("0123456789abcdef01234567"));
    assert!(check_object_id("ABCDEF0123456789abcdef01"));
}

#[test]
fn check_object_id_rejects_other_strings() {
    assert!(!check_object_id(""));
    assert!(!check_object_id("00000000000000000000000"));
    assert!(!check_object_id("0000000000000000000000000"));
    assert!(!check_object_id("00000000000000000000000g"));
    assert!(!check_object_id("not-a-valid-id-format"));
}

#[test]
fn render_lines_are_exact() {
    assert_eq!(render_created(&"00000000000000000000002a".to_string()), "id: 00000000000000000000002a");
    assert_eq!(render_found(&TodoTask { title: "Buy milk".to_string() }), "title: Buy milk");
    assert_eq!(render_missing(), "No entry found.");
}
