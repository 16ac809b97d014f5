use proc_supervisor::command::{
    spawn_failure_message, KillRequest, LaunchRequest, CREATE_NO_WINDOW,
};
use proc_supervisor::supervisor::{names_distinct, Supervisor};

#[test]
fn launch_request_exact_command() {
    let r = LaunchRequest::new("backend");
    assert_eq!(r.name, "backend");
    assert_eq!(r.command_line, "cd ./resources && backend.exe");
    assert_eq!(r.creation_flags, CREATE_NO_WINDOW);
}

#[test]
fn kill_request_exact_command() {
    let k = KillRequest::new("backend");
    assert_eq!(k.name, "backend");
    assert_eq!(k.command_line, "taskkill /f /im backend.exe 2>nul");
    assert_eq!(k.creation_flags, CREATE_NO_WINDOW);
}

#[test]
fn spawn_failure_message_exact() {
    assert_eq!(spawn_failure_message("main"), "Failed to start main.exe");
}

#[test]
fn names_distinct_accepts_distinct_and_empty() {
    let none: Vec<String> = Vec::new();
    assert!(names_distinct(&none));
    let two = vec!["agent".to_string(), "backend".to_string()];
    assert!(names_distinct(&two));
}

#[test]
fn names_distinct_detects_collision() {
    let dup = vec!["agent".to_string(), "backend".to_string(), "agent".to_string()];
    assert!(!names_distinct(&dup));
}

#[test]
fn configured_reports_membership() {
    let s = Supervisor::new(vec!["agent".to_string(), "backend".to_string()]);
    assert!(s.configured(&"agent".to_string()));
    assert!(s.configured(&"backend".to_string()));
    assert!(!s.configured(&"frontend".to_string()));
    assert_eq!(s.configured_len(), 2);
    assert_eq!(s.configured_name(0), "agent");
    assert_eq!(s.configured_name(1), "backend");
}
