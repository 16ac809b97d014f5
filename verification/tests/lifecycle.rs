use proc_supervisor::command::CREATE_NO_WINDOW;
use proc_supervisor::supervisor::{HookState, LaunchAction, Supervisor};

fn sup(names: &[&str]) -> Supervisor {
    let owned: Vec<String> = names.iter().map(|n| n.to_string()).collect();
    Supervisor::new(owned)
}

fn spawn_count(actions: &[LaunchAction]) -> usize {
    actions
        .iter()
        .filter(|a| matches!(a, LaunchAction::Spawn(_)))
        .count()
}

#[test]
fn startup_spawns_each_configured_worker_in_order() {
    let mut s = sup(&["agent", "backend"]);
    let reqs = s.startup();
    assert_eq!(reqs.len(), 2);
    assert_eq!(reqs[0].name, "agent");
    assert_eq!(reqs[1].name, "backend");
}

#[test]
fn startup_requests_carry_command_and_flag() {
    let mut s = sup(&["agent", "backend"]);
    let reqs = s.startup();
    assert_eq!(reqs[0].command_line, "cd ./resources && agent.exe");
    assert_eq!(reqs[1].command_line, "cd ./resources && backend.exe");
    assert_eq!(reqs[0].creation_flags, CREATE_NO_WINDOW);
    assert_eq!(reqs[1].creation_flags, CREATE_NO_WINDOW);
    assert_eq!(CREATE_NO_WINDOW, 0x08000000);
}

#[test]
fn startup_skips_workers_already_running() {
    let mut s = sup(&["agent", "backend"]);
    let a = s.launch(&"backend".to_string());
    assert!(matches!(a, LaunchAction::Spawn(_)));
    let reqs = s.startup();
    assert_eq!(reqs.len(), 1);
    assert_eq!(reqs[0].name, "agent");
}

#[test]
fn close_fires_one_kill_per_worker_in_order() {
    let mut s = sup(&["agent", "backend"]);
    let _ = s.startup();
    let kills = s.on_close_requested();
    assert_eq!(kills.len(), 2);
    assert_eq!(kills[0].name, "agent");
    assert_eq!(kills[1].name, "backend");
    assert_eq!(kills[0].command_line, "taskkill /f /im agent.exe 2>nul");
    assert_eq!(kills[1].command_line, "taskkill /f /im backend.exe 2>nul");
}

#[test]
fn second_close_fires_nothing() {
    let mut s = sup(&["agent", "backend"]);
    let _ = s.startup();
    let first = s.on_close_requested();
    assert_eq!(first.len(), 2);
    let second = s.on_close_requested();
    assert_eq!(second.len(), 0);
    let third = s.on_close_requested();
    assert_eq!(third.len(), 0);
}

#[test]
fn close_before_startup_fires_nothing() {
    let mut s = sup(&["agent", "backend"]);
    let kills = s.on_close_requested();
    assert_eq!(kills.len(), 0);
    assert_eq!(s.hook_phase(), HookState::Uninitialized);
}

#[test]
fn launch_twice_spawns_once() {
    let mut s = sup(&["agent"]);
    let name = "agent".to_string();
    let first = s.launch(&name);
    let second = s.launch(&name);
    assert_eq!(spawn_count(&[first, second]), 1);
}

#[test]
fn launch_after_terminate_spawns_again() {
    let mut s = sup(&["agent"]);
    let name = "agent".to_string();
    let first = s.launch(&name);
    let _ = s.terminate(&name);
    let second = s.launch(&name);
    assert_eq!(spawn_count(&[first, second]), 2);
}

#[test]
fn undispatched_spawn_leaves_supervisor_responsive() {
    // The spawn request is returned, never dispatched, and never
    // completes; the supervisor must not be waiting on it.
    let mut s = sup(&["agent"]);
    let name = "agent".to_string();
    let action = s.launch(&name);
    let pending = match action {
        LaunchAction::Spawn(req) => req,
        LaunchAction::AlreadyRunning => panic!("expected a spawn request"),
    };
    assert!(s.launched(&name));
    let kill = s.terminate(&name);
    assert_eq!(kill.name, "agent");
    drop(pending);
}

#[test]
fn terminate_without_launch_returns_kill_request() {
    let mut s = sup(&["agent", "backend"]);
    let kill = s.terminate(&"backend".to_string());
    assert_eq!(kill.command_line, "taskkill /f /im backend.exe 2>nul");
    assert!(!s.launched(&"backend".to_string()));
}

#[test]
fn terminate_clears_only_its_worker() {
    let mut s = sup(&["agent", "backend"]);
    let _ = s.launch(&"agent".to_string());
    let _ = s.launch(&"backend".to_string());
    let _ = s.terminate(&"agent".to_string());
    assert!(!s.launched(&"agent".to_string()));
    assert!(s.launched(&"backend".to_string()));
}

#[test]
fn spawn_rejected_allows_retry() {
    let mut s = sup(&["agent"]);
    let name = "agent".to_string();
    let first = s.launch(&name);
    assert!(matches!(first, LaunchAction::Spawn(_)));
    s.spawn_rejected(&name);
    assert!(!s.launched(&name));
    let retry = s.launch(&name);
    assert!(matches!(retry, LaunchAction::Spawn(_)));
}

#[test]
fn hook_phases_progress() {
    let mut s = sup(&["agent"]);
    assert_eq!(s.hook_phase(), HookState::Uninitialized);
    let _ = s.startup();
    assert_eq!(s.hook_phase(), HookState::Bound);
    let _ = s.on_close_requested();
    assert_eq!(s.hook_phase(), HookState::Fired);
}

#[test]
fn scenario_agent_backend_full_run() {
    // Startup spawns the two configured workers with the
    // console-suppression flag; the first simulated close kills both by
    // name; a second close issues nothing further.
    let mut s = sup(&["agent", "backend"]);
    let reqs = s.startup();
    assert_eq!(reqs.len(), 2);
    assert_eq!(reqs[0].command_line, "cd ./resources && agent.exe");
    assert_eq!(reqs[1].command_line, "cd ./resources && backend.exe");
    assert!(reqs.iter().all(|r| r.creation_flags == CREATE_NO_WINDOW));
    let kills = s.on_close_requested();
    assert_eq!(kills.len(), 2);
    assert_eq!(kills[0].name, "agent");
    assert_eq!(kills[1].name, "backend");
    let again = s.on_close_requested();
    assert_eq!(again.len(), 0);
}
