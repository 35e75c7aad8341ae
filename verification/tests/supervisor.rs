use stackmanager::process_manager::{
    shutdown_all, stop_service, ServiceState, StartError, StartMachine, StartPhase, StopError,
};

fn begin(reg: &ServiceState, id: &str, port: Option<u16>) -> StartMachine {
    StartMachine::begin(reg, &id.to_string(), port, 60_000, 500)
}

#[test]
fn start_without_ready_port_registers_immediately() {
    let mut reg = ServiceState::new();
    let mut m = begin(&reg, "web", None);
    assert_eq!(m.phase, StartPhase::SpawnChild);
    m.on_spawned(Some(4242));
    assert_eq!(m.phase, StartPhase::Ready { pid: 4242 });
    let r = m.finish(&mut reg, "web".to_string());
    assert_eq!(r, Ok(4242));
    assert!(reg.is_running(&"web".to_string()));
    assert_eq!(reg.pid_of(&"web".to_string()), Some(4242));
}

#[test]
fn start_twice_same_id_fails_and_spawns_nothing() {
    let mut reg = ServiceState::new();
    let mut m = begin(&reg, "db", None);
    m.on_spawned(Some(7));
    assert_eq!(m.finish(&mut reg, "db".to_string()), Ok(7));

    // The second attempt is refused before any phase that spawns.
    let m2 = begin(&reg, "db", Some(3306));
    assert_eq!(
        m2.phase,
        StartPhase::Failed { error: StartError::AlreadyRunning }
    );
    assert!(!matches!(m2.phase, StartPhase::SpawnChild));
    assert!(!matches!(m2.phase, StartPhase::ProbePort { .. }));
    let r = m2.finish(&mut reg, "db".to_string());
    assert_eq!(r, Err(StartError::AlreadyRunning));
    // The first registration is untouched.
    assert_eq!(reg.pid_of(&"db".to_string()), Some(7));
}

#[test]
fn start_with_occupied_port_fails_before_spawn() {
    let mut reg = ServiceState::new();
    let mut m = begin(&reg, "web", Some(8080));
    assert_eq!(m.phase, StartPhase::ProbePort { probe_port: 8080 });
    m.on_port_probe(true);
    assert_eq!(m.phase, StartPhase::Failed { error: StartError::PortInUse });
    let r = m.finish(&mut reg, "web".to_string());
    assert_eq!(r, Err(StartError::PortInUse));
    assert!(!reg.is_running(&"web".to_string()));
}

#[test]
fn start_becomes_ready_when_port_opens() {
    let mut reg = ServiceState::new();
    let mut m = begin(&reg, "web", Some(9001));
    m.on_port_probe(false);
    assert_eq!(m.phase, StartPhase::SpawnChild);
    m.on_spawned(Some(99));
    assert_eq!(
        m.phase,
        StartPhase::AwaitReady { pid: 99, await_port: 9001, waited_ms: 0 }
    );
    let kill = m.on_poll(None, false);
    assert!(!kill);
    assert_eq!(
        m.phase,
        StartPhase::AwaitReady { pid: 99, await_port: 9001, waited_ms: 500 }
    );
    let kill = m.on_poll(None, true);
    assert!(!kill);
    assert_eq!(m.phase, StartPhase::Ready { pid: 99 });
    assert_eq!(m.finish(&mut reg, "web".to_string()), Ok(99));
}

#[test]
fn start_fails_when_child_exits_early() {
    let mut reg = ServiceState::new();
    let mut m = begin(&reg, "web", Some(9001));
    m.on_port_probe(false);
    m.on_spawned(Some(99));
    let kill = m.on_poll(Some(3), false);
    assert!(!kill);
    assert_eq!(
        m.phase,
        StartPhase::Failed { error: StartError::ProcessExitedEarly(3) }
    );
    let r = m.finish(&mut reg, "web".to_string());
    assert_eq!(r, Err(StartError::ProcessExitedEarly(3)));
    // No registry entry is left behind.
    assert!(!reg.is_running(&"web".to_string()));
}

#[test]
fn start_times_out_and_kills_the_child() {
    let mut reg = ServiceState::new();
    let mut m = StartMachine::begin(&reg, &"web".to_string(), Some(9001), 1_000, 500);
    m.on_port_probe(false);
    m.on_spawned(Some(99));
    assert!(!m.on_poll(None, false)); // waited 500
    assert!(!m.on_poll(None, false)); // waited 1000
    let kill = m.on_poll(None, false); // waited >= timeout
    assert!(kill);
    assert_eq!(m.phase, StartPhase::Failed { error: StartError::StartupTimeout });
    assert_eq!(
        m.finish(&mut reg, "web".to_string()),
        Err(StartError::StartupTimeout)
    );
}

#[test]
fn spawn_failure_is_reported() {
    let mut reg = ServiceState::new();
    let mut m = begin(&reg, "web", None);
    m.on_spawned(None);
    assert_eq!(m.phase, StartPhase::Failed { error: StartError::SpawnFailed });
    assert_eq!(
        m.finish(&mut reg, "web".to_string()),
        Err(StartError::SpawnFailed)
    );
}

#[test]
fn stop_unknown_id_is_not_running_and_a_no_op() {
    let mut reg = ServiceState::new();
    let r = stop_service(&mut reg, &"ghost".to_string());
    assert_eq!(r, Err(StopError::NotRunning));
    assert!(!reg.is_running(&"ghost".to_string()));
}

#[test]
fn stop_removes_the_record_and_hands_out_the_pid() {
    let mut reg = ServiceState::new();
    let mut m = begin(&reg, "db", None);
    m.on_spawned(Some(31));
    m.finish(&mut reg, "db".to_string()).unwrap();

    let r = stop_service(&mut reg, &"db".to_string());
    assert_eq!(r, Ok(31));
    assert!(!reg.is_running(&"db".to_string()));
    // Stopping again fails: the registry is the source of truth.
    assert_eq!(
        stop_service(&mut reg, &"db".to_string()),
        Err(StopError::NotRunning)
    );
}

#[test]
fn shutdown_all_drains_every_record() {
    let mut reg = ServiceState::new();
    let mut m = begin(&reg, "a", None);
    m.on_spawned(Some(1));
    m.finish(&mut reg, "a".to_string()).unwrap();
    let mut m = begin(&reg, "b", None);
    m.on_spawned(Some(2));
    m.finish(&mut reg, "b".to_string()).unwrap();

    let out = shutdown_all(&mut reg);
    assert_eq!(out.len(), 2);
    let mut pairs: Vec<(String, u32)> = out.into_iter().map(|e| (e.key, e.val)).collect();
    pairs.sort();
    assert_eq!(pairs, vec![("a".to_string(), 1), ("b".to_string(), 2)]);
    assert!(!reg.is_running(&"a".to_string()));
    assert!(!reg.is_running(&"b".to_string()));
}
