use codex_monitor::registry::{settle_handshake, Registry, Settled};

#[test]
fn first_session_wins_the_race() {
    let mut reg: Registry<u32> = Registry::new();
    assert!(reg.get("ws").is_none());
    assert!(reg.adopt("ws".to_string(), 1).is_ok());
    assert_eq!(reg.adopt("ws".to_string(), 2), Err(2));
    assert_eq!(reg.adopt("ws".to_string(), 3), Err(3));
    assert_eq!(reg.get("ws"), Some(&1));
    assert_eq!(reg.len(), 1);
    assert!(reg.adopt("other".to_string(), 9).is_ok());
    assert_eq!(reg.get("other"), Some(&9));
    assert_eq!(reg.len(), 2);
}

#[test]
fn many_settled_sessions_leave_one_entry() {
    let mut reg: Registry<u32> = Registry::new();
    let mut registered = 0;
    for candidate in 0..10u32 {
        match settle_handshake(&mut reg, "ws".to_string(), candidate, Ok(())) {
            Settled::Registered => registered += 1,
            Settled::AlreadyPresent { loser } => assert_eq!(loser, candidate),
            Settled::Failed { .. } => panic!("handshake succeeded"),
        }
    }
    assert_eq!(registered, 1);
    assert_eq!(reg.len(), 1);
    assert_eq!(reg.get("ws"), Some(&0));
}

#[test]
fn failed_handshake_registers_nothing() {
    let mut reg: Registry<u32> = Registry::new();
    match settle_handshake(&mut reg, "ws".to_string(), 4, Err("method not found".to_string())) {
        Settled::Failed { session, message } => {
            assert_eq!(session, 4);
            assert_eq!(message, "Failed to initialize OpenCode ACP: method not found");
        }
        _ => panic!("expected a failure"),
    }
    assert!(reg.get("ws").is_none());
    assert_eq!(reg.len(), 0);
}

#[test]
fn removal_and_teardown() {
    let mut reg: Registry<u32> = Registry::new();
    assert!(reg.adopt("a".to_string(), 1).is_ok());
    assert!(reg.adopt("b".to_string(), 2).is_ok());
    assert!(reg.adopt("c".to_string(), 3).is_ok());
    assert_eq!(reg.remove("b"), Some(2));
    assert_eq!(reg.remove("b"), None);
    assert_eq!(reg.get("c"), Some(&3));
    assert!(reg.adopt("b".to_string(), 4).is_ok());
    assert_eq!(reg.take_all(), vec![1, 3, 4]);
    assert_eq!(reg.len(), 0);
    assert!(reg.get("a").is_none());
}
