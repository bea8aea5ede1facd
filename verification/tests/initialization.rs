use soul_listener::eink::initialization::{InitSequence, InitStep, InitializationState};

#[test]
fn test_init_state_default() {
    let state = InitializationState::default();
    assert_eq!(state, InitializationState::Uninitialized);
}

#[test]
fn test_init_state_is_ready() {
    assert!(!InitializationState::Uninitialized.is_ready());
    assert!(!InitializationState::Initializing { step: 1, total_steps: 7 }.is_ready());
    assert!(InitializationState::Initialized.is_ready());
    assert!(!InitializationState::Failed { error: "test".to_string() }.is_ready());
}

#[test]
fn test_init_sequence_creation() {
    let seq = InitSequence::new();
    assert_eq!(seq.state(), &InitializationState::Uninitialized);
    assert_eq!(seq.timeout_ms(), 5000);
    assert_eq!(seq.total_steps(), 7);
}

#[test]
fn test_init_sequence_start() {
    let mut seq = InitSequence::new();
    seq.start().unwrap();
    assert_eq!(seq.state(), &InitializationState::Initializing { step: 1, total_steps: 7 });
    // Cannot start twice
    assert!(seq.start().is_err());
}

#[test]
fn test_init_sequence_steps() {
    let mut seq = InitSequence::new();
    seq.start().unwrap();
    for expected_next in 2..=7 {
        let next = seq.next_step().unwrap();
        assert_eq!(next, Some(expected_next));
    }
    let final_step = seq.next_step().unwrap();
    assert_eq!(final_step, None);
    assert_eq!(seq.state(), &InitializationState::Initialized);
}

#[test]
fn test_init_sequence_reset() {
    let mut seq = InitSequence::new();
    seq.start().unwrap();
    seq.next_step().unwrap();
    seq.reset();
    assert_eq!(seq.state(), &InitializationState::Uninitialized);
}

#[test]
fn test_init_sequence_fail() {
    let mut seq = InitSequence::new();
    seq.start().unwrap();
    seq.fail("Test error".to_string());
    assert!(seq.state().is_failed());
    if let InitializationState::Failed { error } = seq.state() {
        assert_eq!(error, "Test error");
    }
}

#[test]
fn test_init_step_info() {
    let steps = InitStep::all_steps();
    assert_eq!(steps.len(), 7);

    assert_eq!(steps[0].number, 1);
    assert_eq!(steps[0].description, "Power settling");
    assert_eq!(steps[0].duration_ms, 100);
    assert!(!steps[0].has_visual);

    assert_eq!(steps[5].number, 6);
    assert_eq!(steps[5].description, "Checkerboard pattern");
    assert!(steps[5].has_visual);

    assert_eq!(steps[6].number, 7);
    assert_eq!(steps[6].description, "Clear to white");
    assert!(steps[6].has_visual);
}

#[test]
fn test_init_step_get() {
    let step = InitStep::get(6).unwrap();
    assert_eq!(step.number, 6);
    assert_eq!(step.description, "Checkerboard pattern");
    assert!(InitStep::get(0).is_none());
    assert!(InitStep::get(8).is_none());
}

#[test]
fn test_init_sequence_timeout_setting() {
    let mut seq = InitSequence::new();
    seq.set_timeout(10000);
    assert_eq!(seq.timeout_ms(), 10000);
}

#[test]
fn next_step_times_out_after_the_limit() {
    let mut seq = InitSequence::new();
    seq.set_timeout(100);
    seq.start().unwrap();
    let r = seq.next_step_at(101);
    assert_eq!(r, Err("Initialization timeout".to_string()));
    assert!(seq.state().is_failed());
    if let InitializationState::Failed { error } = seq.state() {
        assert_eq!(error, "Initialization timeout after 101ms");
    }
}

#[test]
fn next_step_at_the_limit_still_advances() {
    let mut seq = InitSequence::new();
    seq.set_timeout(100);
    seq.start().unwrap();
    assert_eq!(seq.next_step_at(100).unwrap(), Some(2));
}

#[test]
fn next_step_without_start_fails() {
    let mut seq = InitSequence::new();
    assert!(seq.next_step_at(0).is_err());
    assert_eq!(seq.state(), &InitializationState::Uninitialized);
}

#[test]
fn start_after_failure_is_allowed() {
    let mut seq = InitSequence::new();
    seq.start().unwrap();
    seq.fail("x".to_string());
    assert!(seq.start().is_ok());
    assert!(seq.state().is_initializing());
}

#[test]
fn all_steps_are_numbered_in_order() {
    let steps = InitStep::all_steps();
    for (i, s) in steps.iter().enumerate() {
        assert_eq!(s.number as usize, i + 1);
        let g = InitStep::get(s.number).unwrap();
        assert_eq!(g.description, s.description);
        assert_eq!(g.duration_ms, s.duration_ms);
    }
}
