use rafael::safra::{SafraTerminator, TermState};

#[test]
fn single_worker_terminates_after_one_idle_round() {
    let mut t = SafraTerminator::new();
    assert!(!t.is_done());
    // The token starts black: the control worker whitens it and passes it to itself.
    assert!(!t.check_termination(0, TermState::Idle, 1));
    assert!(!t.is_done());
    // Now it finds a white token and declares termination.
    assert!(t.check_termination(0, TermState::Idle, 1));
    assert!(t.is_done());
}

#[test]
fn done_stays_done_for_every_worker() {
    let mut t = SafraTerminator::new();
    assert!(!t.check_termination(0, TermState::Idle, 1));
    assert!(t.check_termination(0, TermState::Idle, 1));
    assert!(t.check_termination(3, TermState::Active, 4));
    assert!(t.check_termination(0, TermState::Active, 1));
    assert!(t.is_done());
}

#[test]
fn active_worker_in_round_delays_termination() {
    let mut t = SafraTerminator::new();
    // Round one: worker 1 is active, so the token comes back black.
    assert!(!t.check_termination(0, TermState::Idle, 3));
    assert!(!t.check_termination(1, TermState::Active, 3));
    assert!(!t.check_termination(2, TermState::Idle, 3));
    // The control worker whitens the black token instead of terminating.
    assert!(!t.check_termination(0, TermState::Idle, 3));
    // Round two: everyone idle.
    assert!(!t.check_termination(1, TermState::Idle, 3));
    assert!(!t.check_termination(2, TermState::Idle, 3));
    assert!(t.check_termination(0, TermState::Idle, 3));
    assert!(t.is_done());
}

#[test]
fn workers_without_the_token_change_nothing() {
    let mut t = SafraTerminator::new();
    // Token is with worker 0; workers 1 and 2 report activity but do not hold it.
    assert!(!t.check_termination(1, TermState::Active, 3));
    assert!(!t.check_termination(2, TermState::Active, 3));
    // Worker 0 whitens the initial black token and passes it on.
    assert!(!t.check_termination(0, TermState::Idle, 3));
    assert!(!t.check_termination(2, TermState::Active, 3));
    assert!(!t.check_termination(1, TermState::Idle, 3));
    assert!(!t.check_termination(2, TermState::Idle, 3));
    assert!(t.check_termination(0, TermState::Idle, 3));
}

#[test]
fn active_control_worker_blackens_its_own_round() {
    let mut t = SafraTerminator::new();
    assert!(!t.check_termination(0, TermState::Active, 2));
    assert!(!t.check_termination(1, TermState::Idle, 2));
    // Token is black because worker 0 was active when it passed it.
    assert!(!t.check_termination(0, TermState::Idle, 2));
    assert!(!t.check_termination(1, TermState::Idle, 2));
    assert!(t.check_termination(0, TermState::Idle, 2));
}

use rafael::safra::{worker_step, WorkSource, WorkerAction};

#[test]
fn workers_scan_found_work_and_stop_only_on_termination() {
    let mut t = SafraTerminator::new();
    assert_eq!(
        worker_step(&mut t, 0, 1, TermState::Idle, WorkSource::OwnQueue),
        (WorkerAction::Scan, TermState::Active)
    );
    assert_eq!(
        worker_step(&mut t, 0, 1, TermState::Active, WorkSource::Stolen),
        (WorkerAction::Scan, TermState::Active)
    );
    assert!(!t.is_done());
    // First empty look: the black token is whitened, but the worker was active.
    assert_eq!(
        worker_step(&mut t, 0, 1, TermState::Active, WorkSource::Nothing),
        (WorkerAction::Retry, TermState::Idle)
    );
    // It was active when it passed the token, so the token came back black.
    assert_eq!(
        worker_step(&mut t, 0, 1, TermState::Idle, WorkSource::Nothing),
        (WorkerAction::Retry, TermState::Idle)
    );
    assert_eq!(
        worker_step(&mut t, 0, 1, TermState::Idle, WorkSource::Nothing),
        (WorkerAction::Stop, TermState::Idle)
    );
    assert!(t.is_done());
}

/// Runs `calls` on a fresh detector and gives the index of the first check
/// that returned `true`, if any.
fn first_declaration(n: usize, calls: &[(usize, TermState)]) -> Option<usize> {
    let mut t = SafraTerminator::new();
    let mut first = None;
    for (k, &(id, state)) in calls.iter().enumerate() {
        let done = t.check_termination(id, state, n);
        assert_eq!(done, t.is_done());
        if done && first.is_none() {
            first = Some(k);
        }
        if first.is_some() {
            assert!(done);
        }
    }
    first
}

#[test]
fn idle_round_robin_checks_terminate_within_two_rounds() {
    for n in 1..6usize {
        let calls: Vec<(usize, TermState)> = (0..2 * n + 3).map(|i| (i % n, TermState::Idle)).collect();
        // From a fresh detector the control worker whitens the token first, so
        // the check after one idle round declares.
        assert_eq!(first_declaration(n, &calls), Some(n));
    }
    // From a black token held by worker 1 of 3, the last call of the bound is needed.
    let mut t = SafraTerminator::new();
    assert!(!t.check_termination(0, TermState::Active, 3));
    let mut results = Vec::new();
    for i in 0..9usize {
        results.push(t.check_termination(i % 3, TermState::Idle, 3));
    }
    assert_eq!(results, vec![false, false, false, false, false, false, true, true, true]);
}

#[test]
fn out_of_order_checks_declare_only_after_a_full_idle_round() {
    // Worker 2 checks before the token reaches it; worker 0 checks while
    // others hold the token: none of that moves the token.
    let calls = vec![
        (2, TermState::Idle),
        (0, TermState::Active),
        (0, TermState::Idle),
        (2, TermState::Idle),
        (1, TermState::Idle),
        (0, TermState::Idle),
        (2, TermState::Idle),
        (0, TermState::Idle),
        (1, TermState::Idle),
        (2, TermState::Idle),
        (0, TermState::Idle),
    ];
    // Passes: 0 (Active), 1, 2, then 0 whitens (Idle), 1, 2, then 0 declares.
    assert_eq!(first_declaration(3, &calls), Some(10));
}

#[test]
fn the_first_check_of_a_fresh_detector_never_declares() {
    for n in 1..5usize {
        let mut t = SafraTerminator::new();
        assert!(!t.check_termination(0, TermState::Idle, n));
    }
}
