use evm_pool::pool::{batch_size, find_best, prefix_len, Action, BatchError, Event, Phase, StreamState};
use evm_pool::primitives::{word_gt, U256};

fn scores(xs: &[u128]) -> Vec<Option<U256>> {
    xs.iter().map(|&x| Some((0, x))).collect()
}

#[test]
fn it_finds_best() {
    let candidates = [1u128, 5, 3, 2, 4];
    let best = find_best(&scores(&candidates[..])).unwrap();
    assert_eq!(best.score, (0, 5));
    assert_eq!(candidates[best.index], 5);
}

#[test]
fn batch_size_never_exceeds_candidates() {
    assert_eq!(batch_size(0), 0);
    assert!(batch_size(3) <= 3);
    assert!(batch_size(3) >= 1);
}

#[test]
fn batch_empty_is_error() {
    assert!(matches!(find_best(&Vec::new()), Err(BatchError::Empty)));
}

#[test]
fn batch_all_nonviable_is_error() {
    assert!(matches!(find_best(&vec![None, None]), Err(BatchError::AllNonviable)));
}

#[test]
fn batch_drops_nonviable() {
    let outcomes = vec![Some((0, 2)), None, Some((0, 9)), None, Some((0, 4))];
    let best = find_best(&outcomes).unwrap();
    assert_eq!(best.index, 2);
    assert_eq!(best.score, (0, 9));
}

#[test]
fn batch_tie_keeps_last() {
    let best = find_best(&scores(&[3, 7, 1, 7])).unwrap();
    assert_eq!(best.index, 3);
}

#[test]
fn batch_compares_high_limb_first() {
    let outcomes = vec![Some((0, u128::MAX)), Some((1, 0)), Some((0, 5))];
    assert_eq!(find_best(&outcomes).unwrap().index, 1);
    assert!(word_gt(&(1, 0), &(0, u128::MAX)));
    assert!(!word_gt(&(0, 3), &(0, 3)));
}

/// Drives a stream where each candidate is evaluated at once: arrival and
/// completion happen at the same instant.
fn run_instant(arrivals: &[(u64, u128)], deadline: u64) -> Option<u128> {
    let mut st = StreamState::new();
    for &(t, score) in arrivals {
        if t >= deadline {
            break;
        }
        match st.step(Event::Arrived) {
            Action::Spawn(ticket) => {
                let a = st.step(Event::Completed(ticket, Some((0, score))));
                assert!(matches!(a, Action::Wait));
            }
            _ => panic!("an open run spawns"),
        }
    }
    match st.step(Event::Deadline) {
        Action::Finish(best) => best.map(|b| b.score.1),
        _ => panic!("the deadline finishes the run"),
    }
}

#[test]
fn deadline_gates_intake() {
    let arrivals = [(0u64, 1u128), (10, 5), (20, 3), (30, 2)];
    assert_eq!(run_instant(&arrivals, 25), Some(5));
}

#[test]
fn early_deadline_no_winner() {
    let mut st = StreamState::new();
    let ticket = match st.step(Event::Arrived) {
        Action::Spawn(t) => t,
        _ => panic!("an open run spawns"),
    };
    assert_eq!(ticket, 0);
    // The deadline at t=5 fires before the job started at t=0 completes.
    match st.step(Event::Deadline) {
        Action::Finish(best) => assert!(best.is_none()),
        _ => panic!("the deadline finishes the run"),
    }
    assert_eq!(st.phase, Phase::Done);
    assert!(matches!(st.step(Event::Completed(ticket, Some((0, 1)))), Action::Wait));
    assert!(st.best.is_none());
}

#[test]
fn tie_first_completed_wins() {
    let mut st = StreamState::new();
    let a = match st.step(Event::Arrived) {
        Action::Spawn(t) => t,
        _ => panic!(),
    };
    let b = match st.step(Event::Arrived) {
        Action::Spawn(t) => t,
        _ => panic!(),
    };
    // The later arrival completes first.
    st.step(Event::Completed(b, Some((0, 9))));
    st.step(Event::Completed(a, Some((0, 9))));
    assert!(matches!(st.step(Event::SourceClosed), Action::Finish(Some(best)) if best.index == b));
}

#[test]
fn nonviable_does_not_stop_the_run() {
    let mut st = StreamState::new();
    for _ in 0..3 {
        assert!(matches!(st.step(Event::Arrived), Action::Spawn(_)));
    }
    assert!(matches!(st.step(Event::Completed(0, None)), Action::Wait));
    assert_eq!(st.phase, Phase::Open);
    assert!(matches!(st.step(Event::Completed(1, Some((0, 4)))), Action::Wait));
    assert!(matches!(st.step(Event::SourceClosed), Action::Wait));
    assert_eq!(st.phase, Phase::Draining);
    assert!(matches!(st.step(Event::Arrived), Action::Wait));
    match st.step(Event::Completed(2, None)) {
        Action::Finish(Some(best)) => {
            assert_eq!(best.index, 1);
            assert_eq!(best.score, (0, 4));
        }
        _ => panic!("the last job finishes a draining run"),
    }
}

#[test]
fn zero_score_can_win() {
    let mut st = StreamState::new();
    st.step(Event::Arrived);
    st.step(Event::Completed(0, Some((0, 0))));
    assert!(matches!(st.step(Event::SourceClosed), Action::Finish(Some(b)) if b.score == (0, 0)));
}

#[test]
fn closed_empty_source_no_winner() {
    let mut st = StreamState::new();
    assert!(matches!(st.step(Event::SourceClosed), Action::Finish(None)));
}

#[test]
fn prefix_len_is_the_smaller() {
    assert_eq!(prefix_len(5, 3), 3);
    assert_eq!(prefix_len(2, 8), 2);
    assert_eq!(prefix_len(0, 4), 0);
}
