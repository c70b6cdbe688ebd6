use consensus::bytes::{u64_from_le_bytes, u64_to_le_bytes};
use consensus::draw::{next, round_draw};
use consensus::error::{ConfigurationError, ElectionError};
use consensus::heuristic::{ActiveInactiveHeuristic, ReputationHeuristic};
use consensus::leader_reputation::{target_round, LeaderReputation};
use consensus::metadata::{window_from_newest, InMemoryBackend, MetadataBackend, WindowRead};
use consensus::selection::{cumulative_weights, select_proposer, weighted_index};
use consensus::types::{Author, NewBlockEvent, Proposal};

const A: Author = Author(1);
const B: Author = Author(2);
const C: Author = Author(3);

fn event(round: u64, proposer: Author, votes: Vec<Author>) -> NewBlockEvent {
    NewBlockEvent { round, proposer, votes, timestamp: round * 1000 }
}

fn two_blocks() -> Vec<NewBlockEvent> {
    vec![event(1, A, vec![B]), event(2, B, vec![A])]
}

fn engine(
    history: Vec<NewBlockEvent>,
    active: u64,
    inactive: u64,
) -> LeaderReputation<InMemoryBackend, ActiveInactiveHeuristic> {
    LeaderReputation::new(
        vec![A, B, C],
        InMemoryBackend::new(history).unwrap(),
        20,
        ActiveInactiveHeuristic::new(active, inactive),
    )
}

fn rounds(events: &[NewBlockEvent]) -> Vec<u64> {
    events.iter().map(|e| e.round).collect()
}

fn config_error(r: Result<Vec<Author>, ElectionError>) -> ConfigurationError {
    match r {
        Err(ElectionError::Configuration(e)) => e,
        other => panic!("expected a configuration error, got {:?}", other),
    }
}

#[test]
fn target_round_lags_by_four() {
    assert_eq!(target_round(2), 0);
    assert_eq!(target_round(10), 6);
    assert_eq!(target_round(4), 0);
    assert_eq!(target_round(0), 0);
    assert_eq!(target_round(5), 1);
    assert_eq!(target_round(u64::MAX), u64::MAX - 4);
}

#[test]
fn window_is_last_records_up_to_target() {
    let history: Vec<NewBlockEvent> = (1..=50).map(|r| event(r, A, vec![])).collect();
    let backend = InMemoryBackend::new(history).unwrap();
    let window = backend.get_block_metadata(20, 30).unwrap();
    assert_eq!(rounds(&window), (11..=30).collect::<Vec<u64>>());
}

#[test]
fn window_with_zero_size_is_empty() {
    let history: Vec<NewBlockEvent> = (1..=5).map(|r| event(r, A, vec![])).collect();
    let backend = InMemoryBackend::new(history).unwrap();
    assert!(backend.get_block_metadata(0, 5).unwrap().is_empty());
}

#[test]
fn sparse_history_is_returned_whole() {
    let backend = InMemoryBackend::new(two_blocks()).unwrap();
    let window = backend.get_block_metadata(20, 6).unwrap();
    assert_eq!(rounds(&window), vec![1, 2]);
    assert_eq!(window[0].votes, vec![B]);
    assert_eq!(window[1].proposer, B);
    let weights = ActiveInactiveHeuristic::new(100, 1).get_weights(&[A, B, C], &window);
    assert_eq!(weights, vec![100, 100, 1]);
    assert_eq!(engine(two_blocks(), 100, 1).get_valid_proposers(10).unwrap(), vec![B]);
}

#[test]
fn backend_refuses_history_out_of_commit_order() {
    assert!(InMemoryBackend::new(vec![event(2, A, vec![]), event(1, B, vec![])]).is_none());
    assert!(InMemoryBackend::new(vec![event(3, A, vec![]), event(3, B, vec![])]).is_none());
    assert!(InMemoryBackend::new(vec![]).is_some());
}

fn newest_first(history: &[NewBlockEvent], limit: usize) -> Vec<NewBlockEvent> {
    history.iter().rev().take(limit).cloned().collect()
}

fn complete_rounds(read: WindowRead) -> Vec<u64> {
    match read {
        WindowRead::Complete(w) => rounds(&w),
        WindowRead::FetchMore(l) => panic!("expected a complete window, asked for {}", l),
    }
}

#[test]
fn window_from_newest_asks_for_more_when_short() {
    let history: Vec<NewBlockEvent> = (1..=50).map(|r| event(r, A, vec![])).collect();
    // 30 newest records hold only rounds 21..=30 at or before round 30
    let batch = newest_first(&history, 30);
    match window_from_newest(&batch, 30, 20, 30) {
        WindowRead::FetchMore(l) => assert_eq!(l, 61),
        WindowRead::Complete(w) => panic!("window settled too early: {:?}", rounds(&w)),
    }
    let batch = newest_first(&history, 61);
    assert_eq!(complete_rounds(window_from_newest(&batch, 61, 20, 30)), (11..=30).collect::<Vec<u64>>());
    let batch = newest_first(&history, 40);
    assert_eq!(complete_rounds(window_from_newest(&batch, 40, 20, 30)), (11..=30).collect::<Vec<u64>>());
}

#[test]
fn window_from_newest_with_sparse_history() {
    let batch = newest_first(&two_blocks(), 30);
    assert_eq!(complete_rounds(window_from_newest(&batch, 30, 20, 6)), vec![1, 2]);
    assert_eq!(complete_rounds(window_from_newest(&batch, 30, 20, 1)), vec![1]);
    assert_eq!(complete_rounds(window_from_newest(&[], 0, 0, 1)), Vec::<u64>::new());
    match window_from_newest(&[], 0, 1, 1) {
        WindowRead::FetchMore(l) => assert_eq!(l, 1),
        WindowRead::Complete(_) => panic!("an empty batch asked with limit 0 settles nothing"),
    }
    match window_from_newest(&[], u64::MAX, 1, 1) {
        WindowRead::Complete(w) => assert!(w.is_empty()),
        WindowRead::FetchMore(_) => panic!("a short batch holds the whole history"),
    }
}

#[test]
fn in_memory_reads_never_fail() {
    let backend = InMemoryBackend::new(two_blocks()).unwrap();
    for target in 0..5u64 {
        assert!(backend.get_block_metadata(20, target).is_ok());
        assert_eq!(rounds(&backend.read_window(20, target)), rounds(&backend.get_block_metadata(20, target).unwrap()));
    }
}

#[test]
fn active_inactive_weights() {
    let weights = ActiveInactiveHeuristic::new(100, 1).get_weights(&[A, B, C], &two_blocks());
    assert_eq!(weights, vec![100, 100, 1]);
    let weights = ActiveInactiveHeuristic::new(100, 1).get_weights(&[A, B, C], &[]);
    assert_eq!(weights, vec![1, 1, 1]);
    let history = vec![event(4, C, vec![])];
    let weights = ActiveInactiveHeuristic::new(7, 2).get_weights(&[A, B, C], &history);
    assert_eq!(weights, vec![2, 2, 7]);
}

#[test]
fn cumulative_weights_are_running_sums() {
    assert_eq!(cumulative_weights(&[10, 20, 30]), Some(vec![10, 30, 60]));
    assert_eq!(cumulative_weights(&[]), Some(vec![]));
    assert_eq!(cumulative_weights(&[u64::MAX, 1]), None);
    assert_eq!(cumulative_weights(&[u64::MAX, 0]), Some(vec![u64::MAX, u64::MAX]));
}

#[test]
fn selection_breaks_ties_upward() {
    let weights = [10, 20, 30];
    assert_eq!(weighted_index(&weights, 9), Ok(0));
    assert_eq!(weighted_index(&weights, 10), Ok(1));
    assert_eq!(weighted_index(&weights, 29), Ok(1));
    assert_eq!(weighted_index(&weights, 30), Ok(2));
    assert_eq!(weighted_index(&weights, 59), Ok(2));
    assert_eq!(weighted_index(&weights, 60), Ok(0));
    assert_eq!(weighted_index(&[0, 5, 0, 5], 5), Ok(3));
    assert_eq!(weighted_index(&[0, 5, 0, 5], 0), Ok(1));
}

#[test]
fn weighted_index_errors() {
    assert_eq!(weighted_index(&[0, 0, 0], 7), Err(ConfigurationError::ZeroTotalWeight));
    assert_eq!(weighted_index(&[], 7), Err(ConfigurationError::ZeroTotalWeight));
    assert_eq!(weighted_index(&[u64::MAX, 1], 7), Err(ConfigurationError::WeightOverflow));
}

#[test]
fn round_draw_digests_the_round() {
    assert_eq!(round_draw(0), 7357219233906154824);
    assert_eq!(round_draw(1), 17252833665422161336);
    assert_eq!(round_draw(10), 3432539974361112881);
    assert_eq!(round_draw(12345), 15831301756149241808);
}

#[test]
fn next_replaces_state_with_its_digest() {
    let mut state: Vec<u8> = Vec::new();
    let value = next(&mut state);
    assert_eq!(state.len(), 32);
    assert_eq!(state[..8], [0xa7, 0xff, 0xc6, 0xf8, 0xbf, 0x1e, 0xd7, 0x66]);
    assert_eq!(value, 0x66d7_1ebf_f8c6_ffa7);
}

#[test]
fn little_endian_bytes() {
    assert_eq!(u64_to_le_bytes(0x0102_0304_0506_0708), vec![8, 7, 6, 5, 4, 3, 2, 1]);
    assert_eq!(u64_to_le_bytes(0), vec![0; 8]);
    assert_eq!(u64_from_le_bytes(&[8, 7, 6, 5, 4, 3, 2, 1, 99]), 0x0102_0304_0506_0708);
    assert_eq!(u64_from_le_bytes(&u64_to_le_bytes(u64::MAX)), u64::MAX);
}

#[test]
fn select_proposer_checks_configuration() {
    assert_eq!(select_proposer(&[], &[], 3), Err(ConfigurationError::EmptyCandidates));
    assert_eq!(
        select_proposer(&[A, B, C], &[1, 2], 3),
        Err(ConfigurationError::WeightCountMismatch { weights: 2, candidates: 3 })
    );
    assert_eq!(select_proposer(&[A, B, C], &[0, 0, 0], 3), Err(ConfigurationError::ZeroTotalWeight));
    assert_eq!(select_proposer(&[A, B], &[u64::MAX, 1], 3), Err(ConfigurationError::WeightOverflow));
    // round 10 draws 3432539974361112881, which is 113 modulo 201
    assert_eq!(select_proposer(&[A, B, C], &[100, 100, 1], 10), Ok(B));
}

#[test]
fn elected_proposers_follow_history() {
    let e = engine(two_blocks(), 100, 1);
    // empty window: weights 1, 1, 1
    assert_eq!(e.get_valid_proposers(0).unwrap(), vec![A]);
    assert_eq!(e.get_valid_proposers(1).unwrap(), vec![B]);
    assert_eq!(e.get_valid_proposers(2).unwrap(), vec![C]);
    // window holds round 1 only: weights 100, 100, 1
    assert_eq!(e.get_valid_proposers(5).unwrap(), vec![A]);
    // window holds both records
    assert_eq!(e.get_valid_proposers(10).unwrap(), vec![B]);
    assert_eq!(e.get_valid_proposers(11).unwrap(), vec![A]);
    assert_eq!(e.get_valid_proposers(100).unwrap(), vec![B]);
}

#[test]
fn election_is_deterministic() {
    let e1 = engine(two_blocks(), 100, 1);
    let e2 = engine(two_blocks(), 100, 1);
    for round in 0..200u64 {
        let first = e1.get_valid_proposers(round).unwrap();
        assert_eq!(first.len(), 1);
        assert_eq!(first, e1.get_valid_proposers(round).unwrap());
        assert_eq!(first, e2.get_valid_proposers(round).unwrap());
    }
}

#[test]
fn only_the_elected_author_is_valid() {
    let e = engine(two_blocks(), 100, 1);
    for round in 0..50u64 {
        let elected = e.get_valid_proposers(round).unwrap()[0];
        for author in [A, B, C, Author(99)] {
            let answer = e.is_valid_proposer(author, round).unwrap();
            if author == elected {
                assert_eq!(answer, Some(author));
            } else {
                assert_eq!(answer, None);
            }
        }
    }
    assert_eq!(e.is_valid_proposer(B, 10).unwrap(), Some(B));
    assert_eq!(e.is_valid_proposer(A, 10).unwrap(), None);
    assert_eq!(e.is_valid_proposer(Author(99), 10).unwrap(), None);
}

#[test]
fn proposals_from_other_authors_are_dropped() {
    let mut e = engine(two_blocks(), 100, 1);
    let good = Proposal { author: Some(B), round: 10, payload: "block" };
    let kept = e.process_proposal(good).unwrap().unwrap();
    assert_eq!(kept.author, Some(B));
    assert_eq!(kept.round, 10);
    assert_eq!(kept.payload, "block");
    let bad = Proposal { author: Some(A), round: 10, payload: "block" };
    assert!(e.process_proposal(bad).unwrap().is_none());
    let stranger = Proposal { author: Some(Author(99)), round: 10, payload: "block" };
    assert!(e.process_proposal(stranger).unwrap().is_none());
    let anonymous = Proposal { author: None, round: 10, payload: "block" };
    assert!(e.process_proposal(anonymous).unwrap().is_none());
    assert!(e.take_backup_proposal::<&str>(10).is_none());
}

#[test]
fn zero_weights_fail_loudly() {
    let e = engine(two_blocks(), 0, 0);
    assert_eq!(config_error(e.get_valid_proposers(10)), ConfigurationError::ZeroTotalWeight);
    match e.is_valid_proposer(A, 10) {
        Err(ElectionError::Configuration(ConfigurationError::ZeroTotalWeight)) => {}
        other => panic!("expected a zero-weight error, got {:?}", other),
    }
    // only inactive candidates weigh nothing: an empty window gives all of them zero
    let e = engine(two_blocks(), 100, 0);
    assert_eq!(config_error(e.get_valid_proposers(0)), ConfigurationError::ZeroTotalWeight);
    assert!(e.get_valid_proposers(10).is_ok());
}

#[test]
fn empty_candidate_list_is_a_configuration_error() {
    let e = LeaderReputation::new(
        vec![],
        InMemoryBackend::new(two_blocks()).unwrap(),
        20,
        ActiveInactiveHeuristic::new(100, 1),
    );
    assert_eq!(config_error(e.get_valid_proposers(3)), ConfigurationError::EmptyCandidates);
}

#[test]
fn overflowing_weights_are_a_configuration_error() {
    let e = engine(two_blocks(), u64::MAX, 1);
    assert_eq!(config_error(e.get_valid_proposers(10)), ConfigurationError::WeightOverflow);
}

#[test]
fn elect_with_window_uses_given_history() {
    let e = engine(vec![], 100, 1);
    assert_eq!(e.elect_with_window(10, &two_blocks()), Ok(B));
    assert_eq!(e.elect_with_window(0, &[]), Ok(A));
}
