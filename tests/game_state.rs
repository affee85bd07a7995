use ppt_sync::game_state::{piece_consumed_between, GameState, GameStateQueue, HistoryError, LOOKAHEAD};
use ppt_sync::piece_gen::PieceGenerator;
use ppt_sync::state::State;

fn observed(current: u16, next: &[u16]) -> State {
    State { columns: vec![vec![0, 1, 2]], current_piece: Some(current), hold: None, next_queue: next.to_vec() }
}

#[test]
fn new_game_predicts_first_pieces() {
    let gs = GameState::new(42, State::new_blank());
    assert_eq!(gs.queue, PieceGenerator::new(42).take(LOOKAHEAD));
    assert!(*gs.state() == State::new_blank());
}

#[test]
fn consume_mino_shifts_prediction() {
    let mut gs = GameState::new(42, State::new_blank());
    let all = PieceGenerator::new(42).take(7);
    gs.consume_mino();
    assert_eq!(gs.queue, all[1..6].to_vec());
    gs.consume_mino();
    assert_eq!(gs.queue, all[2..7].to_vec());
}

#[test]
fn push_new_game_leaves_one_entry() {
    let mut q = GameStateQueue::new();
    q.push_new_game(1);
    assert_eq!(q.queue.len(), 1);
    q.update_by(observed(1, &[1, 2, 3, 4, 5])).unwrap();
    q.update_by(observed(2, &[2, 3, 4, 5, 6])).unwrap();
    assert_eq!(q.queue.len(), 3);
    q.push_new_game(7);
    assert_eq!(q.queue.len(), 1);
    assert_eq!(q.queue[0].queue, PieceGenerator::new(7).take(5));
}

#[test]
fn update_by_same_state_twice_adds_once() {
    let mut q = GameStateQueue::new();
    q.push_new_game(5);
    let s = observed(3, &[1, 2, 3, 4, 5]);
    q.update_by(s.clone()).unwrap();
    assert_eq!(q.queue.len(), 2);
    q.update_by(s).unwrap();
    assert_eq!(q.queue.len(), 2);
}

#[test]
fn update_by_without_game_fails() {
    let mut q = GameStateQueue::new();
    assert_eq!(q.update_by(observed(1, &[1])), Err(HistoryError::NoGame));
    assert_eq!(q.push_new_state(observed(1, &[1])), Err(HistoryError::NoGame));
    assert!(q.queue.is_empty());
}

#[test]
fn same_queue_keeps_prediction() {
    let mut q = GameStateQueue::new();
    q.push_new_game(9);
    q.update_by(observed(1, &[1, 2, 3, 4, 5])).unwrap();
    let before = q.queue[1].queue.clone();
    q.update_by(observed(2, &[1, 2, 3, 4, 5])).unwrap();
    assert_eq!(q.queue.len(), 3);
    assert_eq!(q.queue[2].queue, before);
    assert!(*q.queue[2].state() == observed(2, &[1, 2, 3, 4, 5]));
}

#[test]
fn undo_from_three_entries() {
    let mut q = GameStateQueue::new();
    q.push_new_game(11);
    let b = observed(1, &[1, 2, 3, 4, 5]);
    let c = observed(2, &[2, 3, 4, 5, 6]);
    q.update_by(b.clone()).unwrap();
    q.update_by(c).unwrap();
    let b_queue = q.queue[1].queue.clone();
    let got = q.undo().unwrap();
    assert!(*got.state() == b);
    assert_eq!(got.queue, b_queue);
    assert_eq!(q.queue.len(), 1);
    assert!(*q.queue[0].state() == State::new_blank());
}

#[test]
fn undo_with_too_few_entries() {
    let mut q = GameStateQueue::new();
    assert!(q.undo().is_none());
    q.push_new_game(3);
    assert!(q.undo().is_none());
    assert_eq!(q.queue.len(), 1);
}

#[test]
fn seed_42_scenario() {
    let mut q = GameStateQueue::new();
    q.push_new_game(42);
    assert_eq!(q.queue.len(), 1);
    let six = PieceGenerator::new(42).take(6);
    assert_eq!(q.queue[0].queue, six[0..5].to_vec());
    q.update_by(observed(4, &[6, 2, 1, 3, 5])).unwrap();
    assert_eq!(q.queue.len(), 2);
    assert_eq!(q.queue[1].queue, six[1..6].to_vec());
}

#[test]
fn consumption_policy_follows_next_queue() {
    assert!(piece_consumed_between(&observed(1, &[1, 2]), &observed(1, &[2, 3])));
    assert!(!piece_consumed_between(&observed(1, &[1, 2]), &observed(5, &[1, 2])));
    assert!(piece_consumed_between(&State::new_blank(), &observed(1, &[1])));
}

#[test]
fn duplicate_keeps_everything() {
    let mut gs = GameState::new(8, observed(2, &[4, 4]));
    let mut d = gs.duplicate();
    assert_eq!(d.queue, gs.queue);
    assert!(*d.state() == *gs.state());
    gs.consume_mino();
    d.consume_mino();
    assert_eq!(d.queue, gs.queue);
}
