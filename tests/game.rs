use battleship_game::{
    hub_session_id, Address, BattleshipGame, GameError, GameStatus, HubCall,
};

const ADMIN: Address = Address { id: 1 };
const VERIFIER: Address = Address { id: 2 };
const HUB: Address = Address { id: 3 };
const PLAYER_A: Address = Address { id: 10 };
const PLAYER_B: Address = Address { id: 20 };
const STRANGER: Address = Address { id: 30 };

fn valid_proof() -> Vec<u8> {
    vec![1u8; 128]
}

fn initialized() -> BattleshipGame {
    let mut g = BattleshipGame::new();
    assert_eq!(g.initialize(ADMIN, VERIFIER, HUB), Ok(()));
    g
}

fn joined() -> (BattleshipGame, u64) {
    let mut g = initialized();
    let id = g.create_game(PLAYER_A, 100).unwrap();
    g.join_game(id, PLAYER_B).unwrap();
    (g, id)
}

fn active() -> (BattleshipGame, u64) {
    let (mut g, id) = joined();
    g.submit_commitment(id, PLAYER_A, [0xAA; 32], valid_proof(), vec![0xAA; 32]).unwrap();
    g.submit_commitment(id, PLAYER_B, [0xBB; 32], valid_proof(), vec![0xBB; 32]).unwrap();
    (g, id)
}

#[test]
fn test_create_and_join_game() {
    let mut g = initialized();
    let id = g.create_game(PLAYER_A, 7).unwrap();
    assert_eq!(id, 1);
    let call = g.join_game(id, PLAYER_B).unwrap();
    assert_eq!(
        call,
        HubCall::StartGame { session_id: 1, player_a: PLAYER_A, player_b: PLAYER_B }
    );
    let s = g.get_game_state(id).unwrap();
    assert_eq!(s.status, GameStatus::CommitmentPhase);
    assert_eq!(s.player_b, Some(PLAYER_B));
    assert_eq!(s.hub_game_id, Some(id));
    assert_eq!(s.current_turn, None);
    assert_eq!(s.created_at, 7);
}

#[test]
fn create_before_initialize_fails() {
    let mut g = BattleshipGame::new();
    assert_eq!(g.create_game(PLAYER_A, 0), Err(GameError::NotInitialized));
}

#[test]
fn initialize_twice_fails() {
    let mut g = initialized();
    assert_eq!(g.initialize(ADMIN, VERIFIER, HUB), Err(GameError::AlreadyInitialized));
}

#[test]
fn game_ids_are_sequential() {
    let mut g = initialized();
    assert_eq!(g.create_game(PLAYER_A, 0), Ok(1));
    assert_eq!(g.create_game(PLAYER_B, 0), Ok(2));
    assert_eq!(g.create_game(PLAYER_A, 0), Ok(3));
    let s = g.get_game_state(2).unwrap();
    assert_eq!(s.player_a, PLAYER_B);
    assert_eq!(s.status, GameStatus::WaitingForOpponent);
    assert_eq!(s.total_ship_cells, 17);
}

#[test]
fn unknown_game_is_not_found() {
    let mut g = initialized();
    assert_eq!(g.get_game_state(0), Err(GameError::GameNotFound));
    assert_eq!(g.get_game_state(1), Err(GameError::GameNotFound));
    assert_eq!(g.join_game(5, PLAYER_B), Err(GameError::GameNotFound));
    assert_eq!(g.fire_shot(5, PLAYER_A, 0, 0), Err(GameError::GameNotFound));
}

#[test]
fn self_play_is_refused() {
    let mut g = initialized();
    let id = g.create_game(PLAYER_A, 0).unwrap();
    assert_eq!(g.join_game(id, PLAYER_A), Err(GameError::SelfPlay));
    assert_eq!(g.get_game_state(id).unwrap().status, GameStatus::WaitingForOpponent);
}

#[test]
fn joining_twice_is_refused() {
    let (mut g, id) = joined();
    assert_eq!(g.join_game(id, STRANGER), Err(GameError::InvalidGameStatus));
}

#[test]
fn scenario_commitments_activate_game() {
    let (mut g, id) = joined();
    assert_eq!(g.submit_commitment(id, PLAYER_A, [0xAA; 32], valid_proof(), vec![0xAA; 32]), Ok(()));
    let s = g.get_game_state(id).unwrap();
    assert_eq!(s.status, GameStatus::CommitmentPhase);
    assert!(s.commitment_a_submitted && s.proof_a_verified);
    assert!(!s.commitment_b_submitted);
    assert_eq!(s.current_turn, None);
    assert_eq!(g.submit_commitment(id, PLAYER_B, [0xBB; 32], valid_proof(), vec![0xBB; 32]), Ok(()));
    let s = g.get_game_state(id).unwrap();
    assert_eq!(s.status, GameStatus::Active);
    assert_eq!(s.current_turn, Some(PLAYER_A));
    let c = g.get_commitment(id, PLAYER_B).unwrap();
    assert_eq!(c.hash, [0xBB; 32]);
    assert_eq!(c.public_inputs, vec![0xBB; 32]);
}

#[test]
fn commitment_before_join_is_refused() {
    let mut g = initialized();
    let id = g.create_game(PLAYER_A, 0).unwrap();
    assert_eq!(
        g.submit_commitment(id, PLAYER_A, [1; 32], valid_proof(), vec![]),
        Err(GameError::InvalidGameStatus)
    );
}

#[test]
fn commitment_by_stranger_is_refused() {
    let (mut g, id) = joined();
    assert_eq!(
        g.submit_commitment(id, STRANGER, [1; 32], valid_proof(), vec![]),
        Err(GameError::NotAuthorized)
    );
}

#[test]
fn second_commitment_is_refused() {
    let (mut g, id) = joined();
    g.submit_commitment(id, PLAYER_B, [1; 32], valid_proof(), vec![]).unwrap();
    assert_eq!(
        g.submit_commitment(id, PLAYER_B, [2; 32], valid_proof(), vec![2; 32]),
        Err(GameError::CommitmentAlreadySubmitted)
    );
    assert_eq!(
        g.submit_commitment(id, PLAYER_B, [1; 32], vec![0; 5], vec![]),
        Err(GameError::CommitmentAlreadySubmitted)
    );
    assert_eq!(g.get_commitment(id, PLAYER_B).unwrap().hash, [1; 32]);
}

#[test]
fn commitment_with_bad_proof_is_refused() {
    let (mut g, id) = joined();
    assert_eq!(
        g.submit_commitment(id, PLAYER_A, [1; 32], vec![1u8; 64], vec![]),
        Err(GameError::InvalidProof)
    );
    assert!(!g.get_game_state(id).unwrap().commitment_a_submitted);
    assert_eq!(g.get_commitment(id, PLAYER_A).err(), Some(GameError::CommitmentNotSubmitted));
}

#[test]
fn scenario_shots_alternate_turns() {
    let (mut g, id) = active();
    assert_eq!(g.fire_shot(id, PLAYER_A, 3, 5), Ok(0));
    assert_eq!(g.submit_hit_proof(id, PLAYER_B, 0, 0, valid_proof()), Ok(None));
    let s = g.get_game_state(id).unwrap();
    assert_eq!(s.current_turn, Some(PLAYER_B));
    assert_eq!(s.hits_a, 0);
    assert_eq!(g.get_shot(id, PLAYER_A, 0).unwrap().result, 0);

    assert_eq!(g.fire_shot(id, PLAYER_B, 3, 5), Ok(0));
    assert_eq!(g.submit_hit_proof(id, PLAYER_A, 0, 1, valid_proof()), Ok(None));
    let s = g.get_game_state(id).unwrap();
    assert_eq!(s.hits_b, 1);
    assert_eq!(s.hits_a, 0);
    assert_eq!(s.current_turn, Some(PLAYER_A));
    let shot = g.get_shot(id, PLAYER_B, 0).unwrap();
    assert_eq!((shot.row, shot.col, shot.result), (3, 5, 1));
    assert_eq!(shot.proof, Some(valid_proof()));
    assert_eq!(g.get_shot_count(id, PLAYER_A), Ok(1));
    assert_eq!(g.get_shot_count(id, PLAYER_B), Ok(1));
}

#[test]
fn scenario_seventeen_hits_win() {
    let (mut g, id) = active();
    for k in 0..17u32 {
        let (row, col) = (k / 10, k % 10);
        assert_eq!(g.fire_shot(id, PLAYER_A, row, col), Ok(k));
        let outcome = g.submit_hit_proof(id, PLAYER_B, k, 1, valid_proof()).unwrap();
        if k < 16 {
            assert_eq!(outcome, None);
            assert_eq!(g.fire_shot(id, PLAYER_B, row, col), Ok(k));
            assert_eq!(g.submit_hit_proof(id, PLAYER_A, k, 0, valid_proof()), Ok(None));
        } else {
            assert_eq!(outcome, Some(HubCall::EndGame { session_id: 1, winner: PLAYER_A }));
        }
    }
    let s = g.get_game_state(id).unwrap();
    assert_eq!(s.status, GameStatus::Finished);
    assert_eq!(s.winner, Some(PLAYER_A));
    assert_eq!(s.hits_a, 17);
    assert_eq!(s.current_turn, None);
    assert_eq!(g.end_game(id, PLAYER_B), Err(GameError::NotAuthorized));
    assert_eq!(g.end_game(id, PLAYER_A), Ok(HubCall::EndGame { session_id: 1, winner: PLAYER_A }));
    assert_eq!(g.fire_shot(id, PLAYER_A, 9, 9), Err(GameError::GameNotActive));
}

#[test]
fn end_game_before_finish_is_refused() {
    let (g, id) = active();
    assert_eq!(g.end_game(id, PLAYER_A), Err(GameError::InvalidGameStatus));
}

#[test]
fn off_board_shots_are_refused() {
    let (mut g, id) = active();
    assert_eq!(g.fire_shot(id, PLAYER_A, 10, 0), Err(GameError::InvalidCell));
    assert_eq!(g.fire_shot(id, PLAYER_A, 0, 10), Err(GameError::InvalidCell));
    assert_eq!(g.fire_shot(id, PLAYER_A, u32::MAX, 3), Err(GameError::InvalidCell));
    assert_eq!(g.get_shot_count(id, PLAYER_A), Ok(0));
    assert_eq!(g.fire_shot(id, PLAYER_A, 9, 9), Ok(0));
}

#[test]
fn repeated_cell_is_refused() {
    let (mut g, id) = active();
    assert_eq!(g.fire_shot(id, PLAYER_A, 4, 4), Ok(0));
    assert_eq!(g.fire_shot(id, PLAYER_A, 4, 4), Err(GameError::CellAlreadyFired));
    assert_eq!(g.fire_shot(id, PLAYER_A, 4, 5), Ok(1));
    assert_eq!(g.get_shot_count(id, PLAYER_A), Ok(2));
}

#[test]
fn shots_out_of_turn_are_refused() {
    let (mut g, id) = active();
    assert_eq!(g.fire_shot(id, PLAYER_B, 0, 0), Err(GameError::NotYourTurn));
    assert_eq!(g.fire_shot(id, STRANGER, 0, 0), Err(GameError::NotYourTurn));
}

#[test]
fn shots_before_activation_are_refused() {
    let (mut g, id) = joined();
    assert_eq!(g.fire_shot(id, PLAYER_A, 0, 0), Err(GameError::GameNotActive));
    assert_eq!(
        g.submit_hit_proof(id, PLAYER_B, 0, 0, valid_proof()),
        Err(GameError::GameNotActive)
    );
}

#[test]
fn hit_proof_errors() {
    let (mut g, id) = active();
    assert_eq!(
        g.submit_hit_proof(id, STRANGER, 0, 0, valid_proof()),
        Err(GameError::NotAuthorized)
    );
    assert_eq!(
        g.submit_hit_proof(id, PLAYER_A, 0, 0, valid_proof()),
        Err(GameError::NotYourTurn)
    );
    assert_eq!(
        g.submit_hit_proof(id, PLAYER_B, 0, 0, valid_proof()),
        Err(GameError::ShotNotFound)
    );
    g.fire_shot(id, PLAYER_A, 1, 1).unwrap();
    assert_eq!(
        g.submit_hit_proof(id, PLAYER_B, 0, 1, vec![1u8; 100]),
        Err(GameError::InvalidProof)
    );
    assert_eq!(
        g.submit_hit_proof(id, PLAYER_B, 0, 2, valid_proof()),
        Err(GameError::InvalidProof)
    );
    assert_eq!(g.get_shot(id, PLAYER_A, 0).unwrap().result, 255);
    assert_eq!(g.get_game_state(id).unwrap().current_turn, Some(PLAYER_A));
}

#[test]
fn resolved_shot_cannot_be_resolved_again() {
    let (mut g, id) = active();
    g.fire_shot(id, PLAYER_A, 2, 2).unwrap();
    g.fire_shot(id, PLAYER_A, 2, 3).unwrap();
    assert_eq!(g.submit_hit_proof(id, PLAYER_B, 0, 1, valid_proof()), Ok(None));
    assert_eq!(
        g.submit_hit_proof(id, PLAYER_B, 0, 0, valid_proof()),
        Err(GameError::NotYourTurn)
    );
    g.fire_shot(id, PLAYER_B, 0, 0).unwrap();
    assert_eq!(g.submit_hit_proof(id, PLAYER_A, 0, 0, valid_proof()), Ok(None));
    assert_eq!(
        g.submit_hit_proof(id, PLAYER_B, 0, 0, valid_proof()),
        Err(GameError::ReplayAttack)
    );
    assert_eq!(g.get_shot(id, PLAYER_A, 0).unwrap().result, 1);
    assert_eq!(g.get_game_state(id).unwrap().hits_a, 1);
    assert_eq!(g.submit_hit_proof(id, PLAYER_B, 1, 0, valid_proof()), Ok(None));
}

#[test]
fn missing_shot_queries() {
    let (g, id) = active();
    assert_eq!(g.get_shot(id, PLAYER_A, 0).err(), Some(GameError::ShotNotFound));
    assert_eq!(g.get_shot(99, PLAYER_A, 0).err(), Some(GameError::ShotNotFound));
    assert_eq!(g.get_shot_count(99, PLAYER_A), Err(GameError::GameNotFound));
    assert_eq!(g.get_shot_count(id, STRANGER), Err(GameError::ShotNotFound));
    assert_eq!(g.get_commitment(99, PLAYER_A).err(), Some(GameError::GameNotFound));
    assert_eq!(g.get_commitment(id, STRANGER).err(), Some(GameError::CommitmentNotSubmitted));
}

#[test]
fn session_id_keeps_low_32_bits() {
    assert_eq!(hub_session_id(7), 7);
    assert_eq!(hub_session_id(0x1_0000_0005), 5);
    assert_eq!(hub_session_id(u64::MAX), u32::MAX);
}
