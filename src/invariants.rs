//! Facts about the game that hold across its operations.
use vstd::prelude::*;
use crate::game::{
    has_committed, hit_count, hits_of, is_player, opponent, resolved_state, shots_by, Address,
    BattleshipGame, GameError, GameState, GameStatus, BOARD_SIZE, RESULT_HIT, RESULT_MISS,
    RESULT_PENDING, TOTAL_SHIP_CELLS,
};
use crate::game::record_wf;

verus! {

/// In every game of a well-formed store, a player is on turn exactly while
/// the game is active.
pub proof fn lemma_turn_iff_active(g: BattleshipGame, id: u64)
    requires
        g.wf(),
        g.has_game(id),
    ensures
        g.game(id).state.current_turn.is_some() <==> g.game(id).state.status == GameStatus::Active,
{
    assert(record_wf(g.games@[id - 1], id as int));
}

/// Each player's hit counter is the number of that player's shots resolved
/// as hits, and never exceeds the number of ship cells.
pub proof fn lemma_hits_match_ledger(g: BattleshipGame, id: u64)
    requires
        g.wf(),
        g.has_game(id),
    ensures
        g.game(id).state.hits_a == hit_count(g.game(id).shots_a@),
        g.game(id).state.hits_b == hit_count(g.game(id).shots_b@),
        g.game(id).state.hits_a <= TOTAL_SHIP_CELLS,
        g.game(id).state.hits_b <= TOTAL_SHIP_CELLS,
{
    assert(record_wf(g.games@[id - 1], id as int));
}

/// Once a shot is resolved, every further attempt to resolve it fails; one
/// that gets past the checks of status, player and turn fails as a replay.
pub proof fn lemma_resolution_is_final(
    g: BattleshipGame,
    id: u64,
    defender: Address,
    index: u32,
    result: u32,
    proof: Seq<u8>,
)
    requires
        g.wf(),
        g.has_game(id),
        index < shots_by(g.game(id), opponent(g.game(id).state, defender)).len(),
        shots_by(g.game(id), opponent(g.game(id).state, defender))[index as int].result
            != RESULT_PENDING,
    ensures
        g.hit_error(id, defender, index, result, proof).is_some(),
        g.game(id).state.status == GameStatus::Active && is_player(g.game(id).state, defender)
            && g.game(id).state.current_turn == Some(opponent(g.game(id).state, defender))
            ==> g.hit_error(id, defender, index, result, proof) == Some(GameError::ReplayAttack),
{
}

/// A shot is only ever resolved from pending, and only to a miss or a hit.
pub proof fn lemma_resolution_from_pending(
    g: BattleshipGame,
    id: u64,
    defender: Address,
    index: u32,
    result: u32,
    proof: Seq<u8>,
)
    requires
        g.wf(),
        g.hit_error(id, defender, index, result, proof).is_none(),
    ensures
        shots_by(g.game(id), opponent(g.game(id).state, defender))[index as int].result
            == RESULT_PENDING,
        result == RESULT_MISS || result == RESULT_HIT,
{
}

/// No two shots of one attacker in one game share a cell.
pub proof fn lemma_no_repeated_cell(g: BattleshipGame, id: u64, attacker: Address, i: int, j: int)
    requires
        g.wf(),
        g.has_game(id),
        0 <= i < j < shots_by(g.game(id), attacker).len(),
    ensures
        !(shots_by(g.game(id), attacker)[i].row == shots_by(g.game(id), attacker)[j].row
            && shots_by(g.game(id), attacker)[i].col == shots_by(g.game(id), attacker)[j].col),
{
    assert(record_wf(g.games@[id - 1], id as int));
}

/// A shot at a cell already fired at by the same attacker is refused.
pub proof fn lemma_repeated_cell_rejected(
    g: BattleshipGame,
    id: u64,
    attacker: Address,
    i: int,
)
    requires
        g.wf(),
        g.has_game(id),
        g.game(id).state.status == GameStatus::Active,
        g.game(id).state.current_turn == Some(attacker),
        0 <= i < shots_by(g.game(id), attacker).len(),
    ensures
        g.fire_error(
            id,
            attacker,
            shots_by(g.game(id), attacker)[i].row,
            shots_by(g.game(id), attacker)[i].col,
        ) == Some(GameError::CellAlreadyFired),
{
    assert(record_wf(g.games@[id - 1], id as int));
    let shots = shots_by(g.game(id), attacker);
    assert(shots[i].row < BOARD_SIZE && shots[i].col < BOARD_SIZE);
}

/// While the game goes on, resolving a shot hands the turn from the
/// attacker to the other player.
pub proof fn lemma_turn_alternates(s: GameState, defender: Address, result: u32)
    requires
        is_player(s, defender),
        s.player_b.is_some(),
        s.player_b.unwrap() != s.player_a,
        s.current_turn == Some(opponent(s, defender)),
        resolved_state(s, opponent(s, defender), defender, result).status != GameStatus::Finished,
    ensures
        resolved_state(s, opponent(s, defender), defender, result).current_turn == Some(
            opponent(s, s.current_turn.unwrap()),
        ),
{
}

/// A game finishes exactly when the attacker's hit count first reaches the
/// number of ship cells, and the attacker is then the winner.
pub proof fn lemma_finish_at_last_ship_cell(s: GameState, defender: Address, result: u32)
    requires
        is_player(s, defender),
        s.player_b.is_some(),
        s.player_b.unwrap() != s.player_a,
        s.status == GameStatus::Active,
        s.hits_a < TOTAL_SHIP_CELLS,
        s.hits_b < TOTAL_SHIP_CELLS,
    ensures
        ({
            let attacker = opponent(s, defender);
            let t = resolved_state(s, attacker, defender, result);
            &&& t.status == GameStatus::Finished <==> hits_of(t, attacker) == TOTAL_SHIP_CELLS
            &&& t.status == GameStatus::Finished ==> t.winner == Some(attacker) && hits_of(
                s,
                attacker,
            ) == TOTAL_SHIP_CELLS - 1 && result == RESULT_HIT
            &&& t.status != GameStatus::Finished ==> t.status == GameStatus::Active
        }),
{
}

/// A player who has committed a board can never submit another for the same
/// game; while commitments are open the refusal says so.
pub proof fn lemma_commitment_once(
    g: BattleshipGame,
    id: u64,
    player: Address,
    hash: Seq<u8>,
    proof: Seq<u8>,
)
    requires
        g.wf(),
        g.has_game(id),
        has_committed(g.game(id), player),
    ensures
        g.commit_error(id, player, hash, proof).is_some(),
        g.game(id).state.status == GameStatus::CommitmentPhase ==> g.commit_error(
            id,
            player,
            hash,
            proof,
        ) == Some(GameError::CommitmentAlreadySubmitted),
{
}

/// A shot off the board is refused as such whenever the attacker may fire.
pub proof fn lemma_off_board_rejected(
    g: BattleshipGame,
    id: u64,
    attacker: Address,
    row: u32,
    col: u32,
)
    requires
        g.has_game(id),
        g.game(id).state.status == GameStatus::Active,
        g.game(id).state.current_turn == Some(attacker),
        row >= BOARD_SIZE || col >= BOARD_SIZE,
    ensures
        g.fire_error(id, attacker, row, col) == Some(GameError::InvalidCell),
{
}

/// A shot on the board at a fresh cell is accepted whenever the attacker may
/// fire.
pub proof fn lemma_fresh_cell_accepted(
    g: BattleshipGame,
    id: u64,
    attacker: Address,
    row: u32,
    col: u32,
)
    requires
        g.has_game(id),
        g.game(id).state.status == GameStatus::Active,
        g.game(id).state.current_turn == Some(attacker),
        row < BOARD_SIZE,
        col < BOARD_SIZE,
        forall|i: int|
            0 <= i < shots_by(g.game(id), attacker).len() ==> !(#[trigger] shots_by(
                g.game(id),
                attacker,
            )[i].row == row && shots_by(g.game(id), attacker)[i].col == col),
    ensures
        g.fire_error(id, attacker, row, col).is_none(),
{
}

} // verus!
