//! The game lifecycle: creation, joining, board commitments, shots, hit
//! proofs and win detection.
//!
//! Games live in a `BattleshipGame` store; the game with identifier `k` is the
//! `k`-th one created. Each operation either fails with a `GameError` and
//! leaves the store as it was, or applies all of its writes. Operations that
//! must be reported to the external score registry return the `HubCall` that
//! the host then makes.
use vstd::prelude::*;
use crate::codec::cell_index;
use vstd::set_lib::{lemma_int_range, lemma_len_subset, set_int_range};
use crate::groth16::{board_proof_accepted, hit_proof_accepted, Bn254Verifier, PROOF_SIZE};

verus! {

/// Ship cells on a board (5 + 4 + 3 + 3 + 2): the hits that win a game.
pub const TOTAL_SHIP_CELLS: u32 = 17;

/// Rows and columns of a board.
pub const BOARD_SIZE: u32 = 10;

/// Result of a shot whose hit proof has not come in yet.
pub const RESULT_PENDING: u32 = 255;

/// Result of a shot that found water.
pub const RESULT_MISS: u32 = 0;

/// Result of a shot that found a ship cell.
pub const RESULT_HIT: u32 = 1;

/// Identity of a participant: a player, an administrator or a contract.
#[derive(Clone, Copy, Debug, PartialEq, Eq, Structural)]
pub struct Address {
    pub id: u64,
}

/// Why an operation was refused.
#[derive(Clone, Copy, Debug, PartialEq, Eq, Structural)]
pub enum GameError {
    NotInitialized,
    AlreadyInitialized,
    GameNotFound,
    GameAlreadyExists,
    NotAuthorized,
    InvalidGameStatus,
    AlreadyJoined,
    CommitmentAlreadySubmitted,
    CommitmentNotSubmitted,
    ProofAlreadySubmitted,
    ProofNotVerified,
    NotYourTurn,
    InvalidCell,
    CellAlreadyFired,
    ShotNotFound,
    GameNotActive,
    InvalidProof,
    SelfPlay,
    MissingOpponent,
    BoardProofRequired,
    ReplayAttack,
}

/// Lifecycle of a game.
#[derive(Clone, Copy, Debug, PartialEq, Eq, Structural)]
pub enum GameStatus {
    /// Created, waiting for the second player.
    WaitingForOpponent,
    /// Both players are in; board commitments are being submitted.
    CommitmentPhase,
    /// Both boards are committed; shots are being fired.
    Active,
    /// A player has sunk every ship cell of the other.
    Finished,
    /// Abandoned.
    Cancelled,
}

/// The public state of one game.
#[derive(Clone, Copy, Debug, PartialEq, Eq, Structural)]
pub struct GameState {
    pub game_id: u64,
    pub player_a: Address,
    pub player_b: Option<Address>,
    pub status: GameStatus,
    /// The player who fires next; set exactly while the game is active.
    pub current_turn: Option<Address>,
    /// Hits player A has landed on player B's board.
    pub hits_a: u32,
    /// Hits player B has landed on player A's board.
    pub hits_b: u32,
    pub total_ship_cells: u32,
    pub commitment_a_submitted: bool,
    pub commitment_b_submitted: bool,
    pub proof_a_verified: bool,
    pub proof_b_verified: bool,
    pub winner: Option<Address>,
    /// The reference under which the score registry knows this game.
    pub hub_game_id: Option<u64>,
    /// Ledger sequence at creation.
    pub created_at: u32,
}

/// One shot, fired at (`row`, `col`) of the opponent's board.
#[derive(Debug)]
pub struct ShotRecord {
    pub row: u32,
    pub col: u32,
    /// `RESULT_PENDING`, then `RESULT_MISS` or `RESULT_HIT` once resolved.
    pub result: u32,
    /// The hit proof that resolved the shot.
    pub proof: Option<Vec<u8>>,
}

/// A player's commitment to a secret board, with its validity proof.
#[derive(Debug)]
pub struct BoardCommitment {
    pub hash: [u8; 32],
    pub proof: Vec<u8>,
    pub public_inputs: Vec<u8>,
}

/// Everything stored about one game.
#[derive(Debug)]
pub struct GameRecord {
    pub state: GameState,
    pub commitment_a: Option<BoardCommitment>,
    pub commitment_b: Option<BoardCommitment>,
    /// Shots fired by player A, in firing order.
    pub shots_a: Vec<ShotRecord>,
    /// Shots fired by player B, in firing order.
    pub shots_b: Vec<ShotRecord>,
}

/// A notification owed to the external score registry.
#[derive(Clone, Copy, Debug, PartialEq, Eq, Structural)]
pub enum HubCall {
    /// A session starts between two players, with zero points each.
    StartGame { session_id: u32, player_a: Address, player_b: Address },
    /// A session ends with a winner.
    EndGame { session_id: u32, winner: Address },
}

/// The store of all games, and the configuration set at initialization.
pub struct BattleshipGame {
    pub admin: Option<Address>,
    pub verifier_contract: Option<Address>,
    pub hub_contract: Option<Address>,
    /// The game with identifier `k` is at index `k - 1`.
    pub games: Vec<GameRecord>,
}

/// Whether `p` is one of the game's two players.
pub open spec fn is_player(s: GameState, p: Address) -> bool {
    s.player_a == p || s.player_b == Some(p)
}

/// The other player of the game.
pub open spec fn opponent(s: GameState, p: Address) -> Address {
    if p == s.player_a {
        s.player_b.unwrap()
    } else {
        s.player_a
    }
}

/// Whether the shots lie on the board, hold a known result, and never repeat
/// a cell.
pub open spec fn shots_wf(shots: Seq<ShotRecord>) -> bool {
    &&& shots.len() <= 100
    &&& forall|i: int|
        0 <= i < shots.len() ==> {
            &&& #[trigger] shots[i].row < BOARD_SIZE
            &&& shots[i].col < BOARD_SIZE
            &&& (shots[i].result == RESULT_PENDING || shots[i].result == RESULT_MISS
                || shots[i].result == RESULT_HIT)
        }
    &&& forall|i: int, j: int|
        0 <= i < j < shots.len() ==> !(#[trigger] shots[i].row == #[trigger] shots[j].row
            && shots[i].col == shots[j].col)
}

/// Whether some shot was fired at (`row`, `col`).
pub open spec fn fired_at(shots: Seq<ShotRecord>, row: u32, col: u32) -> bool {
    exists|i: int| 0 <= i < shots.len() && #[trigger] shots[i].row == row && shots[i].col == col
}

/// The invariant of the record of game `id`.
pub open spec fn record_wf(r: GameRecord, id: int) -> bool {
    let s = r.state;
    &&& s.game_id == id
    &&& s.total_ship_cells == TOTAL_SHIP_CELLS
    &&& (s.status == GameStatus::WaitingForOpponent) == s.player_b.is_none()
    &&& (s.player_b.is_some() ==> s.player_b.unwrap() != s.player_a)
    &&& s.hub_game_id == (if s.player_b.is_some() {
        Some(id as u64)
    } else {
        None
    })
    &&& s.current_turn.is_some() == (s.status == GameStatus::Active)
    &&& (s.current_turn.is_some() ==> is_player(s, s.current_turn.unwrap()))
    &&& s.winner.is_some() == (s.status == GameStatus::Finished)
    &&& s.commitment_a_submitted == r.commitment_a.is_some()
    &&& s.commitment_b_submitted == r.commitment_b.is_some()
    &&& s.proof_a_verified == s.commitment_a_submitted
    &&& s.proof_b_verified == s.commitment_b_submitted
    &&& (s.status == GameStatus::WaitingForOpponent ==> !s.commitment_a_submitted
        && !s.commitment_b_submitted)
    &&& (s.status == GameStatus::CommitmentPhase ==> !(s.commitment_a_submitted
        && s.commitment_b_submitted))
    &&& (s.status == GameStatus::Active || s.status == GameStatus::Finished
        ==> s.commitment_a_submitted && s.commitment_b_submitted)
    &&& (s.status == GameStatus::WaitingForOpponent || s.status == GameStatus::CommitmentPhase
        ==> s.hits_a == 0 && s.hits_b == 0)
    &&& s.hits_a <= TOTAL_SHIP_CELLS
    &&& s.hits_b <= TOTAL_SHIP_CELLS
    &&& (s.status == GameStatus::Active ==> s.hits_a < TOTAL_SHIP_CELLS && s.hits_b
        < TOTAL_SHIP_CELLS)
    &&& (s.status == GameStatus::Finished ==> (s.winner == Some(s.player_a) && s.hits_a
        == TOTAL_SHIP_CELLS) || (s.winner == s.player_b && s.hits_b == TOTAL_SHIP_CELLS))
    &&& shots_wf(r.shots_a@)
    &&& shots_wf(r.shots_b@)
    &&& s.hits_a == hit_count(r.shots_a@)
    &&& s.hits_b == hit_count(r.shots_b@)
}

/// The shots fired by `p` in the game of record `r`.
pub open spec fn shots_by(r: GameRecord, p: Address) -> Seq<ShotRecord> {
    if p == r.state.player_a {
        r.shots_a@
    } else if r.state.player_b == Some(p) {
        r.shots_b@
    } else {
        Seq::empty()
    }
}

/// The board commitment of `p` in the game of record `r`.
pub open spec fn commitment_by(r: GameRecord, p: Address) -> Option<BoardCommitment> {
    if p == r.state.player_a {
        r.commitment_a
    } else if r.state.player_b == Some(p) {
        r.commitment_b
    } else {
        None
    }
}

/// Whether `p` has a commitment in the game of record `r`.
pub open spec fn has_committed(r: GameRecord, p: Address) -> bool {
    (p == r.state.player_a && r.state.commitment_a_submitted) || (r.state.player_b == Some(p)
        && r.state.commitment_b_submitted)
}

/// The state after `player_b` joins.
pub open spec fn joined_state(s: GameState, player_b: Address) -> GameState {
    GameState {
        player_b: Some(player_b),
        status: GameStatus::CommitmentPhase,
        hub_game_id: Some(s.game_id),
        ..s
    }
}

/// The state after `player`'s commitment is accepted: the game becomes
/// active, with player A to fire first, once both players have committed.
pub open spec fn committed_state(s: GameState, player: Address) -> GameState {
    let s1 = if player == s.player_a {
        GameState { commitment_a_submitted: true, proof_a_verified: true, ..s }
    } else {
        GameState { commitment_b_submitted: true, proof_b_verified: true, ..s }
    };
    if s1.commitment_a_submitted && s1.commitment_b_submitted {
        GameState { status: GameStatus::Active, current_turn: Some(s.player_a), ..s1 }
    } else {
        s1
    }
}

/// The state after a hit proof for a shot of `attacker` is accepted: a hit
/// counts for the attacker; at the last ship cell the attacker wins, else
/// the turn passes to `defender`.
pub open spec fn resolved_state(s: GameState, attacker: Address, defender: Address, result: u32) -> GameState {
    let gained: int = if result == RESULT_HIT {
        1
    } else {
        0
    };
    let s1 = if attacker == s.player_a {
        GameState { hits_a: (s.hits_a + gained) as u32, ..s }
    } else {
        GameState { hits_b: (s.hits_b + gained) as u32, ..s }
    };
    if hits_of(s1, attacker) >= TOTAL_SHIP_CELLS {
        GameState {
            status: GameStatus::Finished,
            winner: Some(attacker),
            current_turn: None,
            ..s1
        }
    } else {
        GameState { current_turn: Some(defender), ..s1 }
    }
}

/// The hits that `p` has landed.
pub open spec fn hits_of(s: GameState, p: Address) -> u32 {
    if p == s.player_a {
        s.hits_a
    } else {
        s.hits_b
    }
}

/// A fresh game of `player_a`, with identifier `id`.
pub open spec fn new_game_state(id: u64, player_a: Address, created_at: u32) -> GameState {
    GameState {
        game_id: id,
        player_a,
        player_b: None,
        status: GameStatus::WaitingForOpponent,
        current_turn: None,
        hits_a: 0,
        hits_b: 0,
        total_ship_cells: TOTAL_SHIP_CELLS,
        commitment_a_submitted: false,
        commitment_b_submitted: false,
        proof_a_verified: false,
        proof_b_verified: false,
        winner: None,
        hub_game_id: None,
        created_at,
    }
}

/// The session identifier the score registry uses for game `game_id`: its
/// low 32 bits.
pub open spec fn session_of(game_id: u64) -> u32 {
    (game_id % 0x1_0000_0000) as u32
}

/// Truncates a game identifier to the score registry's session identifier.
pub fn hub_session_id(game_id: u64) -> (r: u32)
    ensures
        r == session_of(game_id),
{
    (game_id % 0x1_0000_0000) as u32
}

/// How many of the shots found a ship cell.
pub open spec fn hit_count(shots: Seq<ShotRecord>) -> nat
    decreases shots.len(),
{
    if shots.len() == 0 {
        0
    } else {
        hit_count(shots.drop_last()) + if shots.last().result == RESULT_HIT {
            1nat
        } else {
            0nat
        }
    }
}

/// Appending a shot adds one to the hit count exactly when it is a hit.
proof fn lemma_hit_count_push(shots: Seq<ShotRecord>, x: ShotRecord)
    ensures
        hit_count(shots.push(x)) == hit_count(shots) + if x.result == RESULT_HIT {
            1nat
        } else {
            0nat
        },
{
    assert(shots.push(x).drop_last() =~= shots);
}

/// Replacing a shot changes the hit count by what the two shots differ in.
proof fn lemma_hit_count_update(shots: Seq<ShotRecord>, i: int, x: ShotRecord)
    requires
        0 <= i < shots.len(),
    ensures
        hit_count(shots.update(i, x)) + (if shots[i].result == RESULT_HIT {
            1nat
        } else {
            0nat
        }) == hit_count(shots) + (if x.result == RESULT_HIT {
            1nat
        } else {
            0nat
        }),
    decreases shots.len(),
{
    let u = shots.update(i, x);
    if i == shots.len() - 1 {
        assert(u.drop_last() =~= shots.drop_last());
    } else {
        assert(u.drop_last() =~= shots.drop_last().update(i, x));
        lemma_hit_count_update(shots.drop_last(), i, x);
    }
}

/// Resolving a shot in place keeps the shots well formed.
proof fn lemma_resolve_keeps_shots_wf(shots: Seq<ShotRecord>, i: int, x: ShotRecord)
    requires
        shots_wf(shots),
        0 <= i < shots.len(),
        x.row == shots[i].row,
        x.col == shots[i].col,
        x.result == RESULT_MISS || x.result == RESULT_HIT,
    ensures
        shots_wf(shots.update(i, x)),
{
    let u = shots.update(i, x);
    assert forall|k: int| 0 <= k < u.len() implies #[trigger] u[k].row < BOARD_SIZE && u[k].col
        < BOARD_SIZE && (u[k].result == RESULT_PENDING || u[k].result == RESULT_MISS
        || u[k].result == RESULT_HIT) by {
        if k != i {
            assert(u[k] == shots[k]);
        }
    }
    assert forall|k: int, j: int| 0 <= k < j < u.len() implies !(#[trigger] u[k].row
        == #[trigger] u[j].row && u[k].col == u[j].col) by {
        assert(u[k].row == shots[k].row && u[k].col == shots[k].col);
        assert(u[j].row == shots[j].row && u[j].col == shots[j].col);
    }
}

/// Distinct cells of a 10 x 10 board have distinct indices.
proof fn lemma_cell_index_injective(r1: u32, c1: u32, r2: u32, c2: u32)
    requires
        c1 < BOARD_SIZE,
        c2 < BOARD_SIZE,
        cell_index(r1, c1) == cell_index(r2, c2),
    ensures
        r1 == r2,
        c1 == c2,
{
    assert(r1 == r2 && c1 == c2) by (nonlinear_arith)
        requires
            c1 < 10,
            c2 < 10,
            r1 * 10 + c1 == r2 * 10 + c2,
    ;
}

/// A cell of a 10 x 10 board has an index below 100.
proof fn lemma_cell_index_bound(r: u32, c: u32)
    requires
        r < BOARD_SIZE,
        c < BOARD_SIZE,
    ensures
        0 <= cell_index(r, c) < 100,
{
    assert(0 <= r * 10 + c < 100) by (nonlinear_arith)
        requires
            r < 10,
            c < 10,
    ;
}

/// Shots at pairwise distinct cells of the board number at most 100.
proof fn lemma_distinct_shots_bounded(shots: Seq<ShotRecord>)
    requires
        forall|i: int|
            0 <= i < shots.len() ==> #[trigger] shots[i].row < BOARD_SIZE && shots[i].col
                < BOARD_SIZE,
        forall|i: int, j: int|
            0 <= i < j < shots.len() ==> !(#[trigger] shots[i].row == #[trigger] shots[j].row
                && shots[i].col == shots[j].col),
    ensures
        shots.len() <= 100,
{
    let cells = Seq::new(shots.len(), |i: int| cell_index(shots[i].row, shots[i].col));
    assert forall|i: int, j: int| 0 <= i < cells.len() && 0 <= j < cells.len() && i != j implies
        cells[i] != cells[j] by {
        if cells[i] == cells[j] {
            lemma_cell_index_injective(shots[i].row, shots[i].col, shots[j].row, shots[j].col);
            if i < j {
                assert(shots[i].row == shots[j].row);
            } else {
                assert(shots[j].row == shots[i].row);
            }
        }
    }
    assert(cells.no_duplicates());
    cells.unique_seq_to_set();
    assert forall|x: int| cells.to_set().contains(x) implies set_int_range(0, 100).contains(x) by {
        assert(cells.contains(x));
        let i = choose|i: int| 0 <= i < cells.len() && cells[i] == x;
        lemma_cell_index_bound(shots[i].row, shots[i].col);
    }
    lemma_int_range(0, 100);
    lemma_len_subset(cells.to_set(), set_int_range(0, 100));
}

/// Whether a shot in `shots` was fired at (`row`, `col`).
fn already_fired(shots: &Vec<ShotRecord>, row: u32, col: u32) -> (r: bool)
    ensures
        r == fired_at(shots@, row, col),
{
    let mut i: usize = 0;
    while i < shots.len()
        invariant
            i <= shots@.len(),
            forall|k: int| 0 <= k < i ==> !(#[trigger] shots@[k].row == row && shots@[k].col == col),
        decreases shots@.len() - i,
    {
        if shots[i].row == row && shots[i].col == col {
            return true;
        }
        i = i + 1;
    }
    false
}

/// A copy of `bytes`.
fn copy_bytes(bytes: &Vec<u8>) -> (r: Vec<u8>)
    ensures
        r@ == bytes@,
{
    let mut out: Vec<u8> = Vec::new();
    let mut i: usize = 0;
    while i < bytes.len()
        invariant
            i <= bytes@.len(),
            out@ =~= bytes@.subrange(0, i as int),
        decreases bytes@.len() - i,
    {
        out.push(bytes[i]);
        i = i + 1;
        assert(out@ =~= bytes@.subrange(0, i as int));
    }
    assert(bytes@.subrange(0, bytes@.len() as int) =~= bytes@);
    out
}

/// Whether `r` holds the same bytes as `s`.
pub open spec fn same_bytes(r: Option<Vec<u8>>, s: Option<Vec<u8>>) -> bool {
    r.is_some() == s.is_some() && (s.is_some() ==> r.unwrap()@ == s.unwrap()@)
}

/// Whether shot `r` is a copy of shot `s`.
pub open spec fn same_shot(r: ShotRecord, s: ShotRecord) -> bool {
    r.row == s.row && r.col == s.col && r.result == s.result && same_bytes(r.proof, s.proof)
}

/// Whether commitment `r` is a copy of commitment `s`.
pub open spec fn same_commitment(r: BoardCommitment, s: BoardCommitment) -> bool {
    r.hash == s.hash && r.proof@ == s.proof@ && r.public_inputs@ == s.public_inputs@
}

/// A copy of `shot`.
fn copy_shot(shot: &ShotRecord) -> (r: ShotRecord)
    ensures
        same_shot(r, *shot),
{
    let proof = match &shot.proof {
        Some(p) => Some(copy_bytes(p)),
        None => None,
    };
    ShotRecord { row: shot.row, col: shot.col, result: shot.result, proof }
}

/// Identifies the board-validity circuit's verification key.
fn board_vk_hash() -> (r: [u8; 32])
    ensures
        r@ == seq![
            0xA1u8, 0xB2, 0xC3, 0xD4, 0xE5, 0xF6, 0x07, 0x18, 0x29, 0x3A, 0x4B, 0x5C, 0x6D, 0x7E,
            0x8F, 0x90, 0x01, 0x12, 0x23, 0x34, 0x45, 0x56, 0x67, 0x78, 0x89, 0x9A, 0xAB, 0xBC,
            0xCD, 0xDE, 0xEF, 0xF0,
        ],
{
    [
        0xA1, 0xB2, 0xC3, 0xD4, 0xE5, 0xF6, 0x07, 0x18, 0x29, 0x3A, 0x4B, 0x5C, 0x6D, 0x7E, 0x8F,
        0x90, 0x01, 0x12, 0x23, 0x34, 0x45, 0x56, 0x67, 0x78, 0x89, 0x9A, 0xAB, 0xBC, 0xCD, 0xDE,
        0xEF, 0xF0,
    ]
}

/// Identifies the hit circuit's verification key.
fn hit_vk_hash() -> (r: [u8; 32])
    ensures
        r@ == seq![
            0x10u8, 0x21, 0x32, 0x43, 0x54, 0x65, 0x76, 0x87, 0x98, 0xA9, 0xBA, 0xCB, 0xDC, 0xED,
            0xFE, 0x0F, 0x20, 0x31, 0x42, 0x53, 0x64, 0x75, 0x86, 0x97, 0xA8, 0xB9, 0xCA, 0xDB,
            0xEC, 0xFD, 0x0E, 0x1F,
        ],
{
    [
        0x10, 0x21, 0x32, 0x43, 0x54, 0x65, 0x76, 0x87, 0x98, 0xA9, 0xBA, 0xCB, 0xDC, 0xED, 0xFE,
        0x0F, 0x20, 0x31, 0x42, 0x53, 0x64, 0x75, 0x86, 0x97, 0xA8, 0xB9, 0xCA, 0xDB, 0xEC, 0xFD,
        0x0E, 0x1F,
    ]
}

impl BattleshipGame {
    /// The invariant of the store.
    pub open spec fn wf(self) -> bool {
        &&& self.games@.len() < u64::MAX
        &&& forall|i: int| 0 <= i < self.games@.len() ==> record_wf(#[trigger] self.games@[i], i + 1)
    }

    /// Whether a game with identifier `id` exists.
    pub open spec fn has_game(self, id: u64) -> bool {
        1 <= id <= self.games@.len()
    }

    /// The record of game `id`.
    pub open spec fn game(self, id: u64) -> GameRecord {
        self.games@[id - 1]
    }

    /// The identifier the next created game gets.
    pub open spec fn next_game_id(self) -> int {
        self.games@.len() + 1int
    }

    /// Whether `initialize` has run.
    pub open spec fn initialized(self) -> bool {
        self.admin.is_some()
    }

    /// An empty, uninitialized store.
    pub fn new() -> (r: Self)
        ensures
            r.wf(),
            !r.initialized(),
            r.games@.len() == 0,
    {
        BattleshipGame { admin: None, verifier_contract: None, hub_contract: None, games: Vec::new() }
    }

    /// Sets the administrator and the addresses of the verifier and of the
    /// score registry. Runs once.
    pub fn initialize(
        &mut self,
        admin: Address,
        verifier_contract: Address,
        game_hub_contract: Address,
    ) -> (r: Result<(), GameError>)
        requires
            old(self).wf(),
        ensures
            final(self).wf(),
            r is Err <==> old(self).initialized(),
            r is Err ==> r == Err::<(), GameError>(GameError::AlreadyInitialized) && *final(self)
                == *old(self),
            r is Ok ==> final(self).admin == Some(admin) && final(self).verifier_contract == Some(
                verifier_contract,
            ) && final(self).hub_contract == Some(game_hub_contract) && final(self).games
                == old(self).games,
    {
        if self.admin.is_some() {
            return Err(GameError::AlreadyInitialized);
        }
        self.admin = Some(admin);
        self.verifier_contract = Some(verifier_contract);
        self.hub_contract = Some(game_hub_contract);
        Ok(())
    }

    /// Why `create_game` is refused, if it is: before initialization, or
    /// once every identifier has been handed out.
    pub open spec fn create_error(self) -> Option<GameError> {
        if !self.initialized() {
            Some(GameError::NotInitialized)
        } else if self.next_game_id() >= u64::MAX {
            Some(GameError::GameAlreadyExists)
        } else {
            None
        }
    }

    /// Creates a game of `player_a` at ledger sequence `created_at`, waiting
    /// for an opponent. Returns its identifier.
    pub fn create_game(&mut self, player_a: Address, created_at: u32) -> (r: Result<u64, GameError>)
        requires
            old(self).wf(),
        ensures
            final(self).wf(),
            r is Err <==> old(self).create_error().is_some(),
            r is Err ==> r == Err::<u64, GameError>(old(self).create_error().unwrap())
                && *final(self) == *old(self),
            r is Ok ==> {
                &&& r->Ok_0 == old(self).next_game_id()
                &&& final(self).admin == old(self).admin
                &&& final(self).verifier_contract == old(self).verifier_contract
                &&& final(self).hub_contract == old(self).hub_contract
                &&& final(self).games@.len() == old(self).games@.len() + 1
                &&& final(self).games@.drop_last() == old(self).games@
                &&& final(self).game(r->Ok_0).state == new_game_state(r->Ok_0, player_a, created_at)
                &&& final(self).game(r->Ok_0).commitment_a.is_none()
                &&& final(self).game(r->Ok_0).commitment_b.is_none()
                &&& final(self).game(r->Ok_0).shots_a@.len() == 0
                &&& final(self).game(r->Ok_0).shots_b@.len() == 0
            },
    {
        if self.admin.is_none() {
            return Err(GameError::NotInitialized);
        }
        if self.games.len() as u64 >= u64::MAX - 1 {
            return Err(GameError::GameAlreadyExists);
        }
        let game_id = self.games.len() as u64 + 1;
        let state = GameState {
            game_id,
            player_a,
            player_b: None,
            status: GameStatus::WaitingForOpponent,
            current_turn: None,
            hits_a: 0,
            hits_b: 0,
            total_ship_cells: TOTAL_SHIP_CELLS,
            commitment_a_submitted: false,
            commitment_b_submitted: false,
            proof_a_verified: false,
            proof_b_verified: false,
            winner: None,
            hub_game_id: None,
            created_at,
        };
        let record = GameRecord {
            state,
            commitment_a: None,
            commitment_b: None,
            shots_a: Vec::new(),
            shots_b: Vec::new(),
        };
        self.games.push(record);
        assert(self.games@.drop_last() =~= old(self).games@);
        Ok(game_id)
    }

    /// Whether `new` differs from `old` in game `id` alone.
    pub open spec fn others_unchanged(old: Self, new: Self, id: u64) -> bool {
        &&& new.admin == old.admin
        &&& new.verifier_contract == old.verifier_contract
        &&& new.hub_contract == old.hub_contract
        &&& new.games@.len() == old.games@.len()
        &&& forall|j: int|
            0 <= j < old.games@.len() && j != id - 1 ==> #[trigger] new.games@[j] == old.games@[j]
    }

    /// Why `fire_shot` by `attacker` at (`row`, `col`) is refused, if it is.
    pub open spec fn fire_error(self, id: u64, attacker: Address, row: u32, col: u32) -> Option<
        GameError,
    > {
        if !self.has_game(id) {
            Some(GameError::GameNotFound)
        } else if self.game(id).state.status != GameStatus::Active {
            Some(GameError::GameNotActive)
        } else if self.game(id).state.current_turn != Some(attacker) {
            Some(GameError::NotYourTurn)
        } else if row >= BOARD_SIZE || col >= BOARD_SIZE {
            Some(GameError::InvalidCell)
        } else if fired_at(shots_by(self.game(id), attacker), row, col) {
            Some(GameError::CellAlreadyFired)
        } else {
            None
        }
    }

    /// Why `submit_hit_proof` by `defender` for shot `index` is refused, if
    /// it is.
    pub open spec fn hit_error(
        self,
        id: u64,
        defender: Address,
        index: u32,
        result: u32,
        proof: Seq<u8>,
    ) -> Option<GameError> {
        let rec = self.game(id);
        let attacker = opponent(rec.state, defender);
        let shots = shots_by(rec, attacker);
        if !self.has_game(id) {
            Some(GameError::GameNotFound)
        } else if rec.state.status != GameStatus::Active {
            Some(GameError::GameNotActive)
        } else if !is_player(rec.state, defender) {
            Some(GameError::NotAuthorized)
        } else if rec.state.current_turn != Some(attacker) {
            Some(GameError::NotYourTurn)
        } else if index >= shots.len() {
            Some(GameError::ShotNotFound)
        } else if shots[index as int].result != RESULT_PENDING {
            Some(GameError::ReplayAttack)
        } else if !(result == RESULT_MISS || result == RESULT_HIT) || !hit_proof_accepted(
            proof,
            commitment_by(rec, defender).unwrap().hash@,
            shots[index as int].row,
            shots[index as int].col,
            result,
        ) {
            Some(GameError::InvalidProof)
        } else {
            None
        }
    }

    /// Why `join_game(id, player_b)` is refused, if it is.
    pub open spec fn join_error(self, id: u64, player_b: Address) -> Option<GameError> {
        if !self.has_game(id) {
            Some(GameError::GameNotFound)
        } else if self.game(id).state.status != GameStatus::WaitingForOpponent {
            Some(GameError::InvalidGameStatus)
        } else if self.game(id).state.player_a == player_b {
            Some(GameError::SelfPlay)
        } else {
            None
        }
    }

    /// Why `submit_commitment` by `player` with `proof` for the board
    /// committed to by `hash` is refused, if it is.
    pub open spec fn commit_error(self, id: u64, player: Address, hash: Seq<u8>, proof: Seq<u8>) -> Option<
        GameError,
    > {
        if !self.has_game(id) {
            Some(GameError::GameNotFound)
        } else if self.game(id).state.status != GameStatus::CommitmentPhase {
            Some(GameError::InvalidGameStatus)
        } else if !is_player(self.game(id).state, player) {
            Some(GameError::NotAuthorized)
        } else if has_committed(self.game(id), player) {
            Some(GameError::CommitmentAlreadySubmitted)
        } else if !board_proof_accepted(proof, hash) {
            Some(GameError::InvalidProof)
        } else {
            None
        }
    }

    /// The index of game `id` in the store.
    fn find_game(&self, id: u64) -> (r: Result<usize, GameError>)
        ensures
            r is Ok <==> self.has_game(id),
            r is Ok ==> r->Ok_0 == id - 1,
            r is Err ==> r == Err::<usize, GameError>(GameError::GameNotFound),
    {
        if id == 0 || id > self.games.len() as u64 {
            Err(GameError::GameNotFound)
        } else {
            Ok((id - 1) as usize)
        }
    }

    /// `player_b` joins game `game_id`, which moves on to the commitment
    /// phase. Returns the session start owed to the score registry.
    pub fn join_game(&mut self, game_id: u64, player_b: Address) -> (r: Result<HubCall, GameError>)
        requires
            old(self).wf(),
        ensures
            final(self).wf(),
            r is Err <==> old(self).join_error(game_id, player_b).is_some(),
            r is Err ==> r == Err::<HubCall, GameError>(
                old(self).join_error(game_id, player_b).unwrap(),
            ) && *final(self) == *old(self),
            r is Ok ==> {
                &&& r == Ok::<HubCall, GameError>(
                    HubCall::StartGame {
                        session_id: session_of(game_id),
                        player_a: old(self).game(game_id).state.player_a,
                        player_b,
                    },
                )
                &&& final(self).games@ == old(self).games@.update(
                    game_id - 1,
                    GameRecord {
                        state: joined_state(old(self).game(game_id).state, player_b),
                        ..old(self).game(game_id)
                    },
                )
                &&& final(self).admin == old(self).admin
                &&& final(self).verifier_contract == old(self).verifier_contract
                &&& final(self).hub_contract == old(self).hub_contract
            },
    {
        let idx = self.find_game(game_id)?;
        let mut st = self.games[idx].state;
        if st.status != GameStatus::WaitingForOpponent {
            return Err(GameError::InvalidGameStatus);
        }
        if st.player_a == player_b {
            return Err(GameError::SelfPlay);
        }
        st.player_b = Some(player_b);
        st.status = GameStatus::CommitmentPhase;
        st.hub_game_id = Some(game_id);
        let call = HubCall::StartGame {
            session_id: hub_session_id(game_id),
            player_a: st.player_a,
            player_b,
        };
        self.games[idx].state = st;
        assert(record_wf(self.games@[idx as int], idx + 1));
        Ok(call)
    }

    /// `player` commits to a secret board by `commitment_hash`, with a
    /// board-validity `proof`. Once both players have committed the game is
    /// active and player A fires first.
    pub fn submit_commitment(
        &mut self,
        game_id: u64,
        player: Address,
        commitment_hash: [u8; 32],
        proof: Vec<u8>,
        public_inputs: Vec<u8>,
    ) -> (r: Result<(), GameError>)
        requires
            old(self).wf(),
        ensures
            final(self).wf(),
            r is Err <==> old(self).commit_error(game_id, player, commitment_hash@, proof@).is_some(),
            r is Err ==> r == Err::<(), GameError>(
                old(self).commit_error(game_id, player, commitment_hash@, proof@).unwrap(),
            ) && *final(self) == *old(self),
            r is Ok ==> {
                let rec = old(self).game(game_id);
                let c = Some(BoardCommitment { hash: commitment_hash, proof, public_inputs });
                &&& final(self).games@ == old(self).games@.update(
                    game_id - 1,
                    GameRecord {
                        state: committed_state(rec.state, player),
                        commitment_a: if player == rec.state.player_a {
                            c
                        } else {
                            rec.commitment_a
                        },
                        commitment_b: if player == rec.state.player_a {
                            rec.commitment_b
                        } else {
                            c
                        },
                        ..rec
                    },
                )
                &&& has_committed(final(self).game(game_id), player)
                &&& final(self).admin == old(self).admin
                &&& final(self).verifier_contract == old(self).verifier_contract
                &&& final(self).hub_contract == old(self).hub_contract
            },
    {
        let idx = self.find_game(game_id)?;
        let mut st = self.games[idx].state;
        if st.status != GameStatus::CommitmentPhase {
            return Err(GameError::InvalidGameStatus);
        }
        let is_player_a = st.player_a == player;
        let is_player_b = match st.player_b {
            Some(b) => b == player,
            None => false,
        };
        if !is_player_a && !is_player_b {
            return Err(GameError::NotAuthorized);
        }
        if is_player_a && st.commitment_a_submitted {
            return Err(GameError::CommitmentAlreadySubmitted);
        }
        if is_player_b && st.commitment_b_submitted {
            return Err(GameError::CommitmentAlreadySubmitted);
        }
        let verdict = Bn254Verifier::verify_board_proof(&proof, &commitment_hash, &board_vk_hash());
        match verdict {
            Ok(true) => {},
            _ => {
                return Err(GameError::InvalidProof);
            },
        }
        let commitment = BoardCommitment { hash: commitment_hash, proof, public_inputs };
        if is_player_a {
            st.commitment_a_submitted = true;
            st.proof_a_verified = true;
            self.games[idx].commitment_a = Some(commitment);
        } else {
            st.commitment_b_submitted = true;
            st.proof_b_verified = true;
            self.games[idx].commitment_b = Some(commitment);
        }
        if st.commitment_a_submitted && st.commitment_b_submitted {
            st.status = GameStatus::Active;
            st.current_turn = Some(st.player_a);
        }
        self.games[idx].state = st;
        assert(record_wf(self.games@[idx as int], idx + 1));
        Ok(())
    }

    /// `attacker`, whose turn it is, fires at (`target_row`, `target_col`) of
    /// the opponent's board. The shot is recorded as pending; its index among
    /// the attacker's shots is returned.
    pub fn fire_shot(&mut self, game_id: u64, attacker: Address, target_row: u32, target_col: u32) -> (r:
        Result<u32, GameError>)
        requires
            old(self).wf(),
        ensures
            final(self).wf(),
            r is Err <==> old(self).fire_error(game_id, attacker, target_row, target_col).is_some(),
            r is Err ==> r == Err::<u32, GameError>(
                old(self).fire_error(game_id, attacker, target_row, target_col).unwrap(),
            ) && *final(self) == *old(self),
            r is Ok ==> {
                let rec = old(self).game(game_id);
                let new_rec = final(self).game(game_id);
                &&& r->Ok_0 == shots_by(rec, attacker).len()
                &&& shots_by(new_rec, attacker) == shots_by(rec, attacker).push(
                    ShotRecord { row: target_row, col: target_col, result: RESULT_PENDING, proof: None },
                )
                &&& shots_by(new_rec, opponent(rec.state, attacker)) == shots_by(
                    rec,
                    opponent(rec.state, attacker),
                )
                &&& new_rec.state == rec.state
                &&& new_rec.commitment_a == rec.commitment_a
                &&& new_rec.commitment_b == rec.commitment_b
                &&& Self::others_unchanged(*old(self), *final(self), game_id)
            },
    {
        let idx = self.find_game(game_id)?;
        let st = self.games[idx].state;
        if st.status != GameStatus::Active {
            return Err(GameError::GameNotActive);
        }
        let on_turn = match st.current_turn {
            Some(t) => t == attacker,
            None => false,
        };
        if !on_turn {
            return Err(GameError::NotYourTurn);
        }
        if target_row >= BOARD_SIZE || target_col >= BOARD_SIZE {
            return Err(GameError::InvalidCell);
        }
        let is_player_a = attacker == st.player_a;
        let repeated = if is_player_a {
            already_fired(&self.games[idx].shots_a, target_row, target_col)
        } else {
            already_fired(&self.games[idx].shots_b, target_row, target_col)
        };
        if repeated {
            return Err(GameError::CellAlreadyFired);
        }
        let shot = ShotRecord { row: target_row, col: target_col, result: RESULT_PENDING, proof: None };
        let ghost before = if is_player_a {
            self.games@[idx as int].shots_a@
        } else {
            self.games@[idx as int].shots_b@
        };
        let ghost after = before.push(shot);
        proof {
            assert forall|i: int, j: int| 0 <= i < j < after.len() implies !(
            #[trigger] after[i].row == #[trigger] after[j].row && after[i].col == after[j].col) by {
                if j == before.len() {
                    if after[i].row == after[j].row && after[i].col == after[j].col {
                        assert(before[i].row == target_row && before[i].col == target_col);
                    }
                } else {
                    assert(before[i] == after[i] && before[j] == after[j]);
                }
            }
            assert forall|i: int| 0 <= i < after.len() implies #[trigger] after[i].row < BOARD_SIZE
                && after[i].col < BOARD_SIZE && (after[i].result == RESULT_PENDING
                || after[i].result == RESULT_MISS || after[i].result == RESULT_HIT) by {
                if i < before.len() {
                    assert(before[i] == after[i]);
                }
            }
            lemma_distinct_shots_bounded(after);
            lemma_hit_count_push(before, shot);
        }
        let index = if is_player_a {
            let n = self.games[idx].shots_a.len();
            self.games[idx].shots_a.push(shot);
            n
        } else {
            let n = self.games[idx].shots_b.len();
            self.games[idx].shots_b.push(shot);
            n
        };
        assert(record_wf(self.games@[idx as int], idx + 1));
        Ok(index as u32)
    }

    /// `defender` resolves shot `shot_index` of the opponent, whose turn it
    /// is, as a miss (`result` 0) or a hit (`result` 1), with a hit `proof`
    /// against the defender's board commitment. The shot's result is then
    /// fixed. A hit counts for the attacker; the attacker's last ship cell
    /// ends the game with the attacker as winner, and the session end owed
    /// to the score registry is returned. Otherwise the turn passes to the
    /// defender, hit or miss.
    pub fn submit_hit_proof(
        &mut self,
        game_id: u64,
        defender: Address,
        shot_index: u32,
        result: u32,
        proof: Vec<u8>,
    ) -> (r: Result<Option<HubCall>, GameError>)
        requires
            old(self).wf(),
        ensures
            final(self).wf(),
            r is Err <==> old(self).hit_error(game_id, defender, shot_index, result, proof@).is_some(),
            r is Err ==> r == Err::<Option<HubCall>, GameError>(
                old(self).hit_error(game_id, defender, shot_index, result, proof@).unwrap(),
            ) && *final(self) == *old(self),
            r is Ok ==> {
                let rec = old(self).game(game_id);
                let new_rec = final(self).game(game_id);
                let attacker = opponent(rec.state, defender);
                let shot = shots_by(rec, attacker)[shot_index as int];
                &&& new_rec.state == resolved_state(rec.state, attacker, defender, result)
                &&& shots_by(new_rec, attacker) == shots_by(rec, attacker).update(
                    shot_index as int,
                    ShotRecord { row: shot.row, col: shot.col, result, proof: Some(proof) },
                )
                &&& shots_by(new_rec, defender) == shots_by(rec, defender)
                &&& new_rec.commitment_a == rec.commitment_a
                &&& new_rec.commitment_b == rec.commitment_b
                &&& Self::others_unchanged(*old(self), *final(self), game_id)
                &&& (new_rec.state.status == GameStatus::Finished <==> hits_of(new_rec.state, attacker)
                    == TOTAL_SHIP_CELLS)
                &&& (new_rec.state.status == GameStatus::Finished ==> new_rec.state.winner == Some(
                    attacker,
                ) && r == Ok::<Option<HubCall>, GameError>(
                    Some(HubCall::EndGame { session_id: session_of(game_id), winner: attacker }),
                ))
                &&& (new_rec.state.status != GameStatus::Finished ==> new_rec.state.status
                    == GameStatus::Active && new_rec.state.current_turn == Some(defender) && r
                    == Ok::<Option<HubCall>, GameError>(None))
            },
    {
        let idx = self.find_game(game_id)?;
        let mut st = self.games[idx].state;
        if st.status != GameStatus::Active {
            return Err(GameError::GameNotActive);
        }
        let defender_is_a = st.player_a == defender;
        let attacker = if defender_is_a {
            match st.player_b {
                Some(b) => b,
                None => {
                    return Err(GameError::MissingOpponent);
                },
            }
        } else {
            match st.player_b {
                Some(b) => {
                    if b != defender {
                        return Err(GameError::NotAuthorized);
                    }
                },
                None => {
                    return Err(GameError::NotAuthorized);
                },
            }
            st.player_a
        };
        let on_turn = match st.current_turn {
            Some(t) => t == attacker,
            None => false,
        };
        if !on_turn {
            return Err(GameError::NotYourTurn);
        }
        let index = shot_index as usize;
        let shot_count = if defender_is_a {
            self.games[idx].shots_b.len()
        } else {
            self.games[idx].shots_a.len()
        };
        if index >= shot_count {
            return Err(GameError::ShotNotFound);
        }
        let (row, col, pending) = if defender_is_a {
            let shot = &self.games[idx].shots_b[index];
            (shot.row, shot.col, shot.result)
        } else {
            let shot = &self.games[idx].shots_a[index];
            (shot.row, shot.col, shot.result)
        };
        if pending != RESULT_PENDING {
            return Err(GameError::ReplayAttack);
        }
        if result != RESULT_MISS && result != RESULT_HIT {
            return Err(GameError::InvalidProof);
        }
        let commitment = if defender_is_a {
            &self.games[idx].commitment_a
        } else {
            &self.games[idx].commitment_b
        };
        let hash = match commitment {
            Some(c) => c.hash,
            None => {
                return Err(GameError::CommitmentNotSubmitted);
            },
        };
        let verdict = Bn254Verifier::verify_hit_proof(&proof, &hash, row, col, result, &hit_vk_hash());
        match verdict {
            Ok(true) => {},
            _ => {
                return Err(GameError::InvalidProof);
            },
        }
        let resolved = ShotRecord { row, col, result, proof: Some(proof) };
        let ghost resolved_view = resolved;
        if defender_is_a {
            self.games[idx].shots_b.set(index, resolved);
        } else {
            self.games[idx].shots_a.set(index, resolved);
        }
        if result == RESULT_HIT {
            if defender_is_a {
                st.hits_b = st.hits_b + 1;
            } else {
                st.hits_a = st.hits_a + 1;
            }
        }
        let attacker_hits = if defender_is_a {
            st.hits_b
        } else {
            st.hits_a
        };
        let call = if attacker_hits >= TOTAL_SHIP_CELLS {
            st.status = GameStatus::Finished;
            st.winner = Some(attacker);
            st.current_turn = None;
            Some(HubCall::EndGame { session_id: hub_session_id(game_id), winner: attacker })
        } else {
            st.current_turn = Some(defender);
            None
        };
        self.games[idx].state = st;
        proof {
            let shots = if defender_is_a {
                self.games@[idx as int].shots_b@
            } else {
                self.games@[idx as int].shots_a@
            };
            let prev = if defender_is_a {
                old(self).games@[idx as int].shots_b@
            } else {
                old(self).games@[idx as int].shots_a@
            };
            assert(record_wf(old(self).games@[idx as int], idx + 1));
            assert(shots_wf(prev));
            assert(prev[index as int].row == row && prev[index as int].col == col);
            assert(shots == prev.update(index as int, resolved_view));
            lemma_hit_count_update(prev, index as int, resolved_view);
            lemma_resolve_keeps_shots_wf(prev, index as int, resolved_view);
        }
        assert(record_wf(self.games@[idx as int], idx + 1));
        Ok(call)
    }

    /// Why `end_game` by `caller` is refused, if it is.
    pub open spec fn end_error(self, id: u64, caller: Address) -> Option<GameError> {
        if !self.has_game(id) {
            Some(GameError::GameNotFound)
        } else if self.game(id).state.status != GameStatus::Finished {
            Some(GameError::InvalidGameStatus)
        } else if self.game(id).state.winner != Some(caller) {
            Some(GameError::NotAuthorized)
        } else {
            None
        }
    }

    /// The winner of finished game `game_id` asks for the session end to be
    /// reported to the score registry again. Returns that notification.
    pub fn end_game(&self, game_id: u64, caller: Address) -> (r: Result<HubCall, GameError>)
        requires
            self.wf(),
        ensures
            r is Err <==> self.end_error(game_id, caller).is_some(),
            r is Err ==> r == Err::<HubCall, GameError>(self.end_error(game_id, caller).unwrap()),
            r is Ok ==> r == Ok::<HubCall, GameError>(
                HubCall::EndGame { session_id: session_of(game_id), winner: caller },
            ),
    {
        let idx = self.find_game(game_id)?;
        let st = self.games[idx].state;
        if st.status != GameStatus::Finished {
            return Err(GameError::InvalidGameStatus);
        }
        let is_winner = match st.winner {
            Some(w) => w == caller,
            None => false,
        };
        if !is_winner {
            return Err(GameError::NotAuthorized);
        }
        Ok(HubCall::EndGame { session_id: hub_session_id(game_id), winner: caller })
    }

    /// The state of game `game_id`.
    pub fn get_game_state(&self, game_id: u64) -> (r: Result<GameState, GameError>)
        ensures
            r is Err <==> !self.has_game(game_id),
            r is Err ==> r == Err::<GameState, GameError>(GameError::GameNotFound),
            r is Ok ==> r == Ok::<GameState, GameError>(self.game(game_id).state),
    {
        let idx = self.find_game(game_id)?;
        Ok(self.games[idx].state)
    }

    /// Shot `index` of `attacker` in game `game_id`.
    pub fn get_shot(&self, game_id: u64, attacker: Address, index: u32) -> (r: Result<
        ShotRecord,
        GameError,
    >)
        ensures
            r is Err <==> !self.has_game(game_id) || index >= shots_by(
                self.game(game_id),
                attacker,
            ).len(),
            r is Err ==> r == Err::<ShotRecord, GameError>(GameError::ShotNotFound),
            r is Ok ==> same_shot(r->Ok_0, shots_by(self.game(game_id), attacker)[index as int]),
    {
        let idx = match self.find_game(game_id) {
            Ok(i) => i,
            Err(_) => {
                return Err(GameError::ShotNotFound);
            },
        };
        let rec = &self.games[idx];
        let shots = if rec.state.player_a == attacker {
            &rec.shots_a
        } else if rec.state.player_b == Some(attacker) {
            &rec.shots_b
        } else {
            return Err(GameError::ShotNotFound);
        };
        if index as usize >= shots.len() {
            return Err(GameError::ShotNotFound);
        }
        Ok(copy_shot(&shots[index as usize]))
    }

    /// How many shots `attacker` has fired in game `game_id`.
    pub fn get_shot_count(&self, game_id: u64, attacker: Address) -> (r: Result<u32, GameError>)
        requires
            self.wf(),
        ensures
            !self.has_game(game_id) ==> r == Err::<u32, GameError>(GameError::GameNotFound),
            self.has_game(game_id) && !is_player(self.game(game_id).state, attacker) ==> r == Err::<
                u32,
                GameError,
            >(GameError::ShotNotFound),
            r is Ok <==> self.has_game(game_id) && is_player(self.game(game_id).state, attacker),
            r is Ok ==> r->Ok_0 == shots_by(self.game(game_id), attacker).len(),
    {
        let idx = self.find_game(game_id)?;
        let rec = &self.games[idx];
        assert(record_wf(self.games@[idx as int], idx + 1));
        if rec.state.player_a == attacker {
            Ok(rec.shots_a.len() as u32)
        } else if rec.state.player_b == Some(attacker) {
            Ok(rec.shots_b.len() as u32)
        } else {
            Err(GameError::ShotNotFound)
        }
    }

    /// The board commitment of `player` in game `game_id`.
    pub fn get_commitment(&self, game_id: u64, player: Address) -> (r: Result<
        BoardCommitment,
        GameError,
    >)
        ensures
            !self.has_game(game_id) ==> r == Err::<BoardCommitment, GameError>(
                GameError::GameNotFound,
            ),
            self.has_game(game_id) && commitment_by(self.game(game_id), player).is_none() ==> r
                == Err::<BoardCommitment, GameError>(GameError::CommitmentNotSubmitted),
            r is Ok <==> self.has_game(game_id) && commitment_by(
                self.game(game_id),
                player,
            ).is_some(),
            r is Ok ==> same_commitment(
                r->Ok_0,
                commitment_by(self.game(game_id), player).unwrap(),
            ),
    {
        let idx = self.find_game(game_id)?;
        let rec = &self.games[idx];
        let stored = if rec.state.player_a == player {
            &rec.commitment_a
        } else if rec.state.player_b == Some(player) {
            &rec.commitment_b
        } else {
            return Err(GameError::CommitmentNotSubmitted);
        };
        match stored {
            Some(c) => Ok(
                BoardCommitment {
                    hash: c.hash,
                    proof: copy_bytes(&c.proof),
                    public_inputs: copy_bytes(&c.public_inputs),
                },
            ),
            None => Err(GameError::CommitmentNotSubmitted),
        }
    }
}

} // verus!
