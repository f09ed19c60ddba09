//! A two-player hidden-board game whose board layouts and shot outcomes are
//! vouched for by succinct zero-knowledge proofs.
//!
//! - `codec`: the canonical byte layout of each proof kind's public inputs.
//! - `groth16`: the proof-verifier interface; it checks lengths only and
//!   accepts any proof of the right length.
//! - `game`: the game lifecycle, turn order, shot ledger and win detection.
//! - `invariants`: facts that hold of the game across its operations.
pub mod codec;
pub mod game;
pub mod groth16;
pub mod invariants;

pub use game::{
    hub_session_id, Address, BattleshipGame, BoardCommitment, GameError, GameRecord, GameState,
    GameStatus, HubCall, ShotRecord,
};
pub use groth16::{Bn254Verifier, ProofPoints, VerifierError};
