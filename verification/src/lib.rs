//! Auxiliary-information generation for a threshold ECDSA scheme.
//!
//! A fixed set of `n` parties refreshes its additive key shares and equips
//! every party with a fresh Paillier key pair and ring-Pedersen parameters.
//! The protocol runs in three rounds: a hash commitment to the local data,
//! the reveal of that data with per-peer verification, and a direct round
//! that carries an encrypted share together with four proofs.  Every round
//! transition and every verification rule is stated in a contract and
//! proved; the elliptic-curve group, the hash, the big-integer arithmetic
//! and the randomness source stand behind small trusted adapters.

pub mod params;
pub mod rng;
pub mod bitvec;
pub mod group;
pub mod hashing;
pub mod paillier;
pub mod sigma;
pub mod auxiliary;
pub mod laws;
