//! A verified rule engine and session manager for Brandubh, the 7x7
//! Hnefatafl variant: an asymmetric board game in which the Attacker side
//! tries to surround the King while the King tries to reach a corner.
//!
//! The board data model lives in [`board`]; the rules themselves, as pure
//! specification functions over the grid, in [`rules`]; the executable
//! engine — board construction, move generation, move application with
//! custodian capture and win detection, and the two-click selection flow —
//! in [`game`], each function proved against the rule model. [`session`]
//! pairs two participants over one game, enforces turn order, forfeits on
//! illegal submissions, caps game length, and aggregates statistics over a
//! sequence of games; [`laws`] states and proves properties that span
//! those functions.

pub mod board;
pub mod game;
pub mod laws;
pub mod rules;
pub mod session;
