//! The engine of a battleship wagering game.
//!
//! A player creates a game by placing three ships on a square grid and
//! funding the pot with the sum of their rewards. Other players pay an
//! escalating fee for each shot; whoever sinks a ship is paid its reward from
//! the pot. When the fleet is sunk, or a day has passed, the owner may claim
//! what is left.
//!
//! The engine decides; it performs no input or output. Its state is a
//! [`registry::Registry`] and, for each player, a [`ledger::PlayerStats`].
//! A command is a step from the state before to the state after and an
//! answer, which may ask the host to make a payment. A command that is
//! rejected changes nothing.
//!
//! - [`state`]: ships, shots, games, and their mathematical views.
//! - [`ship`]: placing a ship, asking what it occupies, hitting it.
//! - [`validation`]: the checks on placements, shots and payments.
//! - [`pricing`]: what creating a game, a shot and a peek cost.
//! - [`game`]: the invariant of a game and its operations.
//! - [`registry`]: all games, their identifiers and the cursor.
//! - [`ledger`]: the statistics of a player.
//! - [`contract`]: commands and queries.
//! - [`wellformed`]: deciding at run time whether state from outside is valid.
//! - [`invariants`], [`laws`]: what is proved of all this.

pub mod bank;
pub mod clock;
pub mod contract;
pub mod error;
pub mod game;
pub mod invariants;
pub mod laws;
pub mod ledger;
pub mod msg;
pub mod pricing;
pub mod registry;
pub mod ship;
pub mod state;
pub mod utilities;
pub mod validation;
pub mod wellformed;
