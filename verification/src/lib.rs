//! A three-by-three game of noughts and crosses between a person at the
//! keyboard and a rule-based computer player.
//!
//! The board is kept twice: once with the marks that the players put down
//! ([`game::Board`]), and once from the point of view of whoever moves next
//! ([`battlefield::Battlefield`]). The computer player ([`strategy`]) reasons
//! about the second alone. [`game::Game`] applies the moves and tells when
//! the game is over; [`game_session`] and [`ask`] decide what a typed line
//! means and how a round goes on. Nothing here reads or prints.

pub mod ask;
pub mod battlefield;
pub mod counting;
pub mod game;
pub mod game_session;
pub mod strategy;
