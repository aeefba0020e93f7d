//! A four-player trick-taking card game engine (Belote family): a 32-card
//! deck, a two-pass auction for trumps, trick play under forced-follow and
//! trump rules, and round scoring with capot, litige carry-over and the
//! belote-rebelote bonus.
//!
//! The engine is a typestate round machine: `Game<Initial>` deals into
//! `Game<Distribution>`, which turns over a card into `Game<Bidding>`; the
//! auction either redeals or yields `Game<Playing>`, whose eight tricks end
//! in scoring and the next `Game<Initial>`. Decisions (take, trump color,
//! card to play) enter as plain values, so interactive front ends drive the
//! same verified steps that the randomized driver uses.
#![verifier::loop_isolation(false)]

pub mod bidding;
pub mod card;
pub mod contract;
pub mod deck;
pub mod distribution;
pub mod errors;
pub mod game;
pub mod hand;
pub mod hands;
pub mod helpers;
pub mod initial;
pub mod order;
pub mod player;
pub mod players;
pub mod playing;
pub mod points;
pub mod position;
pub mod rng;
pub mod stack;
pub mod team;
pub mod traits;
pub mod turn;
