//! Decision logic for playing nine-by-nine gomoku against a policy network.
//!
//! The crate turns a board into the input planes of the network, reads the
//! network's answer as one score per cell, picks the move to play, interprets
//! a line typed by the human opponent, keeps track of whose turn it is and
//! draws a policy as a picture of text. Running the network, applying moves
//! to a rules engine and talking to the terminal are left to the caller, who
//! hands over plain values: the cells of the board, the legal moves with
//! their notation, the bits of the scores, the typed line.

pub mod board;
pub mod controller;
pub mod encoder;
pub mod error;
pub mod input;
pub mod policy;
pub mod render;
pub mod score;
