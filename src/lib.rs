//! A wire protocol for exchanging chess moves and quit notices between two
//! peers over a byte stream, as fixed-width 128-byte frames.
//!
//! `board` holds the plain data (squares, pieces, outcomes, a board
//! snapshot); `tokens` and `fen` the short tokens and the board placement
//! text; `codec` states what a frame is and what it decodes to; `messages`
//! encodes and decodes the two message kinds; `laws` proves the round trips
//! and rejections; `connection` keeps partial reads until a frame is whole;
//! `selection` holds the move-picking rules of a board front end.
pub mod board;
pub mod tokens;
pub mod fen;
pub mod codec;
pub mod messages;
pub mod laws;
pub mod connection;
pub mod selection;
