//! A two-player server for the card game War: the card values, the wire
//! format of its four messages, the deal, and the per-game session state
//! machine. The I/O that drives a session lives outside this library.
pub mod card;
pub mod message;
pub mod deck;
pub mod session;
