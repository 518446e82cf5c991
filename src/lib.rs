//! Monte Carlo estimation of column probabilities for the four-dice
//! pairing rule of the board game "Can't Stop".

pub mod error;
pub mod outcome;
pub mod tally;
pub mod pattern;
pub mod sim;
