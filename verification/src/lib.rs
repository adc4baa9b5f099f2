//! A launchpad for fixed-price token sales, as a state machine.
//!
//! A launchpad sells a deposit of one token for another token at a fixed
//! price, inside a window of time and within bounds on what each buyer may
//! hold, and is settled once after the window. The contract keeps any number
//! of launchpads, each under an id and each for a token of its own.
//!
//! Every operation takes what the host knows (the caller, the payment sent
//! along, the time) as plain arguments, changes the state, and answers with
//! what the host is to carry out (the tokens to send) or with the reason for
//! the refusal. A refused operation changes nothing. The time is the host's
//! clock, which does not go back.
//!
//! - [`common::config`]: the records and the settings;
//! - [`common::ledger`]: the mathematical state and the rule of each operation;
//! - [`contract`]: the operations;
//! - [`common::views`]: the enumerations;
//! - [`laws`]: what holds of the contract whatever is called.

pub mod common;
pub mod contract;
pub mod laws;
