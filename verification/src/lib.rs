//! Game-night polls: the voting and poll-lifecycle engine.
//!
//! Users register and log in, create polls with options (calendar dates
//! among them), vote, and look at the results. The crate holds the four
//! relations of the application (users, polls, options, votes) in a
//! [`store::Store`] and implements on it the creation of polls, the casting
//! of votes, the aggregation of results, and the update and delete of polls
//! under access control. Every operation carries a contract over the
//! mathematical view of the store, [`store::StoreState`]. The laws that tie
//! the operations together are proved in [`laws`] and, where a law is about
//! one module alone, beside the operations that it speaks of.
//!
//! Two policies are fixed here.
//!
//! *Voting mode.* The mode belongs to the cast, not to the poll: a cast is
//! either single-choice, and replaces the voter's vote in the poll, or
//! multi-choice, and toggles the voter's vote on one option
//! ([`models::VotingMode`]). Whatever the casts, no user ever holds two
//! votes on one option.
//!
//! *Activity.* A poll takes votes at an instant when its activity flag is
//! set and its expiry, if it has one, does not lie before the instant. Both
//! are checked on every cast. The flag can be set and cleared by an update;
//! [`store::Store::update_poll_statuses`] clears it for the polls that have
//! expired.
//!
//! Nothing here reads a clock, a socket or a file: callers pass the current
//! instant in and keep the rows wherever they like, by
//! [`store::Store::snapshot`] and [`store::Store::from_rows`].
pub mod clock;
pub mod text;
pub mod decimal;
pub mod error;
pub mod rows;
pub mod order;
pub mod models;
pub mod store;
pub mod password;
pub mod forms;
pub mod access;
pub mod ledger;
pub mod create;
pub mod update;
pub mod delete;
pub mod listing;
pub mod results;
pub mod users;
pub mod accounts;
pub mod voters;
pub mod page;
pub mod restore;
pub mod metrics;
pub mod session;
pub mod laws;
