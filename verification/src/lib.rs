//! A conversational ledger engine: it tracks informal debts between pairs of
//! users. An identity registry maps external account references to user
//! records, a contact directory holds per-owner named links to other users, an
//! append-only ledger records directional transfers with exact decimal
//! amounts, a summary engine folds the ledger into per-contact totals, and a
//! dialog state machine interprets each inbound event according to the user's
//! pending inputting status and drives the other components.
//!
//! The transport that delivers events and renders replies, and the durable
//! store behind the in-memory model, are collaborators outside this crate;
//! everything here is plain verified logic over plain values.

pub mod amount;
pub mod dialog;
pub mod inputting_status;
pub mod laws;
pub mod models;
pub mod store;
