//! Match-gated realtime messaging core of a matching platform: the symmetric
//! match relation, the message log and its history view, the registry of live
//! channels, the delivery pipeline, the preference filter and the candidate
//! queue, with the account and profile rules around them.
pub mod account;
pub mod delivery;
pub mod ledger;
pub mod messages;
pub mod preference;
pub mod profile;
pub mod queue;
pub mod registry;
pub mod session;
pub mod text;
pub mod wire;
