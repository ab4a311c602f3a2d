//! The core of a small mail-dispatch service, with contracts that Verus proves.
//!
//! - [`address`]: which texts count as mail addresses.
//! - [`api`]: the requests and answers, and the checks that decide whether a
//!   request is sent, dispatched or turned down.
//! - [`email`]: the bookkeeping of a bulk dispatch, as a step function from
//!   state and event to state and action.
//! - [`reduce`]: the counts of a batch and the status that sums it up.
//! - [`config`]: the settings, made from the values of the environment.
//! - [`text`]: whitespace and blank texts.
//!
//! Nothing here touches the network, the clock or the environment: the
//! caller reads, waits and sends, and hands in what it found.

pub mod address;
pub mod api;
pub mod config;
pub mod email;
pub mod reduce;
pub mod text;
