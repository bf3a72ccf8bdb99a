//! Parcel tracking for DHL and Hermes shipments.
//!
//! The library holds everything the tracker decides: how a carrier's JSON
//! reply becomes a list of tracking events, when a recipient postcode is worth
//! a second request, how a lookup proceeds from one request to the next, and
//! how the tracked list is kept. The caller performs the network requests and
//! hands the replies back as plain values.
pub mod text;
pub mod dhl;
pub mod postcode;
pub mod hermes;
pub mod tracker;

use vstd::prelude::*;

verus! {

} // verus!
