//! A marketplace core linking EV-charger hosts and drivers: hosts register
//! chargers, drivers reserve them, and charging sessions are confirmed.
//!
//! All persisted state lives in a key-addressed, versioned record store
//! ([`store::RecordStore`]); the registries and the matching engine
//! ([`marketplace::Marketplace`]) drive every record through its state
//! machine via the store's create-once and compare-and-swap update
//! operations. [`laws`] states and proves the properties the design
//! promises: create-once registration, no double allocation, state
//! coherence of a reservation, single-shot confirmation, and release of
//! the charger on confirmation.

pub mod laws;
pub mod marketplace;
pub mod records;
pub mod store;
