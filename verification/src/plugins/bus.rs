//! Events between plugins. The application implements the bus.

use vstd::prelude::*;

verus! {

/// `serde_json::Value`: a JSON value, carried through unopened.
#[verifier::external_type_specification]
#[verifier::external_body]
pub struct ExJsonValue(serde_json::Value);

/// An event on the bus: a topic and what is said about it.
#[derive(Debug)]
pub struct BusEvent {
    pub topic: String,
    pub payload: serde_json::Value,
}

/// The bus that carries events between plugins.
pub trait EventBus {
    fn emit(&self, event: BusEvent);

    fn subscribe(&self, topic: &str);
}

} // verus!
