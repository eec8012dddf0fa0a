//! Message envelopes and a double buffer used on the link between the
//! interface and the engine.

pub mod battery;
pub mod copper;
pub mod transferswitch;

pub use copper::Copper;
pub use transferswitch::TransferSwitch;

use vstd::prelude::*;

verus! {

/// A reply that can say which kind of event it answers and carries a
/// message.
pub trait Response<A, B> {
    fn message(&self) -> String;

    fn default() -> Self where Self: Sized;

    fn event_type(&self) -> A;
}

} // verus!
