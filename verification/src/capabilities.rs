//! The dispatch contract: the two capability abstractions shared by hosts,
//! guest modules, and native capability providers.

use vstd::prelude::*;
use crate::error::Error;

verus! {

/// The host-side channel a native capability provider uses to send a
/// command to an actor module, expecting an encoded reply in return.
///
/// Implementations must be safe to invoke concurrently from many callers;
/// the protocol layer itself holds no shared mutable state.
pub trait Dispatcher {
    /// Delivers `msg` to an actor under operation `op` and returns the
    /// actor's encoded reply, or a typed failure.
    fn dispatch(&self, op: &str, msg: &[u8]) -> Result<Vec<u8>, Error>;
}

/// A dispatcher with no live channel behind it.
///
/// A provider starts in this unconfigured state and swaps in a real
/// dispatcher when the host runtime supplies one. Invoking the null
/// dispatcher is a detectable configuration error, never a silent no-op.
pub struct NullDispatcher {}

impl NullDispatcher {
    /// A fresh, unconfigured dispatcher.
    pub fn new() -> (d: NullDispatcher)
        ensures
            d == (NullDispatcher {  }),
    {
        NullDispatcher {  }
    }
}

impl Default for NullDispatcher {
    /// The default dispatcher is the unconfigured one.
    fn default() -> (d: NullDispatcher)
        ensures
            d == (NullDispatcher {  }),
    {
        NullDispatcher {  }
    }
}

impl Dispatcher for NullDispatcher {
    /// Every call reports that no channel was configured yet.
    fn dispatch(&self, op: &str, msg: &[u8]) -> (r: Result<Vec<u8>, Error>)
        ensures
            r == Result::<Vec<u8>, Error>::Err(Error::DispatchUnavailable),
    {
        Err(Error::DispatchUnavailable)
    }
}

/// Every native capability provider implements this contract.
pub trait CapabilityProvider {
    /// Called by the host runtime once it is ready and has a live
    /// dispatcher tethered to the appropriate channels.
    fn configure_dispatch(&self, dispatcher: Box<dyn Dispatcher>) -> Result<(), Error>;

    /// One of the well-known capability identifiers, or a custom one in
    /// `namespace:id` notation.
    fn capability_id(&self) -> &'static str;

    /// The human-readable, friendly name of this provider. By convention
    /// it includes the specific implementation, such as the name of the
    /// backing store.
    fn name(&self) -> &'static str;

    /// The single entry point for every guest-to-provider operation: the
    /// provider decodes `msg` per the schema of `op`, executes, and
    /// returns the encoded response. An unknown operation must come back
    /// as a distinct error, never a best-effort decode.
    fn handle_call(&self, op: &str, msg: &[u8]) -> Result<Vec<u8>, Error>;
}

} // verus!
