//! Event `0x0000`, client side: the request for a component and its files.

use vstd::prelude::*;
use vstd::string::StrSliceExecFns;
use vstd::utf8::encode_utf8;

use crate::bits::{bytes_to_bits, BitOrder};
use crate::encoder::{max_bits, BitEncoder, EventEncoder};
use crate::errors::Error;

verus! {

/// Asks the server for a component: the payload is the UTF-8 bytes of the
/// component name.
#[derive(Debug)]
pub struct ComponentNeedsRequest {
    /// The payload buffer.
    pub encoder: BitEncoder,
    /// The name of the requested component.
    pub component_name: String,
}

impl ComponentNeedsRequest {
    /// Creates the request with an empty `Lsb0` payload buffer.
    pub fn new(component_name: String) -> (r: ComponentNeedsRequest)
        ensures
            r.encoder@ == Seq::<bool>::empty(),
            r.encoder.order == BitOrder::Lsb0,
            r.component_name == component_name,
    {
        ComponentNeedsRequest { encoder: BitEncoder::new(BitOrder::Lsb0), component_name }
    }
}

impl EventEncoder for ComponentNeedsRequest {
    open spec fn event_id(&self) -> u16 {
        0x0000
    }

    open spec fn buffer(&self) -> Seq<bool> {
        self.encoder@
    }

    open spec fn encodes_ok(&self) -> bool {
        self.encoder@.len() + 8 * encode_utf8(self.component_name@).len() <= max_bits()
    }

    open spec fn payload(&self) -> Seq<bool> {
        bytes_to_bits(encode_utf8(self.component_name@))
    }

    fn get_event(&self) -> (e: u16) {
        0x0000
    }

    fn get_encoder(&self) -> (enc: &BitEncoder) {
        &self.encoder
    }

    fn encode(&mut self) -> (r: Result<(), Error>) {
        let bytes = self.component_name.as_str().as_bytes_vec();
        self.encoder.add_bytes(bytes.as_slice())
    }
}

} // verus!
