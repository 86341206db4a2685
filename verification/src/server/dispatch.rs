//! The dispatch layer of the server: the closed set of response encoders,
//! the factories the registry routes to, and the steps a transport
//! executes to answer a request.

use vstd::prelude::*;

use crate::bits::{pack, BitOrder};
use crate::decoder::BitDecoder;
use crate::encoder::{frame_bits, max_bits, BitEncoder, EventEncoder, FrameEncoder};
use crate::errors::Error;
use crate::registry::EventRegistry;
use crate::server::c0x0001::HtmlFileResponse;
use crate::server::c0x0002::ErrorResponse;
use crate::server::c0x0003::ComponentNeedsResponse;
use crate::server::c0x0004::FullFyveResponse;
use crate::server::c0x0006::InteractionResponse;
use crate::server::r0x0000::ComponentNeedsRequest;
use crate::server::r0x0005::InteractionRequest;

verus! {

/// One server-to-client response, ready to be wrapped in a frame.
#[derive(Debug)]
pub enum ServerResponse {
    /// An HTML document (event `0x0001`).
    Html(HtmlFileResponse),
    /// An error response (event `0x0002`).
    Error(ErrorResponse),
    /// A component description (event `0x0003`).
    ComponentNeeds(ComponentNeedsResponse),
    /// A file in the fyve alphabet (event `0x0004`).
    FullFyve(FullFyveResponse),
    /// An interaction answer (event `0x0006`).
    Interaction(InteractionResponse),
}

impl EventEncoder for ServerResponse {
    open spec fn event_id(&self) -> u16 {
        match self {
            ServerResponse::Html(x) => x.event_id(),
            ServerResponse::Error(x) => x.event_id(),
            ServerResponse::ComponentNeeds(x) => x.event_id(),
            ServerResponse::FullFyve(x) => x.event_id(),
            ServerResponse::Interaction(x) => x.event_id(),
        }
    }

    open spec fn buffer(&self) -> Seq<bool> {
        match self {
            ServerResponse::Html(x) => x.buffer(),
            ServerResponse::Error(x) => x.buffer(),
            ServerResponse::ComponentNeeds(x) => x.buffer(),
            ServerResponse::FullFyve(x) => x.buffer(),
            ServerResponse::Interaction(x) => x.buffer(),
        }
    }

    open spec fn encodes_ok(&self) -> bool {
        match self {
            ServerResponse::Html(x) => x.encodes_ok(),
            ServerResponse::Error(x) => x.encodes_ok(),
            ServerResponse::ComponentNeeds(x) => x.encodes_ok(),
            ServerResponse::FullFyve(x) => x.encodes_ok(),
            ServerResponse::Interaction(x) => x.encodes_ok(),
        }
    }

    open spec fn payload(&self) -> Seq<bool> {
        match self {
            ServerResponse::Html(x) => x.payload(),
            ServerResponse::Error(x) => x.payload(),
            ServerResponse::ComponentNeeds(x) => x.payload(),
            ServerResponse::FullFyve(x) => x.payload(),
            ServerResponse::Interaction(x) => x.payload(),
        }
    }

    fn get_event(&self) -> (e: u16) {
        match self {
            ServerResponse::Html(x) => x.get_event(),
            ServerResponse::Error(x) => x.get_event(),
            ServerResponse::ComponentNeeds(x) => x.get_event(),
            ServerResponse::FullFyve(x) => x.get_event(),
            ServerResponse::Interaction(x) => x.get_event(),
        }
    }

    fn get_encoder(&self) -> (enc: &BitEncoder) {
        match self {
            ServerResponse::Html(x) => x.get_encoder(),
            ServerResponse::Error(x) => x.get_encoder(),
            ServerResponse::ComponentNeeds(x) => x.get_encoder(),
            ServerResponse::FullFyve(x) => x.get_encoder(),
            ServerResponse::Interaction(x) => x.get_encoder(),
        }
    }

    fn encode(&mut self) -> (r: Result<(), Error>) {
        match self {
            ServerResponse::Html(x) => x.encode(),
            ServerResponse::Error(x) => x.encode(),
            ServerResponse::ComponentNeeds(x) => x.encode(),
            ServerResponse::FullFyve(x) => x.encode(),
            ServerResponse::Interaction(x) => x.encode(),
        }
    }
}

/// One step of answering a request: a response that is ready, or a file
/// the transport must load first, because the core does no I/O.
#[derive(Debug)]
pub enum ResponseStep {
    /// Encode and send this response.
    Ready(ServerResponse),
    /// Load this path and send its document as an HTML response.
    LoadHtml(String),
    /// Load this path and send its content as a fyve file response.
    LoadFyve(String),
}

/// The request decoders the server registers for version 1.
#[derive(Clone, Copy, PartialEq, Eq, Structural, Debug)]
pub enum ServerFactory {
    /// Event `0x0000`: a component request.
    ComponentNeeds,
    /// Event `0x0005`: an interaction request.
    Interaction,
}

/// A decoded-request holder, one variant per registered factory.
#[derive(Debug)]
pub enum ServerRequest {
    /// A component request being decoded.
    ComponentNeeds(ComponentNeedsRequest),
    /// An interaction request being decoded.
    Interaction(InteractionRequest),
}

/// Builds the request decoder a factory stands for, over a cursor at the
/// start of the payload.
pub fn make_request(factory: &ServerFactory, decoder: BitDecoder) -> (r: ServerRequest)
    ensures
        factory is ComponentNeeds ==> r is ComponentNeeds
            && r->ComponentNeeds_0.decoder == decoder,
        factory is Interaction ==> r is Interaction && r->Interaction_0.decoder == decoder,
{
    match factory {
        ServerFactory::ComponentNeeds => ServerRequest::ComponentNeeds(
            ComponentNeedsRequest::new(decoder),
        ),
        ServerFactory::Interaction => ServerRequest::Interaction(InteractionRequest::new(decoder)),
    }
}

/// The registry seeded with the version-1 server events and no listeners.
pub fn default_server_registry<L>() -> (r: EventRegistry<ServerFactory, L>)
    ensures
        r.events_map() == Map::<(u8, u16), ServerFactory>::empty().insert(
            (1u8, 0x0000u16),
            ServerFactory::ComponentNeeds,
        ).insert((1u8, 0x0005u16), ServerFactory::Interaction),
        r.listeners_map() == Map::<(u8, u16), L>::empty(),
{
    let mut reg = EventRegistry::<ServerFactory, L>::new();
    reg.add_event((1, 0x0000), ServerFactory::ComponentNeeds);
    reg.add_event((1, 0x0005), ServerFactory::Interaction);
    reg
}

/// Wraps an error in a `0x0002` frame for a still-open peer.
///
/// Succeeds exactly when the version is known and the message fits the
/// frame's size bounds.
pub fn answer_error(version: u8, error: Error) -> (r: Result<Vec<u8>, Error>)
    ensures
        r is Ok <==> version == 1 && 24 + 8 * vstd::utf8::encode_utf8(error.message@).len()
            <= max_bits(),
        r is Ok ==> r->Ok_0@ == pack(
            BitOrder::Lsb0,
            frame_bits(
                1,
                2,
                crate::bits::field_bits(error.code as nat, 16) + crate::bits::field_bits(0, 8)
                    + crate::bits::bytes_to_bits(vstd::utf8::encode_utf8(error.message@)),
            ),
        ),
{
    let mut encoder = match FrameEncoder::new(version) {
        Ok(enc) => enc,
        Err(e) => {
            return Err(e);
        },
    };
    let mut response = ErrorResponse::new(error);
    proof {
        crate::encoder::lemma_bytes_to_bits_len(
            vstd::utf8::encode_utf8(response.error.message@),
        );
    }
    encoder.encode(&mut response)
}

} // verus!
