//! The dispatch layer of the client: the decoders a client registers for
//! the server's version-1 responses, one registry per bit order.

use vstd::prelude::*;

use crate::client::r0x0001::HtmlFileResponse;
use crate::client::r0x0002::ErrorResponse;
use crate::client::r0x0003::ComponentNeedsResponse;
use crate::client::r0x0004::FullFyveResponse;
use crate::client::r0x0006::InteractionResponse;
use crate::decoder::BitDecoder;
use crate::registry::EventRegistry;

verus! {

/// The response decoders a client registers for version 1.
#[derive(Clone, Copy, PartialEq, Eq, Structural, Debug)]
pub enum ClientFactory {
    /// Event `0x0001`: an HTML document.
    Html,
    /// Event `0x0002`: an error response.
    Error,
    /// Event `0x0003`: a component description.
    ComponentNeeds,
    /// Event `0x0004`: a file in the fyve alphabet.
    FullFyve,
    /// Event `0x0006`: an interaction answer.
    Interaction,
}

/// A response-decoder holder, one variant per registered factory.
#[derive(Debug)]
pub enum ClientResponse {
    /// An HTML document being decoded.
    Html(HtmlFileResponse),
    /// An error response being decoded.
    Error(ErrorResponse),
    /// A component description being decoded.
    ComponentNeeds(ComponentNeedsResponse),
    /// A fyve file being decoded.
    FullFyve(FullFyveResponse),
    /// An interaction answer being decoded.
    Interaction(InteractionResponse),
}

/// Builds the response decoder a factory stands for, over a cursor at the
/// start of the payload.
pub fn make_response(factory: &ClientFactory, decoder: BitDecoder) -> (r: ClientResponse)
    ensures
        factory is Html ==> r is Html && r->Html_0.decoder == decoder,
        factory is Error ==> r is Error && r->Error_0.decoder == decoder,
        factory is ComponentNeeds ==> r is ComponentNeeds
            && r->ComponentNeeds_0.decoder == decoder,
        factory is FullFyve ==> r is FullFyve && r->FullFyve_0.decoder == decoder,
        factory is Interaction ==> r is Interaction && r->Interaction_0.decoder == decoder,
{
    match factory {
        ClientFactory::Html => ClientResponse::Html(HtmlFileResponse::new(decoder)),
        ClientFactory::Error => ClientResponse::Error(ErrorResponse::new(decoder)),
        ClientFactory::ComponentNeeds => ClientResponse::ComponentNeeds(
            ComponentNeedsResponse::new(decoder),
        ),
        ClientFactory::FullFyve => ClientResponse::FullFyve(FullFyveResponse::new(decoder)),
        ClientFactory::Interaction => ClientResponse::Interaction(
            InteractionResponse::new(decoder),
        ),
    }
}

/// The client registry for frames parsed in `Msb0`, seeded with the
/// version-1 events the protocol reads in that order.
pub fn default_client_registry_msb<L>() -> (r: EventRegistry<ClientFactory, L>)
    ensures
        r.events_map() == Map::<(u8, u16), ClientFactory>::empty().insert(
            (1u8, 0x0001u16),
            ClientFactory::Html,
        ).insert((1u8, 0x0004u16), ClientFactory::FullFyve),
        r.listeners_map() == Map::<(u8, u16), L>::empty(),
{
    let mut reg = EventRegistry::<ClientFactory, L>::new();
    reg.add_event((1, 0x0001), ClientFactory::Html);
    reg.add_event((1, 0x0004), ClientFactory::FullFyve);
    reg
}

/// The client registry for frames parsed in `Lsb0`, seeded with the
/// version-1 events the protocol reads in that order.
pub fn default_client_registry_lsb<L>() -> (r: EventRegistry<ClientFactory, L>)
    ensures
        r.events_map() == Map::<(u8, u16), ClientFactory>::empty().insert(
            (1u8, 0x0002u16),
            ClientFactory::Error,
        ).insert((1u8, 0x0003u16), ClientFactory::ComponentNeeds).insert(
            (1u8, 0x0006u16),
            ClientFactory::Interaction,
        ),
        r.listeners_map() == Map::<(u8, u16), L>::empty(),
{
    let mut reg = EventRegistry::<ClientFactory, L>::new();
    reg.add_event((1, 0x0002), ClientFactory::Error);
    reg.add_event((1, 0x0003), ClientFactory::ComponentNeeds);
    reg.add_event((1, 0x0006), ClientFactory::Interaction);
    reg
}

} // verus!
