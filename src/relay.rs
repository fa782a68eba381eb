use vstd::prelude::*;
use crate::events::{ChainId, Height, Packet};
use crate::packet_relay::Target;
use crate::sender::RelayError;

verus! {

/// A pair of chains and the client that each holds of the other.
pub struct Relay {
    src_chain_id: ChainId,
    dst_chain_id: ChainId,
    /// The client on the source chain that tracks the destination.
    src_client_id: String,
    /// The client on the destination chain that tracks the source.
    dst_client_id: String,
}

impl Relay {
    pub closed spec fn src_chain(&self) -> Seq<char> {
        self.src_chain_id.id@
    }

    pub closed spec fn dst_chain(&self) -> Seq<char> {
        self.dst_chain_id.id@
    }

    pub closed spec fn src_client(&self) -> Seq<char> {
        self.src_client_id@
    }

    pub closed spec fn dst_client(&self) -> Seq<char> {
        self.dst_client_id@
    }

    pub open spec fn wf(&self) -> bool {
        self.src_chain() != self.dst_chain()
    }

    /// The chain that receives messages sent to `target`.
    pub open spec fn spec_target_chain(&self, target: Target) -> Seq<char> {
        match target {
            Target::Source => self.src_chain(),
            Target::Destination => self.dst_chain(),
        }
    }

    /// The chain across from `target`.
    pub open spec fn spec_counterparty_chain(&self, target: Target) -> Seq<char> {
        match target {
            Target::Source => self.dst_chain(),
            Target::Destination => self.src_chain(),
        }
    }

    /// The client on the target chain that tracks its counterparty.
    pub open spec fn spec_target_client(&self, target: Target) -> Seq<char> {
        match target {
            Target::Source => self.src_client(),
            Target::Destination => self.dst_client(),
        }
    }

    pub open spec fn spec_counterparty_client(&self, target: Target) -> Seq<char> {
        match target {
            Target::Source => self.dst_client(),
            Target::Destination => self.src_client(),
        }
    }

    /// Pairs two chains; the chains must differ.
    pub fn new(src_chain_id: ChainId, dst_chain_id: ChainId, src_client_id: String, dst_client_id: String) -> (r: Result<Relay, RelayError>)
        ensures
            (r is Ok) == (src_chain_id.id@ != dst_chain_id.id@),
            r matches Ok(x) ==> x.wf() && x.src_chain() == src_chain_id.id@ && x.dst_chain()
                == dst_chain_id.id@ && x.src_client() == src_client_id@ && x.dst_client()
                == dst_client_id@,
    {
        if crate::header::str_eq(src_chain_id.id.as_str(), dst_chain_id.id.as_str()) {
            return Err(RelayError::Chain { transient: false, reason: "the two chains of a relay must differ".to_owned() });
        }
        Ok(Relay { src_chain_id, dst_chain_id, src_client_id, dst_client_id })
    }

    pub fn target_chain(&self, target: Target) -> (r: &ChainId)
        ensures
            r.id@ == self.spec_target_chain(target),
    {
        match target {
            Target::Source => &self.src_chain_id,
            Target::Destination => &self.dst_chain_id,
        }
    }

    pub fn counterparty_chain(&self, target: Target) -> (r: &ChainId)
        ensures
            r.id@ == self.spec_counterparty_chain(target),
    {
        match target {
            Target::Source => &self.dst_chain_id,
            Target::Destination => &self.src_chain_id,
        }
    }

    pub fn target_client_id(&self, target: Target) -> (r: &String)
        ensures
            r@ == self.spec_target_client(target),
    {
        match target {
            Target::Source => &self.src_client_id,
            Target::Destination => &self.dst_client_id,
        }
    }

    pub fn counterparty_client_id(&self, target: Target) -> (r: &String)
        ensures
            r@ == self.spec_counterparty_client(target),
    {
        match target {
            Target::Source => &self.dst_client_id,
            Target::Destination => &self.src_client_id,
        }
    }
}

/// The target and the counterparty of a relay are different chains, each
/// the other's counterparty.
pub proof fn lemma_target_counterparty(r: Relay, t: Target)
    requires
        r.wf(),
    ensures
        r.spec_target_chain(t) != r.spec_counterparty_chain(t),
        r.spec_counterparty_chain(Target::Source) == r.spec_target_chain(Target::Destination),
        r.spec_counterparty_chain(Target::Destination) == r.spec_target_chain(Target::Source),
{
}

/// The packet type that a relay carries from its source to its destination.
pub trait HasRelayPacket {
    type Packet;
}

impl HasRelayPacket for Relay {
    type Packet = Packet;
}

/// The fields of a packet as a relay reads them.
pub trait HasRelayPacketFields {
    fn packet_src_port(packet: &Packet) -> (r: &String)
        ensures
            r@ == packet.source_port@,
    ;

    fn packet_src_channel_id(packet: &Packet) -> (r: &String)
        ensures
            r@ == packet.source_channel@,
    ;

    fn packet_dst_port(packet: &Packet) -> (r: &String)
        ensures
            r@ == packet.destination_port@,
    ;

    fn packet_dst_channel_id(packet: &Packet) -> (r: &String)
        ensures
            r@ == packet.destination_channel@,
    ;

    fn packet_sequence(packet: &Packet) -> (r: u64)
        ensures
            r == packet.sequence,
    ;

    /// The timeout height, unless it is unset (zero).
    fn packet_timeout_height(packet: &Packet) -> (r: Option<Height>)
        ensures
            r == (if packet.timeout_height.revision_number == 0
                && packet.timeout_height.revision_height == 0 {
                None
            } else {
                Some(packet.timeout_height)
            }),
            packet.wf() && r is None ==> packet.timeout_timestamp != 0,
    ;

    fn packet_timeout_timestamp(packet: &Packet) -> (r: u64)
        ensures
            r == packet.timeout_timestamp,
    ;
}

impl HasRelayPacketFields for Relay {
    fn packet_src_port(packet: &Packet) -> (r: &String) {
        &packet.source_port
    }

    fn packet_src_channel_id(packet: &Packet) -> (r: &String) {
        &packet.source_channel
    }

    fn packet_dst_port(packet: &Packet) -> (r: &String) {
        &packet.destination_port
    }

    fn packet_dst_channel_id(packet: &Packet) -> (r: &String) {
        &packet.destination_channel
    }

    fn packet_sequence(packet: &Packet) -> (r: u64) {
        packet.sequence
    }

    fn packet_timeout_height(packet: &Packet) -> (r: Option<Height>) {
        if packet.timeout_height.revision_number == 0 && packet.timeout_height.revision_height == 0 {
            None
        } else {
            Some(packet.timeout_height)
        }
    }

    fn packet_timeout_timestamp(packet: &Packet) -> (r: u64) {
        packet.timeout_timestamp
    }
}

/// The user's choice of which packets to relay.
pub trait OfaFullRelay {
    fn should_relay_packet(&self, packet: &Packet) -> Result<bool, RelayError>;
}

/// A chain as the relay core uses it: the pure parts of the chain interface.
/// Queries and submissions are performed by the caller, which hands their
/// results to the core.
pub trait OfaChain {
    type Message;

    type Event;

    type WriteAcknowledgementEvent;

    fn estimate_message_len(message: &Self::Message) -> Result<usize, RelayError>;

    fn try_extract_write_acknowledgement_event(event: Self::Event) -> Option<Self::WriteAcknowledgementEvent>;
}

/// The parts of a chain's interface that depend on its counterparty.
pub trait OfaIbcChain<Counterparty: OfaChain>: OfaChain {
    /// The counterparty height that a message proves, if any.
    fn source_message_height(message: &Self::Message) -> Option<Height>;
}

/// The events of a chain that concern its counterparty.
pub trait HasIbcEvents {
    type Event;

    type WriteAcknowledgementEvent;

    fn try_extract_write_acknowledgement_event(event: Self::Event) -> Option<Self::WriteAcknowledgementEvent>;
}

/// A chain wrapped for use by the relay core.
pub struct OfaChainContext<Chain> {
    pub chain: Chain,
}

impl<Chain: OfaChain> OfaChainContext<Chain> {
    pub fn new(chain: Chain) -> (r: Self)
        ensures
            r.chain == chain,
    {
        OfaChainContext { chain }
    }
}

} // verus!
