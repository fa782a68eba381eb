use vstd::prelude::*;
use crate::header::{AnyHeader, ClientType, Header};
use crate::header::copy_bytes;

verus! {

/// A client state or header of another type than the client expects.
#[derive(Clone, Copy, Debug, PartialEq, Eq, Structural)]
pub struct MismatchClientHeaderFormat {
    pub expected_client_type: ClientType,
}

/// The errors of a client update.
#[derive(Clone, Debug)]
pub enum ClientUpdateError {
    MismatchClientHeaderFormat(MismatchClientHeaderFormat),
    /// The client's own checks refused the header.
    Rejected(String),
}

impl vstd::std_specs::convert::FromSpecImpl<MismatchClientHeaderFormat> for ClientUpdateError {
    open spec fn obeys_from_spec() -> bool {
        true
    }

    open spec fn from_spec(e: MismatchClientHeaderFormat) -> ClientUpdateError {
        ClientUpdateError::MismatchClientHeaderFormat(e)
    }
}

impl From<MismatchClientHeaderFormat> for ClientUpdateError {
    fn from(e: MismatchClientHeaderFormat) -> (r: ClientUpdateError) {
        ClientUpdateError::MismatchClientHeaderFormat(e)
    }
}

/// A stored client state: its client type and its encoding.
#[derive(Clone, Debug)]
pub struct AnyClientState {
    pub client_type: ClientType,
    pub value: Vec<u8>,
}

/// A stored consensus state: its client type and its encoding.
#[derive(Clone, Debug)]
pub struct AnyConsensusState {
    pub client_type: ClientType,
    pub value: Vec<u8>,
}

/// The update logic of one client type, on that type's own states and
/// headers.
pub trait UpdateClientHandler {
    /// What the update gives for these arguments.
    spec fn spec_update(&self, client_id: Seq<char>, state: Seq<u8>, header: AnyHeader) -> Result<
        (Seq<u8>, Seq<u8>),
        ClientUpdateError,
    >;

    /// Checks `header` against `client_state` and returns the new client
    /// state and consensus state, both encoded.
    fn check_header_and_update_state(
        &self,
        client_id: &String,
        client_state: &Vec<u8>,
        header: &AnyHeader,
    ) -> (r: Result<(Vec<u8>, Vec<u8>), ClientUpdateError>)
        ensures
            match self.spec_update(client_id@, client_state@, *header) {
                Ok((s, c)) => (r matches Ok(p) && p.0@ == s && p.1@ == c),
                Err(e) => r == Err::<(Vec<u8>, Vec<u8>), ClientUpdateError>(e),
            },
    ;
}

/// Runs the handler of one client type on states and headers of any type,
/// refusing those of another type.
pub struct LiftClientUpdateHandler<H> {
    pub client_type: ClientType,
    pub handler: H,
}

impl<H: UpdateClientHandler> LiftClientUpdateHandler<H> {
    pub fn new(client_type: ClientType, handler: H) -> (r: Self)
        ensures
            r.client_type == client_type,
            r.handler == handler,
    {
        LiftClientUpdateHandler { client_type, handler }
    }

    /// Checks a header of any type against a client state of any type.
    pub fn check_header_and_update_state(
        &self,
        client_id: &String,
        client_state: &AnyClientState,
        new_client_header: &AnyHeader,
    ) -> (r: Result<(AnyClientState, AnyConsensusState), ClientUpdateError>)
        ensures
            (client_state.client_type != self.client_type || new_client_header.spec_client_type()
                != self.client_type) ==> r == Err::<(AnyClientState, AnyConsensusState), ClientUpdateError>(
                ClientUpdateError::MismatchClientHeaderFormat(
                    MismatchClientHeaderFormat { expected_client_type: self.client_type },
                ),
            ),
            (client_state.client_type == self.client_type && new_client_header.spec_client_type()
                == self.client_type) ==> match self.handler.spec_update(
                client_id@,
                client_state.value@,
                *new_client_header,
            ) {
                Ok((s, c)) => (r matches Ok(p) && p.0.client_type == self.client_type && p.0.value@ == s
                    && p.1.client_type == self.client_type && p.1.value@ == c),
                Err(e) => r == Err::<(AnyClientState, AnyConsensusState), ClientUpdateError>(e),
            },
    {
        if client_state.client_type != self.client_type {
            return Err(
                ClientUpdateError::from(
                    MismatchClientHeaderFormat { expected_client_type: self.client_type },
                ),
            );
        }
        if new_client_header.client_type() != self.client_type {
            return Err(
                ClientUpdateError::from(
                    MismatchClientHeaderFormat { expected_client_type: self.client_type },
                ),
            );
        }
        match self.handler.check_header_and_update_state(client_id, &client_state.value, new_client_header) {
            Ok((state, consensus)) => Ok(
                (
                    AnyClientState { client_type: self.client_type, value: state },
                    AnyConsensusState { client_type: self.client_type, value: consensus },
                ),
            ),
            Err(e) => Err(e),
        }
    }
}

/// The update of a mock client: the header, as it is encoded, becomes both
/// the new client state and the new consensus state.
pub struct MockUpdateHandler;

impl UpdateClientHandler for MockUpdateHandler {
    open spec fn spec_update(&self, client_id: Seq<char>, state: Seq<u8>, header: AnyHeader) -> Result<
        (Seq<u8>, Seq<u8>),
        ClientUpdateError,
    > {
        Ok((header.encoding(), header.encoding()))
    }

    fn check_header_and_update_state(
        &self,
        client_id: &String,
        client_state: &Vec<u8>,
        header: &AnyHeader,
    ) -> (r: Result<(Vec<u8>, Vec<u8>), ClientUpdateError>) {
        let bytes = match header {
            AnyHeader::Tendermint(h) => h.encoded(),
            AnyHeader::Mock(h) => h.encoded(),
        };
        Ok((copy_bytes(bytes), copy_bytes(bytes)))
    }
}

} // verus!
