//! Core logic of an IBC packet relayer: grouping of chain events into
//! per-height batches, the event bus, reconnection backoff, message
//! batching, the per-packet relay state machine and the IBC wire records.

pub mod backoff;
pub mod batcher;
pub mod bus;
pub mod client_update;
pub mod event_source;
pub mod events;
pub mod header;
pub mod identifier;
pub mod packet_relay;
pub mod relay;
pub mod sender;
pub mod write_ack;
pub mod upgrade_fields;
