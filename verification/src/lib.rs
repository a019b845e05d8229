//! A fixed-capacity single-producer / single-consumer FIFO queue (a Lamport
//! queue), verified: the ring-buffer index protocol, the FIFO delivery
//! guarantee and the close/drain lifecycle are all stated as contracts and
//! proved.

pub mod lamport_queue;
pub mod srsw_queue_verifier;
