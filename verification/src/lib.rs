//! Tick-synchronized input replication core for a fixed-step multiplayer
//! simulation: a monotonic tick counter, a per-connection tick-indexed input
//! ring buffer, a wire window of recent inputs sent redundantly over an
//! unreliable transport, and the reconciliation that merges received windows,
//! supplies fallback inputs for unconfirmed ticks, and signals corrections.

pub mod input;
pub mod input_buffer;
pub mod laws;
pub mod message;
pub mod reconciler;
pub mod sender;
pub mod tick;
