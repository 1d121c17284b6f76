//! An audio graph integration layer in integer arithmetic: parameter
//! timelines with scheduled and interpolated changes, sampler pool
//! scheduling with priorities and preemption, AHDSR and ADSR envelope state
//! machines rendered with sample-accurate trigger edges, volume fades, and
//! the control-side decisions around the audio graph (flush order, device
//! reconciliation, pending connections).
pub mod adsr;
pub mod connect;
pub mod devices;
pub mod envelopes;
pub mod events;
pub mod follower;
pub mod graph;
pub mod pool;
pub mod profiling;
pub mod sample;
pub mod spatial;
pub mod time;
pub mod timeline;
