//! State-synchronization bridge for a four-legged device: a pose model in
//! fixed-point micro-radians, a JSON wire codec, a guarded authoritative
//! state with atomic command application, non-blocking hand-off queues, a
//! per-tick frame bridge, and the publisher's cadence arithmetic.

pub mod bridge;
pub mod cadence;
pub mod codec;
pub mod emitter;
pub mod model;
pub mod numbers;
pub mod queue;
pub mod state;
pub mod tokens;

pub use model::CommandEnvelope;
pub use model::JointTriplet;
pub use model::Orientation;
pub use model::PoseSnapshot;
