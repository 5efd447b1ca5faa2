//! Reliability and routing core of a sensor telemetry pipeline: the message
//! model, the device-side outbox and link manager, the per-sensor circuit
//! breaker, the heartbeat detector, the broker router and the fan-out hub,
//! with the register logic of the optical sensor and the bucketing of the
//! aggregate queries.

mod clock;
pub mod text;
pub mod message;
pub mod outbox;
pub mod link;
pub mod signal;
pub mod breaker;
pub mod router;
pub mod hub;
pub mod acquisition;
pub mod max3010x;
pub mod aggregate;
