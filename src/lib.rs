//! Request decoding and image-operation pipeline of a small image service.
//!
//! The body of a request is accumulated chunk by chunk by [`accumulator::DecodeProto`],
//! which hands the whole buffer to the message codec exactly once, after the
//! stream has ended. The decoded [`command::ImageCommand`] is turned into an
//! ordered plan of operations, which [`pipeline::Pipeline`] runs as a strict
//! left-to-right fold that stops at the first failing step.
pub mod accumulator;
pub mod command;
pub mod content_type;
pub mod pipeline;
pub mod raster;
