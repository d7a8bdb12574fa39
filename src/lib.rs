//! Frame synchronisation and resource lifetime engine of a Vulkan renderer
//! for a rhythm game.
//!
//! The types here hold the decisions of the engine: which timeline value a
//! frame waits for, which command buffer a frame records into, when a retired
//! buffer may be released, which descriptor writes and pipeline descriptions
//! are valid. The graphics calls themselves are made by the host application
//! from the plans these types return.
pub mod chart;
pub mod command;
pub mod descriptor;
pub mod device;
pub mod error;
pub mod frame;
pub mod input;
pub mod pipeline;
pub mod platform;
pub mod resource;
