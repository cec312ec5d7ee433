//! A model of an OpenCL-style compute runtime: memory objects and their flag
//! rules, region arithmetic, kernel argument resolution, launch payloads, and a
//! command queue draining an event dependency graph.

pub mod api;
pub mod bytes;
pub mod cl;
pub mod context;
pub mod event;
pub mod flags;
pub mod image;
pub mod kernel;
pub mod memory;
pub mod options;
pub mod pipe;
pub mod program;
pub mod region;
pub mod util;
