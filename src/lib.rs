//! Event demultiplexing for device hot-plug and asynchronous I/O completions.
//!
//! The library holds the verified logic: the parser for kernel hot-plug
//! frames, the routing of completions by their tag, and the maps that tie
//! devices to the I/O resources registered for them.
pub mod rstr;
pub mod words;
pub mod decimal;
pub mod raw_device;
pub mod ev;
pub mod err;
pub mod device_map;
pub mod ctx;
pub mod ctx_builder;
pub mod listener;
pub mod laws;
pub mod frame;
