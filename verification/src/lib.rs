//! Verified protocol core for EEVideo compatibility streaming.

pub mod assembler;
pub mod backend;
pub mod capture;
pub mod cli;
pub mod coap;
pub mod discovery;
pub mod fakedev;
pub mod introspect;
pub mod register;
pub mod register_map;
pub mod runtime;
pub mod session;
pub mod compat_profile;
pub mod compat_stream;
pub mod control;
pub mod controller;
pub mod daemon;
pub mod device;
pub mod pixel_format;
pub mod plugin;
pub mod reassembly;
pub mod stats;
pub mod string_map;
pub mod text;
pub mod viewer;
pub mod yaml;
