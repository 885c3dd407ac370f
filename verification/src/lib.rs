//! The decisions of the Siphon download manager, verified.

pub mod archive;
pub mod checksum;
pub mod clock;
pub mod direct;
pub mod engine;
pub mod files;
pub mod foreign;
pub mod install;
pub mod job;
pub mod launch;
pub mod links;
pub mod names;
pub mod number;
pub mod probe;
pub mod report;
pub mod request;
pub mod session;
pub mod settings;
pub mod sniffer;
pub mod store;
pub mod text;
pub mod tool;
pub mod worker;
