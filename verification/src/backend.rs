//! Backends that turn collected spans into trace files.

pub mod perfetto;
pub mod perfetto_protos;
pub mod wire;
