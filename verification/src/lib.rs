//! A verified language-server gateway library.
//!
//! The core of the library is a collection of state machines that model a
//! gateway between editor clients speaking JSON-RPC over a socket and
//! out-of-process language analyzers speaking LSP over standard streams:
//! message framing, request/response correlation, document bookkeeping,
//! project-root resolution, language detection, a server registry, the
//! per-connection session machine, and the process-wide lifecycle.
//! All I/O (sockets, process pipes, the filesystem) is performed by the
//! surrounding application, which feeds events into these machines and
//! carries out the actions they return.

pub mod adapter;
pub mod codec;
pub mod config;
pub mod detect;
pub mod doctable;
pub mod dto;
pub mod framing;
pub mod fsdata;
pub mod fsio;
pub mod gateway;
pub mod hover;
pub mod json;
pub mod languages;
pub mod lifecycle;
pub mod link;
pub mod logger;
pub mod paths;
pub mod pending;
pub mod registry;
pub mod resolver;
pub mod rpc;
pub mod strutil;
