//! Verified core of a process-monitor broadcast engine: typed events, a
//! drop-oldest recent-log ring, a single-writer fan-out hub with per-viewer
//! latest-wins stats slots and bounded log queues, and the parsers that
//! normalize external status documents and log lines into events.

pub mod event;
pub mod hub;
pub mod laws;
pub mod logline;
pub mod pm2;
pub mod session;
