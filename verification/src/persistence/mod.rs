//! Persistence: log-file rotation and retention, CSV layout, write buffering
//! and the writers' state across flushes.

pub mod buffer;
pub mod csv_layout;
pub mod log_file;
pub mod rotation;
