//! What the scan knows of the file system: entries, their kinds, and the
//! text that files hold.

pub mod entry;
pub mod entry_type;
pub mod error;
pub mod line_count;
pub mod pool;
pub mod read;
pub mod sort;
pub mod utf8;
